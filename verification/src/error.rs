//! What a request to the resource environment can fail with.

use vstd::prelude::*;
use vstd::string::StringExecFns;

verus! {

/// A request for a resource that the environment does not hold.
#[derive(Debug)]
pub enum ResourceError {
    /// Nothing is known under this path.
    NotFound(String),
}

impl ResourceError {
    /// The path that was asked for.
    pub open spec fn path(self) -> Seq<char> {
        match self {
            ResourceError::NotFound(path) => path@,
        }
    }

    /// A sentence that names the path.
    pub open spec fn message_text(self) -> Seq<char> {
        "file not found (searched at "@ + self.path() + ")"@
    }

    /// Writes the error as a sentence.
    pub fn message(&self) -> (out: String)
        ensures
            out@ == self.message_text(),
    {
        match self {
            ResourceError::NotFound(path) => {
                let mut out = String::from_str("file not found (searched at ");
                out.append(path.as_str());
                out.append(")");
                out
            },
        }
    }
}

/// A request that the template has no business making: the environment and
/// the template no longer agree on what the environment offers.
#[derive(Clone, Copy, Debug, PartialEq, Eq, Structural)]
pub enum ContractViolation {
    /// The current date was asked for.
    Clock,
    /// A font was asked for at a position that the font book does not have.
    FontIndex,
}

impl ContractViolation {
    /// A sentence that names the violation.
    pub open spec fn message_text(self) -> Seq<char> {
        match self {
            ContractViolation::Clock => "internal contract violation: datetimes are not supported"@,
            ContractViolation::FontIndex =>
                "internal contract violation: font index out of range"@,
        }
    }

    /// Writes the violation as a sentence.
    pub fn message(&self) -> (out: String)
        ensures
            out@ == self.message_text(),
    {
        match self {
            ContractViolation::Clock => String::from_str(
                "internal contract violation: datetimes are not supported",
            ),
            ContractViolation::FontIndex => String::from_str(
                "internal contract violation: font index out of range",
            ),
        }
    }
}

} // verus!
