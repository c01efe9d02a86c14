//! The closed set of resources that the compiler can reach while it works
//! on one timesheet.

use std::path::PathBuf;
use typst::text::{Font, FontBook};
use vstd::prelude::*;
use vstd::string::StringExecFns;
use crate::error::{ContractViolation, ResourceError};
use crate::fonts::{book_infos, FontCatalog, FontSlot};
use crate::source::TEMPLATE_NAME;
use crate::text::same_text;

verus! {

/// A day of the calendar, as the compiler would want it from a clock.
#[derive(Clone, Copy, Debug, PartialEq, Eq, Structural)]
pub struct Date {
    pub year: i32,
    pub month: u8,
    pub day: u8,
}

/// The name by which the template asks for the logo.
pub const LOGO_NAME: &'static str = "kit_logo.svg";

/// The two resources that come with the program: the text of the template
/// and the bytes of the logo.
#[derive(Clone, Debug)]
pub struct Assets {
    pub template: String,
    pub logo: Vec<u8>,
}

/// What the compiler can reach: the generated source, the template, the
/// logo and the fonts. Nothing else. `S` is the cell in which the catalog
/// holds a slot (see [`FontCatalog`]).
pub struct ResourceEnvironment<S> {
    main: String,
    assets: Assets,
    fonts: FontCatalog<S>,
}

/// What a request for a source text resolves to: the generated source for
/// the main file, the template for its name, and for every other path the
/// path itself, as the thing that was not found.
pub open spec fn resolved_source(
    main: Seq<char>,
    template: Seq<char>,
    is_main: bool,
    path: Seq<char>,
) -> Result<Seq<char>, Seq<char>> {
    if is_main {
        Ok(main)
    } else if path == TEMPLATE_NAME@ {
        Ok(template)
    } else {
        Err(path)
    }
}

/// What a request for a file's bytes resolves to: the logo for its name,
/// and for every other path the path itself, as the thing that was not
/// found.
pub open spec fn resolved_file(logo: Seq<u8>, path: Seq<char>) -> Result<Seq<u8>, Seq<char>> {
    if path == LOGO_NAME@ {
        Ok(logo)
    } else {
        Err(path)
    }
}

/// A path that is not one of the two names finds nothing, neither as a
/// source text nor as a file.
pub proof fn lemma_unknown_name_is_not_found(
    main: Seq<char>,
    template: Seq<char>,
    logo: Seq<u8>,
    path: Seq<char>,
)
    requires
        path != TEMPLATE_NAME@,
        path != LOGO_NAME@,
    ensures
        resolved_source(main, template, false, path) == Err::<Seq<char>, Seq<char>>(path),
        resolved_file(logo, path) == Err::<Seq<u8>, Seq<char>>(path),
{
}

impl<S> ResourceEnvironment<S> {
    /// The generated source.
    pub closed spec fn main_text(self) -> Seq<char> {
        self.main@
    }

    /// The text of the template.
    pub closed spec fn template_text(self) -> Seq<char> {
        self.assets.template@
    }

    /// The bytes of the logo.
    pub closed spec fn logo_bytes(self) -> Seq<u8> {
        self.assets.logo@
    }

    /// The fonts.
    pub closed spec fn fonts(self) -> FontCatalog<S> {
        self.fonts
    }

    /// An environment for one compilation of `main`.
    pub fn new(main: String, assets: Assets, fonts: FontCatalog<S>) -> (env: ResourceEnvironment<
        S,
    >)
        ensures
            env.main_text() == main@,
            env.template_text() == assets.template@,
            env.logo_bytes() == assets.logo@,
            env.fonts() == fonts,
    {
        ResourceEnvironment { main, assets, fonts }
    }

    /// Resolves a request for a source text. `is_main` says that the
    /// request is for the main file; `path` is the path that was asked for.
    pub fn source(&self, is_main: bool, path: &str) -> (out: Result<&str, ResourceError>)
        ensures
            match resolved_source(self.main_text(), self.template_text(), is_main, path@) {
                Ok(text) => out matches Ok(found) && found@ == text,
                Err(missing) => out matches Err(ResourceError::NotFound(at)) && at@ == missing,
            },
    {
        if is_main {
            Ok(self.main.as_str())
        } else if same_text(path, TEMPLATE_NAME) {
            Ok(self.assets.template.as_str())
        } else {
            Err(ResourceError::NotFound(String::from_str(path)))
        }
    }

    /// Resolves a request for the bytes of the file at `path`.
    pub fn file(&self, path: &str) -> (out: Result<&Vec<u8>, ResourceError>)
        ensures
            match resolved_file(self.logo_bytes(), path@) {
                Ok(bytes) => out matches Ok(found) && found@ == bytes,
                Err(missing) => out matches Err(ResourceError::NotFound(at)) && at@ == missing,
            },
    {
        if same_text(path, LOGO_NAME) {
            Ok(&self.assets.logo)
        } else {
            Err(ResourceError::NotFound(String::from_str(path)))
        }
    }

    /// The font book, for the compiler to choose fonts from.
    pub fn book(&self) -> (book: &FontBook)
        ensures
            book_infos(*book) == self.fonts().infos(),
    {
        self.fonts.book()
    }

    /// The number of fonts.
    pub fn font_count(&self) -> (n: usize)
        ensures
            n == self.fonts().slots().len(),
            n == self.fonts().infos().len(),
    {
        self.fonts.len()
    }

    /// The cell of the slot at `index` of the book, as
    /// [`FontCatalog::slot`] gives it: an index that the book does not
    /// have is a violation.
    pub fn slot(&self, index: usize) -> (out: Result<&S, ContractViolation>)
        ensures
            match out {
                Ok(cell) => index < self.fonts().slots().len() && *cell
                    == self.fonts().slots()[index as int],
                Err(violation) => index >= self.fonts().slots().len() && violation
                    == ContractViolation::FontIndex,
            },
    {
        self.fonts.slot(index)
    }

    /// The environment has no clock: to ask for the date is a violation,
    /// whatever the offset.
    pub fn today(&self, offset: Option<i64>) -> (out: Result<Date, ContractViolation>)
        ensures
            out == Err::<Date, ContractViolation>(ContractViolation::Clock),
    {
        Err(ContractViolation::Clock)
    }

    /// Gives the fonts back, with what they have kept.
    pub fn into_fonts(self) -> (fonts: FontCatalog<S>)
        ensures
            fonts == self.fonts(),
    {
        self.fonts
    }
}

impl ResourceEnvironment<FontSlot> {
    /// Looks up the font at `index` of the book, as [`FontCatalog::font`]
    /// does. The rest of the environment stays as it is.
    pub fn font<L>(&mut self, index: usize, load: L) -> (out: Result<
        Option<Font>,
        ContractViolation,
    >) where L: FnOnce(&PathBuf, u32) -> Option<Font>
        requires
            old(self).fonts().asks_to_load(index) ==> load.requires(
                (
                    &old(self).fonts().slots()[index as int].path(),
                    old(self).fonts().slots()[index as int].index(),
                ),
            ),
        ensures
            final(self).main_text() == old(self).main_text(),
            final(self).template_text() == old(self).template_text(),
            final(self).logo_bytes() == old(self).logo_bytes(),
            old(self).fonts().is_lookup(final(self).fonts(), index, load, out),
    {
        self.fonts.font(index, load)
    }
}

} // verus!
