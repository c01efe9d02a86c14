//! What the two ways of filling in a timesheet have in common: the codes
//! of areas and notes, and the error that names a field that was filled in
//! wrongly.

use vstd::prelude::*;
use crate::model::{Note, WorkingArea};
use crate::text::same_text;

verus! {

/// A field of the input that can be filled in wrongly.
#[derive(Clone, Copy, Debug, PartialEq, Eq, Structural)]
pub enum Field {
    WorkingArea,
    Month,
    Note,
    WorkingTime,
    HourlyWage,
}

/// A field that was filled in wrongly, with what stood in it.
#[derive(Debug)]
pub struct InputError {
    pub field: Field,
    pub value: String,
}

impl View for InputError {
    type V = (Field, Seq<char>);

    open spec fn view(&self) -> (Field, Seq<char>) {
        (self.field, self.value@)
    }
}

impl Field {
    /// How the field is called in a message.
    pub open spec fn label_text(self) -> Seq<char> {
        match self {
            Field::WorkingArea => "working area"@,
            Field::Month => "month"@,
            Field::Note => "note"@,
            Field::WorkingTime => "working_time"@,
            Field::HourlyWage => "hourly wage"@,
        }
    }

    /// How the field is called in a message.
    pub fn label(&self) -> (out: &'static str)
        ensures
            out@ == self.label_text(),
    {
        match self {
            Field::WorkingArea => "working area",
            Field::Month => "month",
            Field::Note => "note",
            Field::WorkingTime => "working_time",
            Field::HourlyWage => "hourly wage",
        }
    }
}

/// The area that a code of two letters stands for. `upper` says whether
/// the code is written in capitals.
pub open spec fn area_of_code(code: Seq<char>, upper: bool) -> Option<WorkingArea> {
    if code == (if upper { "GF"@ } else { "gf"@ }) {
        Some(WorkingArea::Grossforschung)
    } else if code == (if upper { "UB"@ } else { "ub"@ }) {
        Some(WorkingArea::Unibereich)
    } else {
        None
    }
}

/// The note that a code stands for: none for the empty code, one of the
/// four notes for its capital initial. The outer `None` is for a code that
/// stands for nothing.
pub open spec fn note_of_code(code: Seq<char>) -> Option<Option<Note>> {
    if code == ""@ {
        Some(None)
    } else if code == "U"@ {
        Some(Some(Note::Urlaub))
    } else if code == "K"@ {
        Some(Some(Note::Krankheit))
    } else if code == "F"@ {
        Some(Some(Note::Feiertag))
    } else if code == "S"@ {
        Some(Some(Note::Sonstiges))
    } else {
        None
    }
}

/// The text itself, or nothing where it is empty.
pub open spec fn filled(text: Seq<char>) -> Option<Seq<char>> {
    if text.len() == 0 {
        None
    } else {
        Some(text)
    }
}

/// Reads the code of a working area.
pub fn parse_area(code: &str, upper: bool) -> (out: Option<WorkingArea>)
    ensures
        out == area_of_code(code@, upper),
{
    if same_text(code, if upper { "GF" } else { "gf" }) {
        Some(WorkingArea::Grossforschung)
    } else if same_text(code, if upper { "UB" } else { "ub" }) {
        Some(WorkingArea::Unibereich)
    } else {
        None
    }
}

/// Reads the code of a note.
pub fn parse_note(code: &str) -> (out: Option<Option<Note>>)
    ensures
        out == note_of_code(code@),
{
    if same_text(code, "") {
        Some(None)
    } else if same_text(code, "U") {
        Some(Some(Note::Urlaub))
    } else if same_text(code, "K") {
        Some(Some(Note::Krankheit))
    } else if same_text(code, "F") {
        Some(Some(Note::Feiertag))
    } else if same_text(code, "S") {
        Some(Some(Note::Sonstiges))
    } else {
        None
    }
}

/// The text itself, or nothing where it is empty.
pub fn non_empty(text: String) -> (out: Option<String>)
    ensures
        crate::model::opt_text(out) == filled(text@),
{
    if text.as_str().is_empty() {
        None
    } else {
        Some(text)
    }
}

} // verus!
