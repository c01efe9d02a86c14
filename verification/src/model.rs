//! The timesheet records handed to the source generator.

use vstd::prelude::*;

verus! {

/// The branch of the institution an employee works for.
#[derive(Clone, Copy, Debug, PartialEq, Eq, Structural)]
pub enum WorkingArea {
    Grossforschung,
    Unibereich,
}

/// The reason attached to an entry that is not ordinary working time.
#[derive(Clone, Copy, Debug, PartialEq, Eq, Structural)]
pub enum Note {
    Urlaub,
    Krankheit,
    Feiertag,
    Sonstiges,
}

/// One line of a timesheet.
#[derive(Clone, Debug)]
pub struct Entry {
    pub task: String,
    pub day: u32,
    pub start: String,
    pub end: String,
    pub rest: Option<String>,
    pub note: Option<Note>,
}

/// What an [`Entry`] holds, as mathematical values.
pub struct EntryView {
    pub task: Seq<char>,
    pub day: u32,
    pub start: Seq<char>,
    pub end: Seq<char>,
    pub rest: Option<Seq<char>>,
    pub note: Option<Note>,
}

/// The sequence of characters of an optional string.
pub open spec fn opt_text(s: Option<String>) -> Option<Seq<char>> {
    match s {
        Some(s) => Some(s@),
        None => None,
    }
}

impl View for Entry {
    type V = EntryView;

    open spec fn view(&self) -> EntryView {
        EntryView {
            task: self.task@,
            day: self.day,
            start: self.start@,
            end: self.end@,
            rest: opt_text(self.rest),
            note: self.note,
        }
    }
}

/// What the entries of `v` hold, in order.
pub open spec fn entry_views(v: Seq<Entry>) -> Seq<EntryView> {
    v.map_values(|e: Entry| e@)
}

/// A month of work of one employee.
#[derive(Clone, Debug)]
pub struct Timesheet {
    pub name: String,
    pub staff_id: String,
    pub department: String,
    pub working_area: WorkingArea,
    pub monthly_hours: u32,
    pub hourly_wage: String,
    pub validate: bool,
    pub carry_prev_month: Option<String>,
    pub year: u32,
    pub month: u32,
    pub entries: Vec<Entry>,
}

/// What a [`Timesheet`] holds, as mathematical values.
pub struct TimesheetView {
    pub name: Seq<char>,
    pub staff_id: Seq<char>,
    pub department: Seq<char>,
    pub working_area: WorkingArea,
    pub monthly_hours: u32,
    pub hourly_wage: Seq<char>,
    pub validate: bool,
    pub carry_prev_month: Option<Seq<char>>,
    pub year: u32,
    pub month: u32,
    pub entries: Seq<EntryView>,
}

impl View for Timesheet {
    type V = TimesheetView;

    open spec fn view(&self) -> TimesheetView {
        TimesheetView {
            name: self.name@,
            staff_id: self.staff_id@,
            department: self.department@,
            working_area: self.working_area,
            monthly_hours: self.monthly_hours,
            hourly_wage: self.hourly_wage@,
            validate: self.validate,
            carry_prev_month: opt_text(self.carry_prev_month),
            year: self.year,
            month: self.month,
            entries: entry_views(self.entries@),
        }
    }
}

} // verus!
