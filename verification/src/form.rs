//! A timesheet as the form hands it in: one text for each field of the
//! month, and one column for each field of the entries.

use vstd::prelude::*;
use crate::input::{
    area_of_code, filled, non_empty, note_of_code, parse_area, parse_note, Field, InputError,
};
use crate::model::{entry_views, Entry, EntryView, Note, Timesheet, TimesheetView};
use crate::number::{is_decimal, is_decimal_token, parse_pair, parsed_pair};
use crate::order::{chronological, sort_entries};

verus! {

/// The fields of the form. The columns `task` to `note` hold the entries:
/// what stands at one index in all of them is one row.
pub struct PostForm {
    pub month: String,
    pub name: String,
    pub staff_id: String,
    pub working_area: String,
    pub department: String,
    pub monthly_hours: u32,
    pub hourly_wage: String,
    pub carry_prev_month: String,
    pub sort: bool,
    pub validate: bool,
    pub task: Vec<String>,
    pub day: Vec<Option<u32>>,
    pub start: Vec<String>,
    pub end: Vec<String>,
    pub rest: Vec<String>,
    pub note: Vec<String>,
}

/// The year and the month that `text` writes as two numbers with a hyphen
/// between them.
pub open spec fn parsed_month(text: Seq<char>) -> Option<(u32, u32)> {
    parsed_pair(text, '-')
}

/// The smaller of two numbers.
pub open spec fn smaller(a: nat, b: nat) -> nat {
    if a <= b {
        a
    } else {
        b
    }
}

/// The number of rows: the length of the shortest column.
pub open spec fn form_rows(form: PostForm) -> nat {
    smaller(
        smaller(smaller(form.task@.len(), form.day@.len()), smaller(form.start@.len(), form.end@.len())),
        smaller(form.rest@.len(), form.note@.len()),
    )
}

/// Whether row `i` is an entry: it names a task, a day, a start and an
/// end.
pub open spec fn row_is_entry(form: PostForm, i: int) -> bool {
    &&& form.task@[i]@.len() > 0
    &&& form.day@[i] is Some
    &&& form.start@[i]@.len() > 0
    &&& form.end@[i]@.len() > 0
}

/// The entry that row `i` holds. An empty rest is no rest.
pub open spec fn row_entry(form: PostForm, i: int) -> EntryView {
    EntryView {
        task: form.task@[i]@,
        day: form.day@[i]->0,
        start: form.start@[i]@,
        end: form.end@[i]@,
        rest: filled(form.rest@[i]@),
        note: match note_of_code(form.note@[i]@) {
            Some(note) => note,
            None => None,
        },
    }
}

/// The entries of the first `n` rows, in the order of the rows.
pub open spec fn form_entries(form: PostForm, n: nat) -> Seq<EntryView>
    decreases n,
{
    if n == 0 {
        Seq::empty()
    } else {
        let before = form_entries(form, (n - 1) as nat);
        if row_is_entry(form, n - 1) {
            before.push(row_entry(form, n - 1))
        } else {
            before
        }
    }
}

/// The first index from `from` on at which the column of notes holds a
/// code that stands for nothing.
pub open spec fn first_invalid_note(notes: Seq<String>, from: int) -> Option<int>
    decreases notes.len() - from,
{
    if from < 0 || from >= notes.len() {
        None
    } else if note_of_code(notes[from]@) is None {
        Some(from)
    } else {
        first_invalid_note(notes, from + 1)
    }
}

/// The entries of the form, in the order of the rows, or in chronological
/// order where the form asks for it.
pub open spec fn ordered_entries(form: PostForm) -> Seq<EntryView> {
    let entries = form_entries(form, form_rows(form));
    if form.sort {
        chronological(entries)
    } else {
        entries
    }
}

/// The timesheet that the form describes, or the first field that is
/// filled in wrongly: the working area, then the month, then the notes in
/// the order of the rows, then the wage, which must be a decimal number.
/// An empty carry is no carry.
pub open spec fn form_timesheet(form: PostForm) -> Result<TimesheetView, (Field, Seq<char>)> {
    if area_of_code(form.working_area@, true) is None {
        Err((Field::WorkingArea, form.working_area@))
    } else if parsed_month(form.month@) is None {
        Err((Field::Month, form.month@))
    } else if first_invalid_note(form.note@, 0) is Some {
        Err((Field::Note, form.note@[first_invalid_note(form.note@, 0)->0]@))
    } else if !is_decimal_token(form.hourly_wage@) {
        Err((Field::HourlyWage, form.hourly_wage@))
    } else {
        let year_month = parsed_month(form.month@)->0;
        Ok(
            TimesheetView {
                name: form.name@,
                staff_id: form.staff_id@,
                department: form.department@,
                working_area: area_of_code(form.working_area@, true)->0,
                monthly_hours: form.monthly_hours,
                hourly_wage: form.hourly_wage@,
                validate: form.validate,
                carry_prev_month: filled(form.carry_prev_month@),
                year: year_month.0,
                month: year_month.1,
                entries: ordered_entries(form),
            },
        )
    }
}

/// Reads a year and a month, written as two numbers with a hyphen between
/// them.
pub fn parse_month(month_str: &str) -> (out: Option<(u32, u32)>)
    ensures
        out == parsed_month(month_str@),
{
    parse_pair(month_str, '-')
}

/// Reads the column of notes; stops at the first code that stands for
/// nothing and gives its index.
fn parse_notes(codes: &Vec<String>) -> (out: Result<Vec<Option<Note>>, usize>)
    ensures
        match first_invalid_note(codes@, 0) {
            Some(i) => 0 <= i < codes.len() && out == Err::<Vec<Option<Note>>, usize>(i as usize),
            None => out matches Ok(notes) && notes.len() == codes.len() && forall|k: int|
                0 <= k < codes.len() ==> note_of_code(codes@[k]@) == Some(#[trigger] notes@[k]),
        },
{
    let mut notes: Vec<Option<Note>> = Vec::new();
    let mut i: usize = 0;
    while i < codes.len()
        invariant
            i <= codes.len(),
            notes.len() == i,
            first_invalid_note(codes@, 0) == first_invalid_note(codes@, i as int),
            forall|k: int| 0 <= k < i ==> note_of_code(codes@[k]@) == Some(#[trigger] notes@[k]),
        decreases codes.len() - i,
    {
        match parse_note(codes[i].as_str()) {
            Some(note) => notes.push(note),
            None => {
                return Err(i);
            },
        }
        i += 1;
    }
    Ok(notes)
}

/// The length of the shortest column.
fn count_rows(form: &PostForm) -> (n: usize)
    ensures
        n == form_rows(*form),
{
    let mut n = form.task.len();
    if form.day.len() < n {
        n = form.day.len();
    }
    if form.start.len() < n {
        n = form.start.len();
    }
    if form.end.len() < n {
        n = form.end.len();
    }
    if form.rest.len() < n {
        n = form.rest.len();
    }
    if form.note.len() < n {
        n = form.note.len();
    }
    n
}

/// Turns the form into a timesheet: see [`form_timesheet`].
pub fn timesheet_from_form(form: PostForm) -> (out: Result<Timesheet, InputError>)
    ensures
        match form_timesheet(form) {
            Ok(view) => out matches Ok(ts) && ts@ == view,
            Err(error) => out matches Err(e) && e@ == error,
        },
        out matches Ok(ts) ==> is_decimal_token(ts.hourly_wage@),
{
    let working_area = match parse_area(form.working_area.as_str(), true) {
        Some(area) => area,
        None => {
            return Err(InputError { field: Field::WorkingArea, value: form.working_area });
        },
    };
    let (year, month) = match parse_month(form.month.as_str()) {
        Some(pair) => pair,
        None => {
            return Err(InputError { field: Field::Month, value: form.month });
        },
    };
    let notes = match parse_notes(&form.note) {
        Ok(notes) => notes,
        Err(i) => {
            return Err(InputError { field: Field::Note, value: form.note[i].clone() });
        },
    };
    if !is_decimal(form.hourly_wage.as_str()) {
        return Err(InputError { field: Field::HourlyWage, value: form.hourly_wage });
    }
    let rows = count_rows(&form);
    let mut entries: Vec<Entry> = Vec::new();
    let mut i: usize = 0;
    while i < rows
        invariant
            i <= rows,
            rows == form_rows(form),
            notes.len() == form.note.len(),
            forall|k: int|
                0 <= k < form.note.len() ==> note_of_code(form.note@[k]@) == Some(
                    #[trigger] notes@[k],
                ),
            entry_views(entries@) == form_entries(form, i as nat),
        decreases rows - i,
    {
        let ghost before = entry_views(entries@);
        if !form.task[i].as_str().is_empty() && !form.start[i].as_str().is_empty()
            && !form.end[i].as_str().is_empty() {
            if let Some(day) = form.day[i] {
                let entry = Entry {
                    task: form.task[i].clone(),
                    day,
                    start: form.start[i].clone(),
                    end: form.end[i].clone(),
                    rest: non_empty(form.rest[i].clone()),
                    note: notes[i],
                };
                assert(entry@ == row_entry(form, i as int));
                entries.push(entry);
                assert(entry_views(entries@) =~= before.push(entry@));
            }
        }
        i += 1;
    }
    let entries = if form.sort {
        sort_entries(entries)
    } else {
        entries
    };
    let ts = Timesheet {
        name: form.name,
        staff_id: form.staff_id,
        department: form.department,
        working_area,
        monthly_hours: form.monthly_hours,
        hourly_wage: form.hourly_wage,
        validate: form.validate,
        carry_prev_month: non_empty(form.carry_prev_month),
        year,
        month,
        entries,
    };
    Ok(ts)
}

} // verus!
