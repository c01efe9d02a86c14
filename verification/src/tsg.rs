//! A timesheet as the two documents of the TimeSheetGenerator describe
//! it: one with what holds for every month, one with the month itself.

use vstd::prelude::*;
use crate::input::{area_of_code, parse_area, Field, InputError};
use crate::model::{entry_views, opt_text, Entry, EntryView, Note, Timesheet, TimesheetView};
use crate::number::{is_decimal, is_decimal_token, parse_pair, parsed_pair};
use crate::order::{chronological, sort_entries};
use crate::text::{fmt_signed, signed_decimal};

verus! {

/// What holds for every month. The wage is a decimal number, held as the
/// text that writes it.
pub struct GlobalJson {
    pub name: String,
    pub staff_id: i64,
    pub department: String,
    pub working_time: String,
    pub wage: String,
    pub working_area: String,
}

/// One entry of a month.
pub struct EntryJson {
    pub action: String,
    pub day: u32,
    pub start: String,
    pub end: String,
    pub pause: Option<String>,
    pub vacation: bool,
}

/// One month.
pub struct MonthJson {
    pub year: u32,
    pub month: u32,
    pub pred_transfer: Option<String>,
    pub entries: Vec<EntryJson>,
}

/// Both documents, and how to treat them.
pub struct PostJson {
    pub global: GlobalJson,
    pub month: MonthJson,
    pub sort: bool,
    pub validate: bool,
}

/// The hours that `text` writes as hours and minutes with a colon
/// between them. Only full hours count: the minutes must be zero.
pub open spec fn parsed_span(text: Seq<char>) -> Option<u32> {
    match parsed_pair(text, ':') {
        Some((hours, minutes)) => if minutes == 0 {
            Some(hours)
        } else {
            None
        },
        None => None,
    }
}

/// The entry of the record that an entry of the document stands for. A
/// vacation is noted as such; there is no other note.
pub open spec fn json_entry(e: EntryJson) -> EntryView {
    EntryView {
        task: e.action@,
        day: e.day,
        start: e.start@,
        end: e.end@,
        rest: opt_text(e.pause),
        note: if e.vacation {
            Some(Note::Urlaub)
        } else {
            None
        },
    }
}

/// The entries of the month, in the order of the document, or in
/// chronological order where the request asks for it.
pub open spec fn json_entries(json: PostJson) -> Seq<EntryView> {
    let entries = json.month.entries@.map_values(|e: EntryJson| json_entry(e));
    if json.sort {
        chronological(entries)
    } else {
        entries
    }
}

/// The timesheet that the two documents describe, or the first field that
/// is filled in wrongly: the working area, then the working time, then the
/// wage, which must be a decimal number.
pub open spec fn json_timesheet(json: PostJson) -> Result<TimesheetView, (Field, Seq<char>)> {
    if area_of_code(json.global.working_area@, false) is None {
        Err((Field::WorkingArea, json.global.working_area@))
    } else if parsed_span(json.global.working_time@) is None {
        Err((Field::WorkingTime, json.global.working_time@))
    } else if !is_decimal_token(json.global.wage@) {
        Err((Field::HourlyWage, json.global.wage@))
    } else {
        Ok(
            TimesheetView {
                name: json.global.name@,
                staff_id: signed_decimal(json.global.staff_id as int),
                department: json.global.department@,
                working_area: area_of_code(json.global.working_area@, false)->0,
                monthly_hours: parsed_span(json.global.working_time@)->0,
                hourly_wage: json.global.wage@,
                validate: json.validate,
                carry_prev_month: opt_text(json.month.pred_transfer),
                year: json.month.year,
                month: json.month.month,
                entries: json_entries(json),
            },
        )
    }
}

/// Reads a number of full hours, written as hours and minutes with a
/// colon between them.
pub fn parse_span(span_str: &str) -> (out: Option<u32>)
    ensures
        out == parsed_span(span_str@),
{
    match parse_pair(span_str, ':') {
        Some((hours, minutes)) => if minutes == 0 {
            Some(hours)
        } else {
            None
        },
        None => None,
    }
}

/// Turns the two documents into a timesheet: see [`json_timesheet`].
pub fn timesheet_from_json(json: PostJson) -> (out: Result<Timesheet, InputError>)
    ensures
        match json_timesheet(json) {
            Ok(view) => out matches Ok(ts) && ts@ == view,
            Err(error) => out matches Err(e) && e@ == error,
        },
        out matches Ok(ts) ==> is_decimal_token(ts.hourly_wage@),
{
    let working_area = match parse_area(json.global.working_area.as_str(), false) {
        Some(area) => area,
        None => {
            return Err(InputError { field: Field::WorkingArea, value: json.global.working_area });
        },
    };
    let monthly_hours = match parse_span(json.global.working_time.as_str()) {
        Some(hours) => hours,
        None => {
            return Err(InputError { field: Field::WorkingTime, value: json.global.working_time });
        },
    };
    if !is_decimal(json.global.wage.as_str()) {
        return Err(InputError { field: Field::HourlyWage, value: json.global.wage });
    }
    let ghost all = json.month.entries@;
    let mut entries: Vec<Entry> = Vec::new();
    let listed = json.month.entries;
    for e in it: listed
        invariant
            it.seq() == all,
            entry_views(entries@) == all.take(it.index()).map_values(|e: EntryJson| json_entry(e)),
    {
        let ghost before = entry_views(entries@);
        let entry = Entry {
            task: e.action,
            day: e.day,
            start: e.start,
            end: e.end,
            rest: e.pause,
            note: if e.vacation {
                Some(Note::Urlaub)
            } else {
                None
            },
        };
        entries.push(entry);
        assert(entry_views(entries@) =~= before.push(json_entry(e)));
        assert(all.take(it.index() + 1).map_values(|e: EntryJson| json_entry(e)) =~= before.push(
            json_entry(e),
        ));
    }
    assert(all.take(all.len() as int) =~= all);
    let entries = if json.sort {
        sort_entries(entries)
    } else {
        entries
    };
    Ok(
        Timesheet {
            name: json.global.name,
            staff_id: fmt_signed(json.global.staff_id),
            department: json.global.department,
            working_area,
            monthly_hours,
            hourly_wage: json.global.wage,
            validate: json.validate,
            carry_prev_month: json.month.pred_transfer,
            year: json.month.year,
            month: json.month.month,
            entries,
        },
    )
}

} // verus!
