//! The source text that invokes the timesheet template on one record.

use vstd::prelude::*;
use crate::literal::{fmt_str, quoted};
use crate::model::{entry_views, Entry, EntryView, Note, Timesheet, TimesheetView, WorkingArea};
use crate::number::{
    is_decimal_token, is_digit, lemma_decimal_reads_back, lemma_decimal_token_chars,
};
use crate::text::{decimal, fmt_int, join, joined, lemma_joined_piece, piece_start, texts};

verus! {

/// The name under which the generated source imports the template.
pub const ALIAS: &'static str = "ts";

/// The name by which the compiler asks for the template.
pub const TEMPLATE_NAME: &'static str = "kit_timesheet.typ";

/// How a boolean is written.
pub open spec fn bool_text(b: bool) -> Seq<char> {
    if b {
        "true"@
    } else {
        "false"@
    }
}

/// The template's own name of a working area.
pub open spec fn area_name(area: WorkingArea) -> Seq<char> {
    match area {
        WorkingArea::Grossforschung => "Großforschung"@,
        WorkingArea::Unibereich => "Unibereich"@,
    }
}

/// The template's own name of a note.
pub open spec fn note_name(note: Note) -> Seq<char> {
    match note {
        Note::Urlaub => "Urlaub"@,
        Note::Krankheit => "Krankheit"@,
        Note::Feiertag => "Feiertag"@,
        Note::Sonstiges => "Sonstiges"@,
    }
}

/// The path of a working area below the alias.
pub open spec fn area_path(area: WorkingArea) -> Seq<char> {
    ALIAS@ + ".areas."@ + area_name(area)
}

/// The path of a note below the alias.
pub open spec fn note_path(note: Note) -> Seq<char> {
    ALIAS@ + ".notes."@ + note_name(note)
}

/// A named argument: the name, a colon, a blank, the value.
pub open spec fn named(name: Seq<char>, value: Seq<char>) -> Seq<char> {
    name + ": "@ + value
}

/// The four arguments that every entry passes by position: task, day, start
/// and end.
pub open spec fn positional_args(e: EntryView) -> Seq<Seq<char>> {
    seq![quoted(e.task), decimal(e.day as nat), quoted(e.start), quoted(e.end)]
}

/// The arguments that an entry passes by name: its rest if it has one, then
/// its note if it has one.
pub open spec fn named_args(e: EntryView) -> Seq<Seq<char>> {
    let rest = match e.rest {
        Some(rest) => seq![named("rest"@, quoted(rest))],
        None => Seq::empty(),
    };
    let note = match e.note {
        Some(note) => seq![named("note"@, note_path(note))],
        None => Seq::empty(),
    };
    rest + note
}

/// All arguments of an entry's call, in the order in which they are written.
pub open spec fn entry_args(e: EntryView) -> Seq<Seq<char>> {
    positional_args(e) + named_args(e)
}

/// The call that stands for one entry.
pub open spec fn entry_call(e: EntryView) -> Seq<char> {
    ALIAS@ + ".entry("@ + joined(entry_args(e), ", "@) + ")"@
}

/// One line of the template's argument list: two blanks, the argument, a
/// comma.
pub open spec fn arg_line(arg: Seq<char>) -> Seq<char> {
    "  "@ + arg + ","@
}

/// The lines before the entries: the import, the opening of the call, and
/// the arguments that describe the month as a whole. The wage is a decimal
/// number that the record holds as text ([`is_decimal_token`]): it is
/// written as it stands, without quotes.
pub open spec fn header_lines(ts: TimesheetView) -> Seq<Seq<char>> {
    let carry = match ts.carry_prev_month {
        Some(carry) => seq![arg_line(named("carry_prev_month"@, quoted(carry)))],
        None => Seq::empty(),
    };
    seq![
        "#import "@ + quoted(TEMPLATE_NAME@) + " as "@ + ALIAS@,
        "#"@ + ALIAS@ + ".timesheet("@,
        arg_line(named("name"@, quoted(ts.name))),
        arg_line(named("staff_id"@, quoted(ts.staff_id))),
        arg_line(named("department"@, quoted(ts.department))),
        arg_line(named("working_area"@, area_path(ts.working_area))),
        arg_line(named("monthly_hours"@, decimal(ts.monthly_hours as nat))),
        arg_line(named("hourly_wage"@, ts.hourly_wage)),
        arg_line(named("validate"@, bool_text(ts.validate))),
    ] + carry + seq![
        arg_line(named("year"@, decimal(ts.year as nat))),
        arg_line(named("month"@, decimal(ts.month as nat))),
    ]
}

/// One line for each entry, in the order of the entries.
pub open spec fn entry_lines(entries: Seq<EntryView>) -> Seq<Seq<char>> {
    Seq::new(entries.len(), |i: int| arg_line(entry_call(entries[i])))
}

/// All lines of the generated source.
pub open spec fn timesheet_lines(ts: TimesheetView) -> Seq<Seq<char>> {
    header_lines(ts) + entry_lines(ts.entries) + seq![")"@]
}

/// The generated source: its lines, with a line feed between neighbours.
pub open spec fn timesheet_source(ts: TimesheetView) -> Seq<char> {
    joined(timesheet_lines(ts), "\n"@)
}

/// An argument that begins with a double quote or a decimal digit. No
/// argument that is passed by name begins so: a name begins with a letter.
pub open spec fn begins_as_value(arg: Seq<char>) -> bool {
    arg.len() > 0 && (arg[0] == '"' || is_digit(arg[0]))
}

/// An entry is called with its task, day, start and end by position, then
/// with its rest by name if it has one, then with its note by name if it
/// has one, and with nothing else. So an entry with neither has exactly four
/// arguments, a rest adds exactly one, and a note adds exactly one behind
/// that of the rest.
pub proof fn lemma_entry_arguments(e: EntryView)
    ensures
        entry_args(e).len() == 4 + (if e.rest is Some { 1nat } else { 0nat }) + (if e.note is Some {
            1nat
        } else {
            0nat
        }),
        entry_args(e).take(4) == positional_args(e),
        forall|i: int| 0 <= i < 4 ==> begins_as_value(#[trigger] entry_args(e)[i]),
        forall|i: int| 4 <= i < entry_args(e).len() ==> !begins_as_value(#[trigger] entry_args(e)[i]),
        e.rest is None && e.note is None ==> entry_args(e) == positional_args(e),
        e.rest matches Some(rest) ==> entry_args(e)[4] == named("rest"@, quoted(rest)),
        e.note matches Some(note) ==> entry_args(e).last() == named("note"@, note_path(note)),
        e.rest is Some && e.note is Some ==> entry_args(e).len() == 6,
{
    reveal_strlit("rest");
    reveal_strlit("note");
    assert(entry_args(e).take(4) =~= positional_args(e));
    lemma_decimal_reads_back(e.day as nat);
    if e.rest is None && e.note is None {
        assert(entry_args(e) =~= positional_args(e));
    }
}

/// The wage of a sheet, written without quotes, cannot end its argument or
/// begin another: a decimal number holds digits, a point and a minus sign
/// alone, so no comma, no bracket, no quote, no blank and no line break.
pub proof fn lemma_wage_is_one_argument(ts: TimesheetView)
    requires
        is_decimal_token(ts.hourly_wage),
    ensures
        header_lines(ts)[7] == arg_line(named("hourly_wage"@, ts.hourly_wage)),
        forall|i: int|
            0 <= i < ts.hourly_wage.len() ==> {
                let c = #[trigger] ts.hourly_wage[i];
                c != ',' && c != '(' && c != ')' && c != '"' && c != ' ' && c != '\n' && c != '\\'
                    && c != ':' && c != '#'
            },
{
    lemma_decimal_token_chars(ts.hourly_wage);
}

/// The generated source holds one line for each entry, and the lines of the
/// entries follow one another as the entries do in the record: the line of
/// entry `i` is line `i` behind the header, it stands unchanged in the
/// source text, and the line of every later entry begins behind its end.
pub proof fn lemma_entries_in_order(ts: TimesheetView, i: int)
    requires
        0 <= i < ts.entries.len(),
    ensures
        header_lines(ts).len() == if ts.carry_prev_month is Some { 12nat } else { 11nat },
        timesheet_lines(ts).len() == header_lines(ts).len() + ts.entries.len() + 1,
        timesheet_lines(ts)[header_lines(ts).len() + i] == arg_line(entry_call(ts.entries[i])),
        ({
            let at = piece_start(timesheet_lines(ts), "\n"@, header_lines(ts).len() + i);
            let line = arg_line(entry_call(ts.entries[i]));
            &&& 0 <= at
            &&& at + line.len() <= timesheet_source(ts).len()
            &&& timesheet_source(ts).subrange(at, at + line.len()) == line
            &&& forall|j: int|
                i < j < ts.entries.len() ==> at + line.len() <= #[trigger] piece_start(
                    timesheet_lines(ts),
                    "\n"@,
                    header_lines(ts).len() + j,
                )
        }),
{
    let lines = timesheet_lines(ts);
    let first = header_lines(ts).len() as int;
    lemma_joined_piece(lines, "\n"@, first + i);
    let at = piece_start(lines, "\n"@, first + i);
    let line = arg_line(entry_call(ts.entries[i]));
    assert forall|j: int| i < j < ts.entries.len() implies at + line.len()
        <= #[trigger] piece_start(lines, "\n"@, first + j) by {
        assert(first + i < first + j < lines.len());
    }
}

/// Writes a boolean.
pub fn fmt_bool(b: bool) -> (out: String)
    ensures
        out@ == bool_text(b),
{
    if b {
        String::from_str("true")
    } else {
        String::from_str("false")
    }
}

/// Writes the path of a working area.
pub fn fmt_area(area: WorkingArea) -> (out: String)
    ensures
        out@ == area_path(area),
{
    let name = match area {
        WorkingArea::Grossforschung => "Großforschung",
        WorkingArea::Unibereich => "Unibereich",
    };
    let mut out = String::from_str(ALIAS);
    out.append(".areas.");
    out.append(name);
    out
}

/// Writes the path of a note.
pub fn fmt_note(note: Note) -> (out: String)
    ensures
        out@ == note_path(note),
{
    let name = match note {
        Note::Urlaub => "Urlaub",
        Note::Krankheit => "Krankheit",
        Note::Feiertag => "Feiertag",
        Note::Sonstiges => "Sonstiges",
    };
    let mut out = String::from_str(ALIAS);
    out.append(".notes.");
    out.append(name);
    out
}

/// Writes a named argument.
fn fmt_named(name: &str, value: &str) -> (out: String)
    ensures
        out@ == named(name@, value@),
{
    let mut out = String::from_str(name);
    out.append(": ");
    out.append(value);
    out
}

/// Writes one line of the template's argument list.
fn fmt_arg_line(arg: &str) -> (out: String)
    ensures
        out@ == arg_line(arg@),
{
    let mut out = String::from_str("  ");
    out.append(arg);
    out.append(",");
    out
}

/// Writes the call that stands for one entry.
pub fn fmt_entry(entry: Entry) -> (out: String)
    ensures
        out@ == entry_call(entry@),
{
    let mut args: Vec<String> = Vec::new();
    args.push(fmt_str(entry.task.as_str()));
    args.push(fmt_int(entry.day));
    args.push(fmt_str(entry.start.as_str()));
    args.push(fmt_str(entry.end.as_str()));
    assert(texts(args@) =~= positional_args(entry@));
    if let Some(rest) = entry.rest {
        let value = fmt_str(rest.as_str());
        args.push(fmt_named("rest", value.as_str()));
    }
    if let Some(note) = entry.note {
        let value = fmt_note(note);
        args.push(fmt_named("note", value.as_str()));
    }
    assert(texts(args@) =~= entry_args(entry@));
    let mut out = String::from_str(ALIAS);
    out.append(".entry(");
    out.append(join(&args, ", ").as_str());
    out.append(")");
    out
}

/// Writes the source that invokes the template on `ts`: the import, then
/// one call with the month's arguments by name and one entry call for each
/// entry, in the order in which `ts` holds them. The wage of `ts` must be
/// a decimal number, since it is written without quotes; every other text
/// of `ts` may hold any characters.
pub fn fmt_timesheet(ts: Timesheet) -> (out: String)
    requires
        is_decimal_token(ts.hourly_wage@),
    ensures
        out@ == timesheet_source(ts@),
{
    let ghost view = ts@;
    let mut lines: Vec<String> = Vec::new();

    let mut import = String::from_str("#import ");
    import.append(fmt_str(TEMPLATE_NAME).as_str());
    import.append(" as ");
    import.append(ALIAS);
    lines.push(import);

    let mut open = String::from_str("#");
    open.append(ALIAS);
    open.append(".timesheet(");
    lines.push(open);

    lines.push(fmt_arg_line(fmt_named("name", fmt_str(ts.name.as_str()).as_str()).as_str()));
    lines.push(
        fmt_arg_line(fmt_named("staff_id", fmt_str(ts.staff_id.as_str()).as_str()).as_str()),
    );
    lines.push(
        fmt_arg_line(fmt_named("department", fmt_str(ts.department.as_str()).as_str()).as_str()),
    );
    lines.push(
        fmt_arg_line(fmt_named("working_area", fmt_area(ts.working_area).as_str()).as_str()),
    );
    lines.push(
        fmt_arg_line(fmt_named("monthly_hours", fmt_int(ts.monthly_hours).as_str()).as_str()),
    );
    lines.push(fmt_arg_line(fmt_named("hourly_wage", ts.hourly_wage.as_str()).as_str()));
    lines.push(fmt_arg_line(fmt_named("validate", fmt_bool(ts.validate).as_str()).as_str()));
    if let Some(carry) = ts.carry_prev_month {
        lines.push(
            fmt_arg_line(fmt_named("carry_prev_month", fmt_str(carry.as_str()).as_str()).as_str()),
        );
    }
    lines.push(fmt_arg_line(fmt_named("year", fmt_int(ts.year).as_str()).as_str()));
    lines.push(fmt_arg_line(fmt_named("month", fmt_int(ts.month).as_str()).as_str()));
    assert(texts(lines@) =~= header_lines(view));

    let entries = ts.entries;
    for entry in it: entries
        invariant
            entry_views(it.seq()) == view.entries,
            texts(lines@) == header_lines(view) + entry_lines(view.entries.take(it.index())),
    {
        let ghost before = texts(lines@);
        lines.push(fmt_arg_line(fmt_entry(entry).as_str()));
        assert(texts(lines@) =~= before.push(arg_line(entry_call(entry@))));
        assert(entry_lines(view.entries.take(it.index() + 1)) =~= entry_lines(
            view.entries.take(it.index()),
        ).push(arg_line(entry_call(entry@))));
    }
    assert(view.entries.take(view.entries.len() as int) =~= view.entries);

    let ghost before = texts(lines@);
    lines.push(String::from_str(")"));
    assert(texts(lines@) =~= before.push(")"@));
    assert(texts(lines@) =~= timesheet_lines(view));
    join(&lines, "\n")
}

} // verus!
