use std::cell::Cell;
use std::path::PathBuf;
use std::sync::Mutex;

use abzdokgen::environment::{Assets, ResourceEnvironment};
use abzdokgen::error::ResourceError;
use abzdokgen::fonts::{load_system_fonts, Face, FontCatalog, FontSlot};
use abzdokgen::model::{Entry, Timesheet, WorkingArea};
use abzdokgen::render::{messages, normalize, render, render_pdf};
use ecow::EcoVec;
use typst::diag::{FileError, FileResult, SourceDiagnostic, SourceResult};
use typst::foundations::{Bytes, Datetime};
use typst::model::Document;
use typst::syntax::{FileId, Source, Span, VirtualPath};
use typst::text::{Font, FontBook, FontInfo};
use typst::utils::LazyHash;
use typst::{Library, World};
use typst_pdf::PdfOptions;

const TEMPLATE: &str = r#"
#let areas = (Großforschung: "GF", Unibereich: "UB")
#let notes = (Urlaub: "U", Krankheit: "K", Feiertag: "F", Sonstiges: "S")

#let entry(task, day, start, end, rest: none, note: none) = (
  task: task, day: day, start: start, end: end, rest: rest, note: note,
)

#let minutes(time) = {
  let parts = time.split(":")
  int(parts.at(0)) * 60 + int(parts.at(1))
}

#let timesheet(
  name: none, staff_id: none, department: none, working_area: none,
  monthly_hours: none, hourly_wage: none, validate: true,
  carry_prev_month: none, year: none, month: none, ..entries,
) = {
  if validate {
    for e in entries.pos() {
      assert(minutes(e.start) < minutes(e.end), message: "entry ends before it starts: " + e.task)
    }
  }
  image("kit_logo.svg", width: 2cm)
  [#name, #staff_id, #department, #working_area, #monthly_hours h, #hourly_wage, #year/#month]
  for e in entries.pos() [

    #e.day: #e.task (#e.start to #e.end)
  ]
}
"#;

const LOGO: &str = r##"<svg xmlns="http://www.w3.org/2000/svg" width="10" height="10"><rect width="10" height="10" fill="#009682"/></svg>"##;

fn assets() -> Assets {
    Assets { template: TEMPLATE.to_string(), logo: LOGO.as_bytes().to_vec() }
}

fn font_files() -> Vec<&'static [u8]> {
    typst_assets::fonts().collect()
}

fn fonts() -> FontCatalog<Mutex<FontSlot>> {
    let files = font_files();
    let faces = (0..files.len())
        .map(|i| Face { path: Some(PathBuf::from(i.to_string())), index: 0 })
        .collect();
    load_system_fonts(faces, |i| FontInfo::new(files[i], 0)).map_slots(Mutex::new)
}

fn load_font(path: &PathBuf, index: u32) -> Option<Font> {
    let position: usize = path.to_str()?.parse().ok()?;
    Font::new(Bytes::from(font_files().get(position)?.to_vec()), index)
}

fn export(document: &Document) -> SourceResult<Vec<u8>> {
    typst_pdf::pdf(document, &PdfOptions::default())
}

struct TestWorld {
    env: ResourceEnvironment<Mutex<FontSlot>>,
    library: LazyHash<Library>,
    book: LazyHash<FontBook>,
    main: FileId,
}

impl TestWorld {
    fn new(env: ResourceEnvironment<Mutex<FontSlot>>) -> Self {
        let book = env.book().clone();
        Self {
            env,
            library: LazyHash::new(Library::builder().build()),
            book: LazyHash::new(book),
            main: FileId::new(None, VirtualPath::new("main.typ")),
        }
    }
}

impl World for TestWorld {
    fn library(&self) -> &LazyHash<Library> {
        &self.library
    }

    fn book(&self) -> &LazyHash<FontBook> {
        &self.book
    }

    fn main(&self) -> FileId {
        self.main
    }

    fn source(&self, id: FileId) -> FileResult<Source> {
        let path = id.vpath().as_rootless_path();
        match self.env.source(id == self.main, &path.to_string_lossy()) {
            Ok(text) => Ok(Source::new(id, text.to_string())),
            Err(ResourceError::NotFound(_)) => Err(FileError::NotFound(path.to_path_buf())),
        }
    }

    fn file(&self, id: FileId) -> FileResult<Bytes> {
        let path = id.vpath().as_rootless_path();
        match self.env.file(&path.to_string_lossy()) {
            Ok(bytes) => Ok(Bytes::from(bytes.clone())),
            Err(ResourceError::NotFound(_)) => Err(FileError::NotFound(path.to_path_buf())),
        }
    }

    fn font(&self, index: usize) -> Option<Font> {
        match self.env.slot(index) {
            Ok(cell) => cell.lock().unwrap().get(load_font),
            Err(violation) => panic!("{}", violation.message()),
        }
    }

    fn today(&self, offset: Option<i64>) -> Option<Datetime> {
        match self.env.today(offset) {
            Ok(date) => Datetime::from_ymd(date.year, date.month, date.day),
            Err(violation) => panic!("{}", violation.message()),
        }
    }
}

fn compile(env: ResourceEnvironment<Mutex<FontSlot>>) -> SourceResult<Document> {
    typst::compile(&TestWorld::new(env)).output
}

fn sheet_with_entry(start: &str, end: &str) -> Timesheet {
    Timesheet {
        name: "Doe, Jane".to_string(),
        staff_id: "1234".to_string(),
        department: "CS".to_string(),
        working_area: WorkingArea::Unibereich,
        monthly_hours: 40,
        hourly_wage: "14.09".to_string(),
        validate: true,
        carry_prev_month: None,
        year: 2024,
        month: 3,
        entries: vec![Entry {
            task: "Tutoring".to_string(),
            day: 5,
            start: start.to_string(),
            end: end.to_string(),
            rest: None,
            note: None,
        }],
    }
}

fn diagnostics(texts: &[&str]) -> EcoVec<SourceDiagnostic> {
    let mut list = EcoVec::new();
    for text in texts {
        list.push(SourceDiagnostic::error(Span::detached(), *text));
    }
    list
}

#[test]
fn a_sheet_without_entries_renders_as_a_pdf() {
    let mut ts = sheet_with_entry("09:00", "11:00");
    ts.validate = false;
    ts.entries.clear();
    let bytes = render(ts, assets(), fonts(), compile, export).unwrap();
    assert!(!bytes.is_empty());
    assert!(bytes.starts_with(b"%PDF-"));
}

#[test]
fn a_sheet_with_hostile_text_renders_as_a_pdf() {
    let mut ts = sheet_with_entry("09:00", "11:00");
    ts.validate = false;
    ts.name = "\", validate: true, name: \"\\".to_string();
    ts.entries[0].task = "\\\"), ts.entry(\"".to_string();
    let bytes = render(ts, assets(), fonts(), compile, export).unwrap();
    assert!(bytes.starts_with(b"%PDF-"));
}

#[test]
fn a_valid_sheet_renders_as_one_page() {
    let pages = Cell::new(0);
    let ts = sheet_with_entry("09:00", "11:00");
    let count_pages = |env| {
        let document = compile(env)?;
        pages.set(document.pages.len());
        Ok(document)
    };
    let out = render(ts, assets(), fonts(), count_pages, export);
    let bytes = out.unwrap();
    assert_eq!(pages.get(), 1);
    assert!(bytes.starts_with(b"%PDF-"));
}

#[test]
fn an_entry_that_ends_before_it_starts_gives_messages() {
    let out = render(sheet_with_entry("11:00", "09:00"), assets(), fonts(), compile, export);
    let messages = out.unwrap_err();
    assert!(!messages.is_empty());
    assert_eq!(messages[0], "assertion failed: entry ends before it starts: Tutoring");
}

#[test]
fn without_validation_the_same_entry_renders() {
    let mut ts = sheet_with_entry("11:00", "09:00");
    ts.validate = false;
    assert!(render(ts, assets(), fonts(), compile, export).is_ok());
}

#[test]
fn the_compiler_gets_the_generated_source_and_the_assets() {
    let seen = Cell::new(false);
    let inspect = |env: ResourceEnvironment<Mutex<FontSlot>>| {
        let main = env.source(true, "main.typ").unwrap();
        assert!(main.starts_with("#import \"kit_timesheet.typ\" as ts\n#ts.timesheet(\n"));
        assert!(main.ends_with("  ts.entry(\"Tutoring\", 5, \"09:00\", \"11:00\"),\n)"));
        assert_eq!(env.source(false, "kit_timesheet.typ").unwrap(), TEMPLATE);
        assert_eq!(env.file("kit_logo.svg").unwrap(), LOGO.as_bytes());
        assert_eq!(env.font_count(), font_files().len());
        seen.set(true);
        Err(diagnostics(&["stopped"]))
    };
    let out = render(sheet_with_entry("09:00", "11:00"), assets(), fonts(), inspect, |_| {
        panic!("nothing to export")
    });
    assert!(seen.get());
    assert_eq!(out, Err(vec!["stopped".to_string()]));
}

#[test]
fn diagnostics_of_the_compiler_come_back_in_their_order() {
    let fail = |_| Err(diagnostics(&["third is first", "", "a second one"]));
    let out = render(sheet_with_entry("09:00", "11:00"), assets(), fonts(), fail, |_| {
        panic!("nothing to export")
    });
    assert_eq!(
        out,
        Err(vec!["third is first".to_string(), String::new(), "a second one".to_string()])
    );
}

#[test]
fn render_pdf_returns_the_diagnostics_themselves() {
    let reported = diagnostics(&["one", "two"]);
    let fail = |_| Err(reported.clone());
    let out = render_pdf(sheet_with_entry("09:00", "11:00"), assets(), fonts(), fail, |_| {
        panic!("nothing to export")
    });
    assert_eq!(out, Err(reported));
}

#[test]
fn render_pdf_exports_the_document() {
    let bytes = render_pdf(sheet_with_entry("09:00", "11:00"), assets(), fonts(), compile, export).unwrap();
    assert_eq!(&bytes[..5], &[0x25, 0x50, 0x44, 0x46, 0x2d]);
    assert!(bytes.starts_with(b"%PDF-1.7\n"));
    assert!(bytes.ends_with(b"%%EOF"));
    assert!(bytes.len() > 100);
}

#[test]
fn an_empty_document_is_exported_as_a_pdf_too() {
    let empty = |_| Ok(Document::default());
    let bytes = render_pdf(sheet_with_entry("09:00", "11:00"), assets(), fonts(), empty, export);
    assert!(bytes.unwrap().starts_with(b"%PDF-"));
}

#[test]
fn the_exporter_gets_the_document_of_the_compiler() {
    let pages = Cell::new(0);
    let count_pages = |document: &Document| {
        pages.set(document.pages.len());
        export(document)
    };
    let ts = sheet_with_entry("09:00", "11:00");
    let bytes = render_pdf(ts, assets(), fonts(), compile, count_pages).unwrap();
    assert_eq!(pages.get(), 1);
    assert!(bytes.starts_with(b"%PDF-"));
}

#[test]
fn diagnostics_of_the_exporter_come_back_as_messages() {
    let refuse = |_: &Document| Err(diagnostics(&["cannot export", "at all"]));
    let ts = sheet_with_entry("09:00", "11:00");
    let out = render(ts, assets(), fonts(), compile, refuse);
    assert_eq!(out, Err(vec!["cannot export".to_string(), "at all".to_string()]));
}

#[test]
fn messages_are_those_of_the_diagnostics() {
    assert_eq!(messages(&diagnostics(&[])), Vec::<String>::new());
    assert_eq!(messages(&diagnostics(&["only"])), vec!["only".to_string()]);
    assert_eq!(
        messages(&diagnostics(&["b", "a", "b"])),
        vec!["b".to_string(), "a".to_string(), "b".to_string()]
    );
}

#[test]
fn normalize_keeps_bytes_and_flattens_diagnostics() {
    assert_eq!(normalize(Ok(vec![37, 80, 68, 70])), Ok(vec![37, 80, 68, 70]));
    assert_eq!(normalize(Ok(vec![])), Ok(vec![]));
    assert_eq!(
        normalize(Err(diagnostics(&["x", "y"]))),
        Err(vec!["x".to_string(), "y".to_string()])
    );
}

#[test]
fn a_request_outside_the_environment_fails_the_compilation() {
    let mut assets = assets();
    assets.template = "#let areas = (Unibereich: 1)\n#let entry(..args) = none\n#let timesheet(..args) = read(\"secret.txt\")\n".to_string();
    let out = render(sheet_with_entry("09:00", "11:00"), assets, fonts(), compile, export);
    let messages = out.unwrap_err();
    assert_eq!(messages.len(), 1);
    assert!(messages[0].contains("file not found"), "{}", messages[0]);
}
