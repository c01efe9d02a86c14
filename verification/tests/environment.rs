use std::path::PathBuf;
use std::sync::Mutex;

use abzdokgen::environment::{Assets, ResourceEnvironment, LOGO_NAME};
use abzdokgen::error::{ContractViolation, ResourceError};
use abzdokgen::fonts::{load_system_fonts, Face, FontSlot};
use abzdokgen::source::TEMPLATE_NAME;
use typst::foundations::Bytes;
use typst::text::{Font, FontInfo};

fn decode(bytes: &[u8], index: u32) -> Option<Font> {
    Font::new(Bytes::from(bytes.to_vec()), index)
}

fn environment() -> ResourceEnvironment<FontSlot> {
    let assets = Assets { template: "the template".to_string(), logo: vec![1, 2, 3] };
    let fonts = load_system_fonts(vec![], |_| None);
    ResourceEnvironment::new("the main source".to_string(), assets, fonts)
}

fn missing(out: Result<impl Sized, ResourceError>) -> String {
    match out {
        Err(ResourceError::NotFound(path)) => path,
        Ok(_) => panic!("found"),
    }
}

#[test]
fn the_names_of_the_embedded_resources() {
    assert_eq!(TEMPLATE_NAME, "kit_timesheet.typ");
    assert_eq!(LOGO_NAME, "kit_logo.svg");
}

#[test]
fn the_main_file_is_the_generated_source() {
    let env = environment();
    assert_eq!(env.source(true, "main.typ").unwrap(), "the main source");
    assert_eq!(env.source(true, "whatever").unwrap(), "the main source");
}

#[test]
fn the_template_is_found_by_its_name() {
    let env = environment();
    assert_eq!(env.source(false, "kit_timesheet.typ").unwrap(), "the template");
}

#[test]
fn the_logo_is_found_by_its_name() {
    let env = environment();
    assert_eq!(env.file("kit_logo.svg").unwrap(), &vec![1, 2, 3]);
}

#[test]
fn other_sources_are_not_found() {
    let env = environment();
    for path in ["", "main.typ", "kit_logo.svg", "Kit_timesheet.typ", "a/kit_timesheet.typ", "../etc/passwd"] {
        assert_eq!(missing(env.source(false, path)), path);
    }
}

#[test]
fn other_files_are_not_found() {
    let env = environment();
    for path in ["", "main.typ", "kit_timesheet.typ", "kit_logo.png", "/kit_logo.svg", "../etc/passwd"] {
        assert_eq!(missing(env.file(path)), path);
    }
}

#[test]
fn a_missing_resource_names_its_path() {
    let error = ResourceError::NotFound("data.csv".to_string());
    assert_eq!(error.message(), "file not found (searched at data.csv)");
}

#[test]
fn the_date_is_never_given() {
    let env = environment();
    assert_eq!(env.today(None), Err(ContractViolation::Clock));
    assert_eq!(env.today(Some(2)), Err(ContractViolation::Clock));
    assert_eq!(env.today(Some(-11)), Err(ContractViolation::Clock));
}

#[test]
fn violations_say_what_was_asked() {
    assert_eq!(
        ContractViolation::Clock.message(),
        "internal contract violation: datetimes are not supported"
    );
    assert_eq!(
        ContractViolation::FontIndex.message(),
        "internal contract violation: font index out of range"
    );
}

#[test]
fn the_environment_serves_the_fonts_of_its_catalog() {
    let files: Vec<&'static [u8]> = typst_assets::fonts().collect();
    let faces = vec![Face { path: Some(PathBuf::from("only")), index: 0 }];
    let fonts = load_system_fonts(faces, |_| FontInfo::new(files[0], 0));
    let assets = Assets { template: String::new(), logo: vec![] };
    let mut env = ResourceEnvironment::new(String::new(), assets, fonts);

    assert_eq!(env.font_count(), 1);
    assert_eq!(env.book().info(0), FontInfo::new(files[0], 0).as_ref());
    let font = env.font(0, |_, index| decode(files[0], index)).unwrap().unwrap();
    assert_eq!(font.data().as_slice(), files[0]);
    let again = env.font(0, |_, _| panic!("the font is loaded again")).unwrap();
    assert_eq!(again, Some(font));
    assert_eq!(env.font(1, |_, _| panic!("nothing to load")), Err(ContractViolation::FontIndex));

    let mut fonts = env.into_fonts();
    assert_eq!(fonts.len(), 1);
    assert!(fonts.font(0, |_, _| panic!("the font is loaded again")).unwrap().is_some());
}

#[test]
fn the_environment_hands_out_the_cells_of_its_catalog() {
    let files: Vec<&'static [u8]> = typst_assets::fonts().collect();
    let faces = vec![
        Face { path: Some(PathBuf::from("first")), index: 0 },
        Face { path: Some(PathBuf::from("second")), index: 0 },
    ];
    let fonts = load_system_fonts(faces, |i| FontInfo::new(files[i], 0)).map_slots(Mutex::new);
    let assets = Assets { template: String::new(), logo: vec![] };
    let env = ResourceEnvironment::new(String::new(), assets, fonts);

    assert_eq!(env.font_count(), 2);
    let second = env.slot(1).unwrap().lock().unwrap().get(|path, index| {
        assert_eq!(path, &PathBuf::from("second"));
        decode(files[1], index)
    });
    assert_eq!(second.unwrap().data().as_slice(), files[1]);
    assert!(!env.slot(0).unwrap().lock().unwrap().is_loaded());
    assert!(env.slot(1).unwrap().lock().unwrap().is_loaded());
    assert_eq!(env.slot(2).err(), Some(ContractViolation::FontIndex));
    assert_eq!(env.slot(usize::MAX).err(), Some(ContractViolation::FontIndex));
}
