use std::cell::{Cell, RefCell};
use std::path::{Path, PathBuf};
use std::sync::{Arc, Mutex};

use abzdokgen::error::ContractViolation;
use abzdokgen::fonts::{load_system_fonts, Face, FontSlot};
use typst::foundations::Bytes;
use typst::text::{Font, FontInfo};

fn font_files() -> Vec<&'static [u8]> {
    typst_assets::fonts().collect()
}

fn decode(bytes: &[u8], index: u32) -> Option<Font> {
    Font::new(Bytes::from(bytes.to_vec()), index)
}

fn file_face(name: &str) -> Face {
    Face { path: Some(PathBuf::from(name)), index: 0 }
}

#[test]
fn a_slot_loads_its_font_once() {
    let files = font_files();
    let loads = Cell::new(0);
    let mut slot = FontSlot::new(PathBuf::from("/fonts/first.ttf"), 0);
    assert!(!slot.is_loaded());

    let first = slot.get(|path, index| {
        assert_eq!(path, Path::new("/fonts/first.ttf"));
        assert_eq!(index, 0);
        loads.set(loads.get() + 1);
        decode(files[0], index)
    });
    assert!(slot.is_loaded());
    let second = slot.get(|_, index| {
        loads.set(loads.get() + 1);
        decode(files[1], index)
    });

    assert_eq!(loads.get(), 1);
    assert!(first.is_some());
    assert_eq!(first, second);
}

#[test]
fn a_slot_returns_the_font_that_was_loaded() {
    let files = font_files();
    let expected = FontInfo::new(files[0], 0).unwrap();
    let mut slot = FontSlot::new(PathBuf::from("a"), 0);
    let font = slot.get(|_, index| decode(files[0], index)).unwrap();
    assert_eq!(font.info(), &expected);
    assert_eq!(font.index(), 0);
    assert_eq!(font.data().as_slice(), files[0]);
}

#[test]
fn a_slot_hands_its_own_index_to_the_loader() {
    let seen = Cell::new(0);
    let mut slot = FontSlot::new(PathBuf::from("collection.ttc"), 7);
    let font = slot.get(|path, index| {
        assert_eq!(path, Path::new("collection.ttc"));
        seen.set(index);
        None
    });
    assert_eq!(seen.get(), 7);
    assert!(font.is_none());
}

#[test]
fn a_font_that_does_not_decode_is_absent() {
    let loads = Cell::new(0);
    let mut slot = FontSlot::new(PathBuf::from("broken.ttf"), 0);
    let first = slot.get(|_, index| {
        loads.set(loads.get() + 1);
        decode(b"this is no font", index)
    });
    assert!(first.is_none());
    assert!(slot.is_loaded());
    let second = slot.get(|_, _| panic!("the font is loaded again"));
    assert!(second.is_none());
    assert_eq!(loads.get(), 1);
}

#[test]
fn a_font_whose_file_cannot_be_read_is_absent() {
    let mut slot = FontSlot::new(PathBuf::from("gone.ttf"), 0);
    assert!(slot.get(|_, _| None).is_none());
    assert!(slot.is_loaded());
    assert!(slot.get(|_, _| panic!("the font is loaded again")).is_none());
}

#[test]
fn discovery_keeps_the_faces_with_a_file_and_metadata() {
    let files = font_files();
    let faces = vec![
        file_face("first"),
        Face { path: None, index: 0 },
        file_face("unreadable"),
        Face { path: Some(PathBuf::from("fourth")), index: 0 },
    ];
    let probed = RefCell::new(vec![]);
    let mut catalog = load_system_fonts(faces, |position| {
        probed.borrow_mut().push(position);
        match position {
            0 => FontInfo::new(files[0], 0),
            3 => FontInfo::new(files[1], 0),
            _ => None,
        }
    });

    assert_eq!(*probed.borrow(), vec![0, 2, 3]);
    assert_eq!(catalog.len(), 2);
    assert_eq!(catalog.book().info(0), FontInfo::new(files[0], 0).as_ref());
    assert_eq!(catalog.book().info(1), FontInfo::new(files[1], 0).as_ref());
    assert!(catalog.book().info(2).is_none());

    let second = catalog.font(1, |path, index| {
        assert_eq!(path, Path::new("fourth"));
        decode(files[1], index)
    });
    assert_eq!(second.unwrap().unwrap().data().as_slice(), files[1]);
    let first = catalog.font(0, |path, index| {
        assert_eq!(path, Path::new("first"));
        decode(files[0], index)
    });
    assert_eq!(first.unwrap().unwrap().data().as_slice(), files[0]);
}

#[test]
fn discovery_of_no_faces_gives_an_empty_catalog() {
    let catalog = load_system_fonts(vec![], |_| panic!("nothing to probe"));
    assert_eq!(catalog.len(), 0);
    assert!(catalog.book().info(0).is_none());
}

#[test]
fn a_catalog_loads_each_position_once() {
    let files = font_files();
    let loads = Cell::new(0);
    let mut catalog = load_system_fonts(vec![file_face("a"), file_face("b")], |position| {
        FontInfo::new(files[position], 0)
    });
    let load = |_: &PathBuf, index: u32| {
        loads.set(loads.get() + 1);
        decode(files[0], index)
    };
    let first = catalog.font(0, load).unwrap();
    let again = catalog.font(0, load).unwrap();
    assert_eq!(loads.get(), 1);
    assert_eq!(first, again);
    let other = catalog.font(1, load).unwrap();
    assert_eq!(loads.get(), 2);
    assert!(other.is_some());
}

#[test]
fn a_position_outside_the_book_is_a_violation() {
    let files = font_files();
    let mut catalog = load_system_fonts(vec![file_face("a")], |_| FontInfo::new(files[0], 0));
    let out = catalog.font(1, |_, _| panic!("nothing to load"));
    assert_eq!(out, Err(ContractViolation::FontIndex));
    let out = catalog.font(usize::MAX, |_, _| panic!("nothing to load"));
    assert_eq!(out, Err(ContractViolation::FontIndex));
    assert_eq!(catalog.len(), 1);
}

#[test]
fn a_catalog_hands_out_the_cell_of_each_position() {
    let files = font_files();
    let catalog = load_system_fonts(vec![file_face("a"), file_face("b")], |position| {
        FontInfo::new(files[position], 0)
    });
    assert!(catalog.slot(0).is_ok());
    assert!(!catalog.slot(0).unwrap().is_loaded());
    assert!(!catalog.slot(1).unwrap().is_loaded());
    assert_eq!(catalog.slot(2).err(), Some(ContractViolation::FontIndex));
}

#[test]
fn cells_keep_the_book_and_the_order_of_the_slots() {
    let files = font_files();
    let catalog = load_system_fonts(
        vec![file_face("a"), Face { path: None, index: 0 }, file_face("c")],
        |position| FontInfo::new(files[position], 0),
    );
    let wrapped = Cell::new(0);
    let catalog = catalog.map_slots(|slot| {
        wrapped.set(wrapped.get() + 1);
        Mutex::new(slot)
    });
    assert_eq!(wrapped.get(), 2);
    assert_eq!(catalog.len(), 2);
    assert_eq!(catalog.book().info(0), FontInfo::new(files[0], 0).as_ref());
    assert_eq!(catalog.book().info(1), FontInfo::new(files[2], 0).as_ref());
    let font = catalog.slot(1).unwrap().lock().unwrap().get(|path, index| {
        assert_eq!(path, Path::new("c"));
        decode(files[2], index)
    });
    assert_eq!(font.unwrap().data().as_slice(), files[2]);
    assert!(!catalog.slot(0).unwrap().lock().unwrap().is_loaded());
}

#[test]
fn catalogs_that_share_their_cells_load_each_font_once() {
    let files = font_files();
    let loads = Cell::new(0);
    let load = |_: &PathBuf, index: u32| {
        loads.set(loads.get() + 1);
        decode(files[0], index)
    };
    let first = load_system_fonts(vec![file_face("a"), file_face("b")], |position| {
        FontInfo::new(files[position], 0)
    })
    .map_slots(|slot| Arc::new(Mutex::new(slot)));
    let second = first.share();
    assert_eq!(second.len(), 2);
    assert_eq!(second.book().info(1), first.book().info(1));

    let loaded = first.slot(0).unwrap().lock().unwrap().get(load);
    let again = second.slot(0).unwrap().lock().unwrap().get(load);
    assert_eq!(loads.get(), 1);
    assert!(loaded.is_some());
    assert_eq!(loaded, again);
    assert!(!second.slot(1).unwrap().lock().unwrap().is_loaded());
    assert_eq!(second.slot(2).err(), Some(ContractViolation::FontIndex));
}
