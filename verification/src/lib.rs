//! Timesheets as PDF documents.
//!
//! A [`Timesheet`] is written as source text for the Typst compiler
//! ([`source`], [`literal`]), which calls a template on the values of the
//! record. The compiler then runs in a [`ResourceEnvironment`]: a closed set
//! of resources that holds this source, the template, the logo and the
//! fonts of the host ([`fonts`]), and nothing else. [`render`](render::render)
//! puts the steps together and gives the bytes of the PDF, or the messages
//! of the compiler.
//!
//! The modules [`form`] and [`tsg`] turn two kinds of input into a
//! [`Timesheet`].
//!
//! The library reads no file and keeps no clock, and it runs neither the
//! font decoder, nor the compiler, nor the exporter itself: the caller
//! hands in the functions that do so. What the library decides is when
//! they are called, on what, and what becomes of their results.

pub mod environment;
pub mod error;
pub mod fonts;
pub mod form;
pub mod input;
pub mod literal;
pub mod model;
pub mod number;
pub mod order;
pub mod render;
pub mod source;
pub mod text;
pub mod tsg;

pub use crate::environment::{Assets, ResourceEnvironment};
pub use crate::fonts::{FontCatalog, FontSlot};
pub use crate::model::{Entry, Note, Timesheet, WorkingArea};
