//! One compilation from record to PDF: the source is generated, the
//! compiler runs in a fresh environment, and what it produced is exported.
//!
//! The compiler and the exporter are the caller's: they are handed in as
//! functions, and what happens where one of them gives up on its input is
//! theirs to settle.

use ecow::EcoVec;
use typst::diag::SourceDiagnostic;
use typst::model::Document;
use vstd::prelude::*;
use crate::environment::{Assets, ResourceEnvironment};
use crate::fonts::FontCatalog;
use crate::model::{Timesheet, TimesheetView};
use crate::number::is_decimal_token;
use crate::source::{fmt_timesheet, timesheet_source};
use crate::text::texts;

verus! {

/// `typst::model::Document`: what the compiler makes of a source. The
/// library hands it from the compiler to the exporter and never looks
/// inside.
#[verifier::external_type_specification]
#[verifier::external_body]
pub struct ExDocument(Document);

/// `typst::diag::SourceDiagnostic`: one error that the compiler or the
/// exporter reports. The library reads its message and nothing else.
#[verifier::external_type_specification]
#[verifier::external_body]
pub struct ExSourceDiagnostic(SourceDiagnostic);

/// `ecow::EcoVec`: the list in which the compiler reports its diagnostics.
#[verifier::external_type_specification]
#[verifier::external_body]
#[verifier::reject_recursive_types(T)]
pub struct ExEcoVec<T>(EcoVec<T>);

/// The messages of the diagnostics of a list, in the order of the list.
pub uninterp spec fn diagnostic_messages(diagnostics: EcoVec<SourceDiagnostic>) -> Seq<Seq<char>>;

/// `EcoVec::len` gives the number of diagnostics.
#[verifier::external_body]
fn diagnostic_count(diagnostics: &EcoVec<SourceDiagnostic>) -> (n: usize)
    ensures
        n == diagnostic_messages(*diagnostics).len(),
{
    diagnostics.len()
}

/// Indexing an `EcoVec` gives the diagnostic at position `i`; the text of
/// its `message` field is the message.
#[verifier::external_body]
fn diagnostic_message(diagnostics: &EcoVec<SourceDiagnostic>, i: usize) -> (message: String)
    requires
        i < diagnostic_messages(*diagnostics).len(),
    ensures
        message@ == diagnostic_messages(*diagnostics)[i as int],
{
    diagnostics[i].message.to_string()
}

/// The five bytes with which a PDF file begins: `%PDF-`.
pub open spec fn pdf_signature() -> Seq<u8> {
    seq![0x25u8, 0x50u8, 0x44u8, 0x46u8, 0x2du8]
}

/// Whether `bytes` begin as a PDF file does.
pub open spec fn is_pdf(bytes: Seq<u8>) -> bool {
    bytes.len() >= 5 && bytes.take(5) == pdf_signature()
}

/// Whether `export` gives, for every document, either diagnostics or bytes
/// that begin as a PDF file does.
pub open spec fn exports_pdf<X: FnOnce(&Document) -> Result<Vec<u8>, EcoVec<SourceDiagnostic>>>(
    export: X,
) -> bool {
    forall|document: Document, out: Result<Vec<u8>, EcoVec<SourceDiagnostic>>|
        #[trigger] export.ensures((&document,), out) ==> (out matches Ok(bytes) ==> is_pdf(bytes@))
}

/// The messages of the diagnostics, in the order in which they were
/// reported.
pub fn messages(diagnostics: &EcoVec<SourceDiagnostic>) -> (out: Vec<String>)
    ensures
        texts(out@) == diagnostic_messages(*diagnostics),
{
    let n = diagnostic_count(diagnostics);
    let mut out: Vec<String> = Vec::new();
    let mut i: usize = 0;
    while i < n
        invariant
            n == diagnostic_messages(*diagnostics).len(),
            i <= n,
            texts(out@) == diagnostic_messages(*diagnostics).take(i as int),
        decreases n - i,
    {
        let ghost before = texts(out@);
        out.push(diagnostic_message(diagnostics, i));
        assert(texts(out@) =~= before.push(diagnostic_messages(*diagnostics)[i as int]));
        assert(diagnostic_messages(*diagnostics).take(i + 1) =~= before.push(
            diagnostic_messages(*diagnostics)[i as int],
        ));
        i += 1;
    }
    assert(diagnostic_messages(*diagnostics).take(n as int) =~= diagnostic_messages(*diagnostics));
    out
}

/// What the outcome of a rendering holds: the bytes of the PDF, or the
/// messages.
pub open spec fn outcome_view(out: Result<Vec<u8>, Vec<String>>) -> Result<
    Seq<u8>,
    Seq<Seq<char>>,
> {
    match out {
        Ok(bytes) => Ok(bytes@),
        Err(messages) => Err(texts(messages@)),
    }
}

/// What the result of the compiler or of the exporter comes to: the bytes
/// of the PDF, or the messages of the diagnostics, in their order.
pub open spec fn normalized(raw: Result<Vec<u8>, EcoVec<SourceDiagnostic>>) -> Result<
    Seq<u8>,
    Seq<Seq<char>>,
> {
    match raw {
        Ok(bytes) => Ok(bytes@),
        Err(diagnostics) => Err(diagnostic_messages(diagnostics)),
    }
}

/// Whether `env` is the environment in which `ts` is compiled: its main
/// file is the source generated for `ts`, its template and logo are those
/// of `assets`, and its fonts are `fonts`.
pub open spec fn is_environment_for<S>(
    env: ResourceEnvironment<S>,
    ts: TimesheetView,
    assets: Assets,
    fonts: FontCatalog<S>,
) -> bool {
    &&& env.main_text() == timesheet_source(ts)
    &&& env.template_text() == assets.template@
    &&& env.logo_bytes() == assets.logo@
    &&& env.fonts() == fonts
}

/// Whether `raw` can come out of one compilation of `ts`: `compile` was
/// run once, in the environment for `ts`. Where it reported diagnostics,
/// `raw` is the failure with exactly these, and `export` was not asked.
/// Where it produced a document, `raw` is what `export` returned for this
/// document.
pub open spec fn is_compilation<S, C, X>(
    ts: TimesheetView,
    assets: Assets,
    fonts: FontCatalog<S>,
    compile: C,
    export: X,
    raw: Result<Vec<u8>, EcoVec<SourceDiagnostic>>,
) -> bool where
    C: FnOnce(ResourceEnvironment<S>) -> Result<Document, EcoVec<SourceDiagnostic>>,
    X: FnOnce(&Document) -> Result<Vec<u8>, EcoVec<SourceDiagnostic>>,
 {
    exists|env: ResourceEnvironment<S>, compiled: Result<Document, EcoVec<SourceDiagnostic>>|
        {
            &&& is_environment_for(env, ts, assets, fonts)
            &&& #[trigger] compile.ensures((env,), compiled)
            &&& match compiled {
                Ok(document) => export.ensures((&document,), raw),
                Err(diagnostics) => raw == Err::<Vec<u8>, EcoVec<SourceDiagnostic>>(diagnostics),
            }
        }
}

/// What `render_pdf` and `render` ask of the two functions handed in:
/// `compile` takes the environment for `ts`, `export` takes every document
/// that `compile` can return for it, and what `export` calls a success
/// begins as a PDF file does.
pub open spec fn can_compile<S, C, X>(
    ts: TimesheetView,
    assets: Assets,
    fonts: FontCatalog<S>,
    compile: C,
    export: X,
) -> bool where
    C: FnOnce(ResourceEnvironment<S>) -> Result<Document, EcoVec<SourceDiagnostic>>,
    X: FnOnce(&Document) -> Result<Vec<u8>, EcoVec<SourceDiagnostic>>,
 {
    &&& forall|env: ResourceEnvironment<S>|
        is_environment_for(env, ts, assets, fonts) ==> #[trigger] compile.requires((env,))
    &&& forall|env: ResourceEnvironment<S>, document: Document|
        is_environment_for(env, ts, assets, fonts) && #[trigger] compile.ensures(
            (env,),
            Ok::<Document, EcoVec<SourceDiagnostic>>(document),
        ) ==> export.requires((&document,))
    &&& exports_pdf(export)
}

/// Turns the result of the compiler or of the exporter into the outcome
/// for the caller: the bytes as they are, or the diagnostics as their
/// messages, in the order in which they were reported.
pub fn normalize(raw: Result<Vec<u8>, EcoVec<SourceDiagnostic>>) -> (out: Result<
    Vec<u8>,
    Vec<String>,
>)
    ensures
        outcome_view(out) == normalized(raw),
{
    match raw {
        Ok(bytes) => Ok(bytes),
        Err(diagnostics) => Err(messages(&diagnostics)),
    }
}

/// Compiles `ts` and exports the document. The source is generated from
/// `ts`, `compile` is called once, on a fresh environment that holds this
/// source, `assets` and `fonts`, and `export` is called on the document it
/// returns: the result is what `export` returned for it. Where `compile`
/// returns diagnostics, they are the result, and `export` is not called.
/// The wage of `ts` must be a decimal number, as [`fmt_timesheet`] asks.
pub fn render_pdf<S, C, X>(
    ts: Timesheet,
    assets: Assets,
    fonts: FontCatalog<S>,
    compile: C,
    export: X,
) -> (raw: Result<Vec<u8>, EcoVec<SourceDiagnostic>>) where
    C: FnOnce(ResourceEnvironment<S>) -> Result<Document, EcoVec<SourceDiagnostic>>,
    X: FnOnce(&Document) -> Result<Vec<u8>, EcoVec<SourceDiagnostic>>,

    requires
        is_decimal_token(ts.hourly_wage@),
        can_compile(ts@, assets, fonts, compile, export),
    ensures
        is_compilation(ts@, assets, fonts, compile, export, raw),
        raw matches Ok(bytes) ==> is_pdf(bytes@),
{
    let ghost view = ts@;
    let env = ResourceEnvironment::new(fmt_timesheet(ts), assets, fonts);
    assert(is_environment_for(env, view, assets, fonts));
    match compile(env) {
        Ok(document) => export(&document),
        Err(diagnostics) => Err(diagnostics),
    }
}

/// Renders `ts` as a PDF: [`render_pdf`], with the diagnostics of a failure
/// flattened into their messages. The outcome is the bytes of the PDF, or
/// the messages in the order in which they were reported, never both; and
/// bytes that come back begin as a PDF file does.
pub fn render<S, C, X>(
    ts: Timesheet,
    assets: Assets,
    fonts: FontCatalog<S>,
    compile: C,
    export: X,
) -> (out: Result<Vec<u8>, Vec<String>>) where
    C: FnOnce(ResourceEnvironment<S>) -> Result<Document, EcoVec<SourceDiagnostic>>,
    X: FnOnce(&Document) -> Result<Vec<u8>, EcoVec<SourceDiagnostic>>,

    requires
        is_decimal_token(ts.hourly_wage@),
        can_compile(ts@, assets, fonts, compile, export),
    ensures
        exists|raw: Result<Vec<u8>, EcoVec<SourceDiagnostic>>|
            #![trigger normalized(raw)]
            is_compilation(ts@, assets, fonts, compile, export, raw) && outcome_view(out)
                == normalized(raw),
        out matches Ok(bytes) ==> is_pdf(bytes@),
{
    normalize(render_pdf(ts, assets, fonts, compile, export))
}

} // verus!
