//! Diagnostics for display: findings and parse failures with their byte
//! offsets turned into line and column positions.

use crate::message::Message;
use crate::spec::Catalog;
use crate::utils::{position_at, position_from_offset, Position, Range};
use crate::validation::optionality::overlay_of;
use crate::validation::{finding_diagnostic, findings, validate_message, Finding, ValidationError};
use crate::workspace::specs::{SpecEntryView, WorkspaceSpecs};
use vstd::prelude::*;
use vstd::string::StringSliceAdditionalSpecFns;

verus! {

/// How grave a diagnostic is.
#[derive(Debug, Clone, Copy, PartialEq, Eq, Structural)]
pub enum Severity {
    Error,
    Warning,
    Info,
}

/// A diagnostic as an editor shows it.
#[derive(Debug, Clone)]
pub struct Diagnostic {
    pub range: Range,
    pub severity: Severity,
    pub message: String,
    pub code: Option<String>,
}

/// The content of a `Diagnostic`.
pub struct DiagnosticView {
    pub range: Range,
    pub severity: Severity,
    pub message: Seq<char>,
    pub code: Option<Seq<char>>,
}

impl View for Diagnostic {
    type V = DiagnosticView;

    open spec fn view(&self) -> DiagnosticView {
        DiagnosticView {
            range: self.range,
            severity: self.severity,
            message: self.message@,
            code: self.code.deep_view(),
        }
    }
}

impl DeepView for Diagnostic {
    type V = DiagnosticView;

    open spec fn deep_view(&self) -> DiagnosticView {
        self@
    }
}

/// Why the text of a document is no message.
#[derive(Debug, Clone)]
pub enum ParseFailure {
    /// Parsing failed at a byte offset.
    FailedToParse { position: usize, message: String },
    /// The text ended too early.
    IncompleteInput { message: String },
}

impl ParseFailure {
    /// The offset the failure is reported at: where parsing failed, or the
    /// end of the text where the text ended too early.
    pub open spec fn offset(self, text: Seq<u8>) -> int {
        match self {
            ParseFailure::FailedToParse { position, .. } => position as int,
            ParseFailure::IncompleteInput { .. } => text.len() as int,
        }
    }

    pub open spec fn message(self) -> Seq<char> {
        match self {
            ParseFailure::FailedToParse { message, .. } => message@,
            ParseFailure::IncompleteInput { message } => message@,
        }
    }
}

/// The position of an offset of `text`.
pub open spec fn position_of(text: Seq<u8>, offset: int) -> Position {
    Position {
        line: position_at(text, offset).0 as u32,
        character: position_at(text, offset).1 as u32,
    }
}

/// The diagnostic of a parse failure: an error over one column at the offset
/// of the failure.
pub open spec fn parse_failure_diagnostic(text: Seq<u8>, failure: ParseFailure) -> DiagnosticView {
    let start = position_of(text, failure.offset(text));
    DiagnosticView {
        range: Range {
            start,
            end: Position { line: start.line, character: (start.character + 1) as u32 },
        },
        severity: Severity::Error,
        message: failure.message(),
        code: None,
    }
}

pub fn parse_error_to_diagnostic(text: &str, failure: ParseFailure) -> (r: Diagnostic)
    requires
        text.spec_bytes().len() < u32::MAX,
    ensures
        r@ == parse_failure_diagnostic(text.spec_bytes(), failure),
{
    proof {
        crate::utils::lemma_position_at_bounded(text.spec_bytes(), failure.offset(text.spec_bytes()));
    }
    let (start, message) = match failure {
        ParseFailure::FailedToParse { position, message } => (
            position_from_offset(text, position),
            message,
        ),
        ParseFailure::IncompleteInput { message } => (
            position_from_offset(text, text.len()),
            message,
        ),
    };
    Diagnostic {
        range: Range {
            start,
            end: Position { line: start.line, character: start.character + 1 },
        },
        severity: Severity::Error,
        message,
        code: None,
    }
}

/// The diagnostics of a list of findings, in their order.
pub fn translate(errors: Vec<ValidationError>, text: &str) -> (r: Vec<Diagnostic>)
    requires
        text.spec_bytes().len() <= u32::MAX,
    ensures
        r@.len() == errors@.len(),
        forall|i: int|
            0 <= i < r@.len() ==> (#[trigger] r@[i])@ == crate::validation::finding_diagnostic(
                text.spec_bytes(),
                errors@[i]@,
            ),
{
    let mut errors = errors;
    let ghost all = errors@;
    let mut r: Vec<Diagnostic> = Vec::new();
    while errors.len() > 0
        invariant
            text.spec_bytes().len() <= u32::MAX,
            r@.len() + errors@.len() == all.len(),
            forall|j: int| 0 <= j < errors@.len() ==> errors@[j] == all[r@.len() + j],
            forall|i: int|
                0 <= i < r@.len() ==> (#[trigger] r@[i])@
                    == crate::validation::finding_diagnostic(text.spec_bytes(), all[i]@),
        decreases errors@.len(),
    {
        let error = errors.remove(0);
        r.push(error.into_diagnostic(text));
    }
    r
}

/// The diagnostics of findings, in their order.
pub open spec fn finding_diagnostics(text: Seq<u8>, found: Seq<Finding>) -> Seq<DiagnosticView> {
    Seq::new(found.len(), |i: int| finding_diagnostic(text, found[i]))
}

/// The diagnostics of a document: those of the findings of its message, or
/// the one of the failure where its text is no message.
pub open spec fn document_diagnostics(
    document: Seq<Seq<char>>,
    text: Seq<u8>,
    parsed: Result<Message, ParseFailure>,
    catalog: Catalog,
    overlay: Option<Seq<SpecEntryView>>,
) -> Seq<DiagnosticView> {
    match parsed {
        Ok(message) => finding_diagnostics(text, findings(document, message, catalog, overlay)),
        Err(failure) => seq![parse_failure_diagnostic(text, failure)],
    }
}

/// The diagnostics of the document at `document` with the given text, which
/// was parsed with the outcome `parsed`. No validation is done on a text that
/// is no message.
pub fn handle_diagnostics(
    document: &Vec<String>,
    text: &str,
    parsed: Result<&Message, ParseFailure>,
    catalog: &Catalog,
    workspace_specs: &Option<&WorkspaceSpecs>,
) -> (r: Vec<Diagnostic>)
    requires
        text.spec_bytes().len() < u32::MAX,
    ensures
        r.deep_view() == document_diagnostics(
            document.deep_view(),
            text.spec_bytes(),
            match parsed {
                Ok(message) => Ok(*message),
                Err(failure) => Err(failure),
            },
            *catalog,
            overlay_of(*workspace_specs),
        ),
{
    match parsed {
        Ok(message) => {
            let errors = validate_message(document, message, catalog, workspace_specs);
            let ghost found = errors.deep_view();
            let diagnostics = translate(errors, text);
            assert(diagnostics.deep_view() =~= finding_diagnostics(text.spec_bytes(), found));
            diagnostics
        },
        Err(failure) => {
            let mut diagnostics: Vec<Diagnostic> = Vec::new();
            diagnostics.push(parse_error_to_diagnostic(text, failure));
            assert(diagnostics.deep_view() =~= seq![
                parse_failure_diagnostic(text.spec_bytes(), failure),
            ]);
            diagnostics
        },
    }
}

} // verus!
