//! The validation of a message: findings with their byte ranges, and the
//! passes that produce them.

pub mod datatypes;
pub mod length;
pub mod msh;
pub mod optionality;
pub mod table_values;

use crate::diagnostics::{position_of, Diagnostic, DiagnosticView, Severity};
use crate::message::{Message, Span};
use crate::spec::Catalog;
use crate::workspace::specs::{SpecEntryView, WorkspaceSpecs};
use crate::utils::{range_from_offsets, Range};
use vstd::prelude::*;
use vstd::string::StringSliceAdditionalSpecFns;

verus! {

/// What kind of rule a finding is about.
#[derive(Debug, Copy, Clone)]
pub enum ValidationCode {
    MessageStructure,
    InvalidTableValue,
    InvalidTimestamp,
    InvalidLength,
    InvalidOptionality,
    InvalidDataType(&'static str),
}

/// A finding about a message.
#[derive(Debug, Clone)]
pub struct ValidationError {
    pub code: ValidationCode,
    pub message: String,
    pub range: Span,
    pub severity: Severity,
}

/// The content of a `ValidationCode`.
pub enum FindingCode {
    MessageStructure,
    InvalidTableValue,
    InvalidTimestamp,
    InvalidLength,
    InvalidOptionality,
    InvalidDataType(Seq<char>),
}

/// The content of a `ValidationError`.
pub struct Finding {
    pub code: FindingCode,
    pub message: Seq<char>,
    pub range: Span,
    pub severity: Severity,
}

impl View for ValidationCode {
    type V = FindingCode;

    open spec fn view(&self) -> FindingCode {
        match self {
            ValidationCode::MessageStructure => FindingCode::MessageStructure,
            ValidationCode::InvalidTableValue => FindingCode::InvalidTableValue,
            ValidationCode::InvalidTimestamp => FindingCode::InvalidTimestamp,
            ValidationCode::InvalidLength => FindingCode::InvalidLength,
            ValidationCode::InvalidOptionality => FindingCode::InvalidOptionality,
            ValidationCode::InvalidDataType(reason) => FindingCode::InvalidDataType(reason@),
        }
    }
}

impl View for ValidationError {
    type V = Finding;

    open spec fn view(&self) -> Finding {
        Finding {
            code: self.code@,
            message: self.message@,
            range: self.range,
            severity: self.severity,
        }
    }
}

impl DeepView for ValidationError {
    type V = Finding;

    open spec fn deep_view(&self) -> Finding {
        self@
    }
}

/// The stable text of a code.
pub open spec fn code_text(code: FindingCode) -> Seq<char> {
    match code {
        FindingCode::MessageStructure => "message structure"@,
        FindingCode::InvalidTableValue => "table value"@,
        FindingCode::InvalidTimestamp => "timestamp"@,
        FindingCode::InvalidLength => "length"@,
        FindingCode::InvalidOptionality => "optionality"@,
        FindingCode::InvalidDataType(reason) => "data type ("@ + reason + ")"@,
    }
}

/// The diagnostic of a finding: its range as positions in `text`, its
/// severity and message, and the text of its code.
pub open spec fn finding_diagnostic(text: Seq<u8>, finding: Finding) -> DiagnosticView {
    DiagnosticView {
        range: Range {
            start: position_of(text, finding.range.start as int),
            end: position_of(text, finding.range.end as int),
        },
        severity: finding.severity,
        message: finding.message,
        code: Some(code_text(finding.code)),
    }
}

/// The results of `f` at `0`, `1`, and so on below `n`, one after the other.
pub open spec fn concat_upto<T>(n: int, f: spec_fn(int) -> Seq<T>) -> Seq<T>
    decreases n,
{
    if n <= 0 {
        Seq::empty()
    } else {
        concat_upto(n - 1, f) + f(n - 1)
    }
}

/// One more step of `concat_upto` behind a prefix.
pub proof fn lemma_concat_step<T>(before: Seq<T>, n: int, f: spec_fn(int) -> Seq<T>)
    requires
        0 <= n,
    ensures
        before + concat_upto(n + 1, f) == (before + concat_upto(n, f)) + f(n),
{
    assert(before + concat_upto(n + 1, f) =~= (before + concat_upto(n, f)) + f(n));
}

/// What is found in one of two lists put together is found in one of them.
pub proof fn lemma_concat_to_set<T>(a: Seq<T>, b: Seq<T>)
    ensures
        (a + b).to_set() == a.to_set().union(b.to_set()),
{
    assert forall|x: T| (a + b).to_set().contains(x) <==> a.to_set().union(b.to_set()).contains(
        x,
    ) by {
        if (a + b).contains(x) {
            let i = choose|i: int| 0 <= i < (a + b).len() && (a + b)[i] == x;
            if i < a.len() {
                assert(a[i] == x);
            } else {
                assert(b[i - a.len()] == x);
            }
        }
        if a.contains(x) {
            let i = choose|i: int| 0 <= i < a.len() && a[i] == x;
            assert((a + b)[i] == x);
        }
        if b.contains(x) {
            let i = choose|i: int| 0 <= i < b.len() && b[i] == x;
            assert((a + b)[a.len() + i] == x);
        }
    }
    assert((a + b).to_set() =~= a.to_set().union(b.to_set()));
}

/// Where at every index what `f` finds is what `g` finds together with what
/// `h` finds, the same holds of all that they find below `n`.
pub proof fn lemma_concat_unites<T>(
    n: int,
    f: spec_fn(int) -> Seq<T>,
    g: spec_fn(int) -> Seq<T>,
    h: spec_fn(int) -> Seq<T>,
)
    requires
        forall|i: int|
            0 <= i < n ==> (#[trigger] f(i)).to_set() == g(i).to_set().union(h(i).to_set()),
    ensures
        concat_upto(n, f).to_set() == concat_upto(n, g).to_set().union(concat_upto(n, h).to_set()),
    decreases n,
{
    if n > 0 {
        lemma_concat_unites(n - 1, f, g, h);
        lemma_concat_to_set(concat_upto(n - 1, f), f(n - 1));
        lemma_concat_to_set(concat_upto(n - 1, g), g(n - 1));
        lemma_concat_to_set(concat_upto(n - 1, h), h(n - 1));
        assert(concat_upto(n, f).to_set() =~= concat_upto(n, g).to_set().union(
            concat_upto(n, h).to_set(),
        ));
    } else {
        assert(concat_upto(n, f).to_set() =~= concat_upto(n, g).to_set().union(
            concat_upto(n, h).to_set(),
        ));
    }
}

/// What is found below `n` is found at an index below `n`.
pub proof fn lemma_concat_member<T>(n: int, f: spec_fn(int) -> Seq<T>, x: T)
    requires
        concat_upto(n, f).contains(x),
    ensures
        exists|i: int| 0 <= i < n && (#[trigger] f(i)).contains(x),
    decreases n,
{
    if n > 0 {
        lemma_concat_to_set(concat_upto(n - 1, f), f(n - 1));
        assert(concat_upto(n, f).to_set().contains(x));
        if concat_upto(n - 1, f).contains(x) {
            lemma_concat_member(n - 1, f, x);
        } else {
            assert(f(n - 1).contains(x));
        }
    }
}

impl ValidationCode {
    /// The stable text of the code.
    pub fn to_string(&self) -> (r: String)
        ensures
            r@ == code_text(self@),
    {
        match self {
            ValidationCode::MessageStructure => String::from_str("message structure"),
            ValidationCode::InvalidTableValue => String::from_str("table value"),
            ValidationCode::InvalidTimestamp => String::from_str("timestamp"),
            ValidationCode::InvalidLength => String::from_str("length"),
            ValidationCode::InvalidOptionality => String::from_str("optionality"),
            ValidationCode::InvalidDataType(description) => {
                let mut text = String::from_str("data type (");
                text.append(description);
                text.append(")");
                text
            },
        }
    }
}

impl ValidationError {
    pub fn new(code: ValidationCode, message: String, range: Span, severity: Severity) -> (r: Self)
        ensures
            r.code == code,
            r.message == message,
            r.range == range,
            r.severity == severity,
    {
        ValidationError { code, message, range, severity }
    }

    /// The finding as a diagnostic of the text it was found in.
    pub fn into_diagnostic(self, text: &str) -> (r: Diagnostic)
        requires
            text.spec_bytes().len() <= u32::MAX,
        ensures
            r@ == finding_diagnostic(text.spec_bytes(), self@),
    {
        proof {
            crate::utils::lemma_position_at_bounded(text.spec_bytes(), self.range.start as int);
            crate::utils::lemma_position_at_bounded(text.spec_bytes(), self.range.end as int);
        }
        let code = self.code.to_string();
        Diagnostic {
            range: range_from_offsets(text, self.range.start, self.range.end),
            severity: self.severity,
            message: self.message,
            code: Some(code),
        }
    }
}

/// Appends one finding to a list of findings.
pub fn push_finding(errors: &mut Vec<ValidationError>, error: ValidationError)
    ensures
        final(errors).deep_view() == old(errors).deep_view() + seq![error@],
{
    errors.push(error);
    assert(errors.deep_view() =~= old(errors).deep_view() + seq![error@]);
}

/// Appends a list of findings to a list of findings.
pub fn extend_findings(errors: &mut Vec<ValidationError>, more: Vec<ValidationError>)
    ensures
        final(errors).deep_view() == old(errors).deep_view() + more.deep_view(),
{
    let ghost added = more.deep_view();
    let mut rest = more;
    errors.append(&mut rest);
    assert(errors.deep_view() =~= old(errors).deep_view() + added);
}

/// The finding for a message of fewer than two segments.
pub open spec fn too_few_segments() -> Finding {
    Finding {
        code: FindingCode::MessageStructure,
        message: "Message must have at least 2 segments"@,
        range: Span { start: 0, end: 0 },
        severity: Severity::Warning,
    }
}

/// The findings of the structure pass.
pub open spec fn structure_findings(message: Message) -> Seq<Finding> {
    if message.segments@.len() < 2 {
        seq![too_few_segments()]
    } else {
        Seq::empty()
    }
}

/// The findings of a message of the document at `document`: those of the
/// structure pass, the header pass, the optionality pass, the length pass, the
/// table pass and the datatype pass, in this order. The passes after the
/// header pass go by the version that the header pass resolved.
pub open spec fn findings(
    document: Seq<Seq<char>>,
    message: Message,
    catalog: Catalog,
    overlay: Option<Seq<SpecEntryView>>,
) -> Seq<Finding> {
    let version = msh::resolved_version(message, catalog);
    structure_findings(message) + msh::findings(message, catalog) + optionality::findings(
        message,
        catalog,
        version,
        overlay,
        document,
    ) + length::findings(message, catalog, version) + table_values::findings(
        message,
        catalog,
        version,
        overlay,
        document,
    ) + datatypes::findings(message, catalog, version)
}

/// Validates a message of the document at `document`, given as the canonical
/// components of its path, against the catalog and the workspace overrides.
/// Every pass runs, and every finding is reported.
pub fn validate_message(
    document: &Vec<String>,
    message: &Message,
    catalog: &Catalog,
    workspace_specs: &Option<&WorkspaceSpecs>,
) -> (errors: Vec<ValidationError>)
    ensures
        errors.deep_view() == findings(
            document.deep_view(),
            *message,
            *catalog,
            optionality::overlay_of(*workspace_specs),
        ),
{
    let mut errors: Vec<ValidationError> = Vec::new();
    assert(errors.deep_view() =~= Seq::<Finding>::empty());
    if message.segments.len() < 2 {
        push_finding(
            &mut errors,
            ValidationError::new(
                ValidationCode::MessageStructure,
                String::from_str("Message must have at least 2 segments"),
                Span { start: 0, end: 0 },
                Severity::Warning,
            ),
        );
    }
    assert(errors.deep_view() =~= structure_findings(*message));
    let (version, msh_errors) = msh::validate_message(message, catalog);
    extend_findings(&mut errors, msh_errors);
    extend_findings(
        &mut errors,
        optionality::validate_message(document, message, catalog, version, workspace_specs),
    );
    extend_findings(&mut errors, length::validate_message(message, catalog, version));
    extend_findings(
        &mut errors,
        table_values::validate_message(document, message, catalog, version, workspace_specs),
    );
    extend_findings(&mut errors, datatypes::validate_message(message, catalog, version));
    errors
}

/// What is found in two lists put together is found in one of them.
pub proof fn lemma_concat_contains<T>(a: Seq<T>, b: Seq<T>, x: T)
    requires
        (a + b).contains(x),
    ensures
        a.contains(x) || b.contains(x),
{
    lemma_concat_to_set(a, b);
    assert((a + b).to_set().contains(x));
}

/// Every finding of a message is a finding of one of the six passes.
pub proof fn lemma_finding_is_of_a_pass(
    document: Seq<Seq<char>>,
    message: Message,
    catalog: Catalog,
    overlay: Option<Seq<SpecEntryView>>,
    finding: Finding,
)
    requires
        findings(document, message, catalog, overlay).contains(finding),
    ensures
        ({
            let version = msh::resolved_version(message, catalog);
            ||| structure_findings(message).contains(finding)
            ||| msh::findings(message, catalog).contains(finding)
            ||| optionality::findings(message, catalog, version, overlay, document).contains(
                finding,
            )
            ||| length::findings(message, catalog, version).contains(finding)
            ||| table_values::findings(message, catalog, version, overlay, document).contains(
                finding,
            )
            ||| datatypes::findings(message, catalog, version).contains(finding)
        }),
{
    let version = msh::resolved_version(message, catalog);
    let a = structure_findings(message);
    let b = msh::findings(message, catalog);
    let c = optionality::findings(message, catalog, version, overlay, document);
    let d = length::findings(message, catalog, version);
    let e = table_values::findings(message, catalog, version, overlay, document);
    let f = datatypes::findings(message, catalog, version);
    lemma_concat_contains(a + b + c + d + e, f, finding);
    if (a + b + c + d + e).contains(finding) {
        lemma_concat_contains(a + b + c + d, e, finding);
        if (a + b + c + d).contains(finding) {
            lemma_concat_contains(a + b + c, d, finding);
            if (a + b + c).contains(finding) {
                lemma_concat_contains(a + b, c, finding);
                if (a + b).contains(finding) {
                    lemma_concat_contains(a, b, finding);
                }
            }
        }
    }
}

/// The codes of the findings tell the passes apart: a finding on the
/// structure is the one for too few segments, and a finding on a length is
/// one of the length pass.
pub proof fn lemma_codes_tell_passes(
    document: Seq<Seq<char>>,
    message: Message,
    catalog: Catalog,
    overlay: Option<Seq<SpecEntryView>>,
    finding: Finding,
)
    requires
        findings(document, message, catalog, overlay).contains(finding),
    ensures
        finding.code == FindingCode::MessageStructure ==> message.segments@.len() < 2 && finding
            == too_few_segments(),
        finding.code == FindingCode::InvalidLength ==> length::findings(
            message,
            catalog,
            msh::resolved_version(message, catalog),
        ).contains(finding),
        finding.code == FindingCode::InvalidOptionality ==> optionality::findings(
            message,
            catalog,
            msh::resolved_version(message, catalog),
            overlay,
            document,
        ).contains(finding),
        datatypes::is_datatype_code(finding.code) ==> datatypes::findings(
            message,
            catalog,
            msh::resolved_version(message, catalog),
        ).contains(finding),
{
    let version = msh::resolved_version(message, catalog);
    lemma_finding_is_of_a_pass(document, message, catalog, overlay, finding);
    if structure_findings(message).contains(finding) {
        let a = structure_findings(message);
        let i = choose|i: int| 0 <= i < a.len() && a[i] == finding;
        assert(a[0] == finding);
    }
    if msh::findings(message, catalog).contains(finding) {
        let b = msh::findings(message, catalog);
        let i = choose|i: int| 0 <= i < b.len() && b[i] == finding;
        assert(b[0] == finding);
    }
    if optionality::findings(message, catalog, version, overlay, document).contains(finding) {
        optionality::lemma_findings_are_of_fields(
            message,
            catalog,
            version,
            overlay,
            document,
            finding,
        );
    }
    if length::findings(message, catalog, version).contains(finding) {
        length::lemma_findings_are_of_scalar_fields(message, catalog, version, finding);
    }
    if table_values::findings(message, catalog, version, overlay, document).contains(finding) {
        table_values::lemma_findings_are_of_fields(
            message,
            catalog,
            version,
            overlay,
            document,
            finding,
        );
    }
    if datatypes::findings(message, catalog, version).contains(finding) {
        datatypes::lemma_findings_codes(message, catalog, version, finding);
    }
}

/// A message of two or more segments has no finding on its structure, and a
/// message whose header names a version that the catalog knows has no
/// finding of the header pass.
pub proof fn lemma_sound_header_has_no_finding(
    document: Seq<Seq<char>>,
    message: Message,
    catalog: Catalog,
    overlay: Option<Seq<SpecEntryView>>,
    finding: Finding,
)
    requires
        message.segments@.len() >= 2,
        findings(document, message, catalog, overlay).contains(finding),
    ensures
        finding.code != FindingCode::MessageStructure,
        msh::version_field(message) is Some && catalog.knows_version(
            msh::version_field(message)->0.value@,
        ) ==> msh::findings(message, catalog) == Seq::<Finding>::empty(),
{
    lemma_codes_tell_passes(document, message, catalog, overlay, finding);
}

/// A message of fewer than two segments has exactly one finding on its
/// structure: the first of its findings, a warning at the empty range at the
/// start of the text.
pub proof fn lemma_too_few_segments(
    document: Seq<Seq<char>>,
    message: Message,
    catalog: Catalog,
    overlay: Option<Seq<SpecEntryView>>,
)
    requires
        message.segments@.len() < 2,
    ensures
        findings(document, message, catalog, overlay).len() >= 1,
        findings(document, message, catalog, overlay)[0] == too_few_segments(),
        forall|i: int|
            1 <= i < findings(document, message, catalog, overlay).len() ==> (
            #[trigger] findings(document, message, catalog, overlay)[i]).code
                != FindingCode::MessageStructure,
{
    let version = msh::resolved_version(message, catalog);
    let all = findings(document, message, catalog, overlay);
    let rest = msh::findings(message, catalog) + optionality::findings(
        message,
        catalog,
        version,
        overlay,
        document,
    ) + length::findings(message, catalog, version) + table_values::findings(
        message,
        catalog,
        version,
        overlay,
        document,
    ) + datatypes::findings(message, catalog, version);
    assert(all =~= seq![too_few_segments()] + rest);
    assert forall|i: int| 1 <= i < all.len() implies (#[trigger] all[i]).code
        != FindingCode::MessageStructure by {
        let finding = all[i];
        assert(rest[i - 1] == finding);
        let b = msh::findings(message, catalog);
        let c = optionality::findings(message, catalog, version, overlay, document);
        let d = length::findings(message, catalog, version);
        let e = table_values::findings(message, catalog, version, overlay, document);
        let f = datatypes::findings(message, catalog, version);
        assert(rest == b + c + d + e + f);
        lemma_concat_contains(b + c + d + e, f, finding);
        if (b + c + d + e).contains(finding) {
            lemma_concat_contains(b + c + d, e, finding);
            if (b + c + d).contains(finding) {
                lemma_concat_contains(b + c, d, finding);
                if (b + c).contains(finding) {
                    lemma_concat_contains(b, c, finding);
                    if b.contains(finding) {
                        let k = choose|k: int| 0 <= k < b.len() && b[k] == finding;
                        assert(b[0] == finding);
                    } else {
                        optionality::lemma_findings_are_of_fields(
                            message,
                            catalog,
                            version,
                            overlay,
                            document,
                            finding,
                        );
                    }
                } else {
                    length::lemma_findings_are_of_scalar_fields(message, catalog, version, finding);
                }
            } else {
                table_values::lemma_findings_are_of_fields(
                    message,
                    catalog,
                    version,
                    overlay,
                    document,
                    finding,
                );
            }
        } else {
            datatypes::lemma_findings_codes(message, catalog, version, finding);
        }
    }
}

/// In a well-formed message no field whose first repeat has more than one
/// component is reported as too long, however long it is.
pub proof fn lemma_componentized_field_is_never_too_long(
    document: Seq<Seq<char>>,
    message: Message,
    catalog: Catalog,
    overlay: Option<Seq<SpecEntryView>>,
    si: int,
    fi: int,
    finding: Finding,
)
    requires
        message.well_formed(),
        message.has_field(si, fi),
        message.field_at(si, fi).spec_is_componentized(),
        findings(document, message, catalog, overlay).contains(finding),
        finding.code == FindingCode::InvalidLength,
    ensures
        finding.range != message.field_at(si, fi).range,
{
    lemma_codes_tell_passes(document, message, catalog, overlay, finding);
    length::lemma_componentized_field_has_no_finding(
        message,
        catalog,
        msh::resolved_version(message, catalog),
        si,
        fi,
        finding,
    );
}

} // verus!
