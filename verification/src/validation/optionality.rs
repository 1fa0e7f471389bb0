//! The optionality pass: a required field must hold a value in each of its
//! repeats. A field is required where the standard says so or where a
//! workspace override in force says so.

use super::{
    concat_upto, lemma_concat_member, lemma_concat_step, lemma_concat_unites, push_finding, Finding, FindingCode, ValidationCode,
    ValidationError,
};
use crate::diagnostics::Severity;
use crate::message::{
    lemma_field_of_one_repeat, lemma_repeat_without_text, Field, Message, Segment, Separators,
    Span,
};
use crate::spec::{Catalog, FieldOptionality, SegmentDefinition};
use crate::workspace::specs::{field_required, SpecEntryView, WorkspaceSpecs};
use vstd::prelude::*;

verus! {

/// The entries of a workspace store, where there is one.
pub open spec fn overlay_of(workspace_specs: Option<&WorkspaceSpecs>) -> Option<Seq<SpecEntryView>> {
    match workspace_specs {
        Some(specs) => Some(specs@),
        None => None,
    }
}

/// The finding for an empty repeat of a required field.
pub open spec fn required_finding(range: Span) -> Finding {
    Finding {
        code: FindingCode::InvalidOptionality,
        message: "Field is required"@,
        range,
        severity: Severity::Warning,
    }
}

/// The standard marks the field at index `fi` of the segment required.
pub open spec fn standard_requires(definition: SegmentDefinition, fi: int) -> bool {
    0 <= fi < definition.fields@.len() && definition.fields@[fi].optionality
        == FieldOptionality::Required
}

/// A workspace override in force for the document marks the field at index
/// `fi` of the segment required.
pub open spec fn workspace_requires(
    overlay: Option<Seq<SpecEntryView>>,
    document: Seq<Seq<char>>,
    segment: Seq<char>,
    fi: int,
) -> bool {
    match overlay {
        Some(entries) => field_required(entries, document, segment, (fi + 1) as usize),
        None => false,
    }
}

/// The findings of each repeat of `field`.
pub open spec fn repeat_findings(field: Field, required: bool) -> spec_fn(int) -> Seq<Finding> {
    |ri: int|
        if required && field.repeats@[ri].spec_is_empty() {
            seq![required_finding(field.range)]
        } else {
            Seq::empty()
        }
}

/// The findings of a field: one for each empty repeat, where the field is
/// required.
pub open spec fn field_findings(field: Field, required: bool) -> Seq<Finding> {
    concat_upto(field.repeats@.len() as int, repeat_findings(field, required))
}

/// The findings of each field of `segment`, where of the two sources of
/// requirements those count that are switched on.
pub open spec fn fields_findings(
    segment: Segment,
    definition: SegmentDefinition,
    overlay: Option<Seq<SpecEntryView>>,
    document: Seq<Seq<char>>,
    by_standard: bool,
    by_workspace: bool,
) -> spec_fn(int) -> Seq<Finding> {
    |fi: int|
        field_findings(
            segment.fields@[fi],
            (by_workspace && workspace_requires(overlay, document, segment.name@, fi)) || (
            by_standard && standard_requires(definition, fi)),
        )
}

/// The findings of a segment: those of its fields, none where the catalog
/// does not define the segment.
pub open spec fn segment_findings(
    segment: Segment,
    catalog: Catalog,
    version: Seq<char>,
    overlay: Option<Seq<SpecEntryView>>,
    document: Seq<Seq<char>>,
    by_standard: bool,
    by_workspace: bool,
) -> Seq<Finding> {
    match catalog.segment(version, segment.name@) {
        Some(definition) => concat_upto(
            segment.fields@.len() as int,
            fields_findings(segment, definition, overlay, document, by_standard, by_workspace),
        ),
        None => Seq::empty(),
    }
}

/// The findings of each segment of `message`.
pub open spec fn segments_findings(
    message: Message,
    catalog: Catalog,
    version: Seq<char>,
    overlay: Option<Seq<SpecEntryView>>,
    document: Seq<Seq<char>>,
    by_standard: bool,
    by_workspace: bool,
) -> spec_fn(int) -> Seq<Finding> {
    |si: int|
        segment_findings(
            message.segments@[si],
            catalog,
            version,
            overlay,
            document,
            by_standard,
            by_workspace,
        )
}

/// The findings that the pass would have if of the two sources of
/// requirements only those counted that are switched on.
pub open spec fn findings_by(
    message: Message,
    catalog: Catalog,
    version: Seq<char>,
    overlay: Option<Seq<SpecEntryView>>,
    document: Seq<Seq<char>>,
    by_standard: bool,
    by_workspace: bool,
) -> Seq<Finding> {
    concat_upto(
        message.segments@.len() as int,
        segments_findings(message, catalog, version, overlay, document, by_standard, by_workspace),
    )
}

/// The findings of the optionality pass: both sources of requirements count.
pub open spec fn findings(
    message: Message,
    catalog: Catalog,
    version: Seq<char>,
    overlay: Option<Seq<SpecEntryView>>,
    document: Seq<Seq<char>>,
) -> Seq<Finding> {
    findings_by(message, catalog, version, overlay, document, true, true)
}

/// A field that is not required has no finding.
pub proof fn lemma_optional_field_passes(field: Field, n: int)
    ensures
        concat_upto(n, repeat_findings(field, false)) == Seq::<Finding>::empty(),
    decreases n,
{
    if n > 0 {
        lemma_optional_field_passes(field, n - 1);
        assert(concat_upto(n, repeat_findings(field, false)) =~= Seq::<Finding>::empty());
    }
}

/// The findings of a field are those it has by the standard together with
/// those it has by the workspace: either source alone makes a field required,
/// and neither takes a requirement of the other away.
pub proof fn lemma_requirements_unite(field: Field, standard: bool, workspace: bool)
    ensures
        field_findings(field, workspace || standard).to_set() == field_findings(
            field,
            standard,
        ).to_set().union(field_findings(field, workspace).to_set()),
        !standard && !workspace ==> field_findings(field, workspace || standard) == Seq::<
            Finding,
        >::empty(),
        standard ==> field_findings(field, workspace || standard) == field_findings(field, true),
        workspace ==> field_findings(field, workspace || standard) == field_findings(field, true),
{
    lemma_optional_field_passes(field, field.repeats@.len() as int);
    assert(field_findings(field, workspace || standard).to_set() =~= field_findings(
        field,
        standard,
    ).to_set().union(field_findings(field, workspace).to_set()));
}

/// The findings of the pass are those that the standard alone would give
/// together with those that the workspace alone would give: the union of
/// the two, not what they have in common.
pub proof fn lemma_pass_unites_requirements(
    message: Message,
    catalog: Catalog,
    version: Seq<char>,
    overlay: Option<Seq<SpecEntryView>>,
    document: Seq<Seq<char>>,
)
    ensures
        findings(message, catalog, version, overlay, document).to_set() == findings_by(
            message,
            catalog,
            version,
            overlay,
            document,
            true,
            false,
        ).to_set().union(
            findings_by(message, catalog, version, overlay, document, false, true).to_set(),
        ),
{
    let both = segments_findings(message, catalog, version, overlay, document, true, true);
    let standard = segments_findings(message, catalog, version, overlay, document, true, false);
    let workspace = segments_findings(message, catalog, version, overlay, document, false, true);
    assert forall|si: int| 0 <= si < message.segments@.len() implies (#[trigger] both(
        si,
    )).to_set()
        == standard(si).to_set().union(workspace(si).to_set()) by {
        let segment = message.segments@[si];
        match catalog.segment(version, segment.name@) {
            Some(definition) => {
                let f = fields_findings(segment, definition, overlay, document, true, true);
                let g = fields_findings(segment, definition, overlay, document, true, false);
                let h = fields_findings(segment, definition, overlay, document, false, true);
                assert forall|fi: int| 0 <= fi < segment.fields@.len() implies (#[trigger] f(
                    fi,
                )).to_set()
                    == g(fi).to_set().union(h(fi).to_set()) by {
                    lemma_requirements_unite(
                        segment.fields@[fi],
                        standard_requires(definition, fi),
                        workspace_requires(overlay, document, segment.name@, fi),
                    );
                }
                lemma_concat_unites(segment.fields@.len() as int, f, g, h);
            },
            None => {
                assert(both(si).to_set() =~= standard(si).to_set().union(workspace(si).to_set()));
            },
        }
    }
    lemma_concat_unites(message.segments@.len() as int, both, standard, workspace);
}

/// A well-formed field without text that is required has exactly one
/// finding, at the range of the field.
pub proof fn lemma_empty_required_field(field: Field, separators: Separators)
    requires
        field.well_formed(separators),
        field.value@.len() == 0,
    ensures
        field_findings(field, true) == seq![required_finding(field.range)],
{
    lemma_field_of_one_repeat(field, separators);
    lemma_repeat_without_text(field.repeats@[0], separators);
    let f = repeat_findings(field, true);
    assert(concat_upto(1, f) == concat_upto(0, f) + f(0));
    assert(field_findings(field, true) =~= seq![required_finding(field.range)]);
}

/// Every finding of the pass is the finding for a required field, at the
/// range of a field of the message.
pub proof fn lemma_findings_are_of_fields(
    message: Message,
    catalog: Catalog,
    version: Seq<char>,
    overlay: Option<Seq<SpecEntryView>>,
    document: Seq<Seq<char>>,
    finding: Finding,
)
    requires
        findings(message, catalog, version, overlay, document).contains(finding),
    ensures
        finding.code == FindingCode::InvalidOptionality,
        exists|si: int, fi: int|
            message.has_field(si, fi) && finding == required_finding(
                (#[trigger] message.field_at(si, fi)).range,
            ),
{
    let f = segments_findings(message, catalog, version, overlay, document, true, true);
    lemma_concat_member(message.segments@.len() as int, f, finding);
    let si = choose|si: int| 0 <= si < message.segments@.len() && (#[trigger] f(si)).contains(
        finding,
    );
    let segment = message.segments@[si];
    let definition = catalog.segment(version, segment.name@)->0;
    let g = fields_findings(segment, definition, overlay, document, true, true);
    lemma_concat_member(segment.fields@.len() as int, g, finding);
    let fi = choose|fi: int| 0 <= fi < segment.fields@.len() && (#[trigger] g(fi)).contains(
        finding,
    );
    let field = segment.fields@[fi];
    let required = workspace_requires(overlay, document, segment.name@, fi) || standard_requires(
        definition,
        fi,
    );
    let h = repeat_findings(field, required);
    lemma_concat_member(field.repeats@.len() as int, h, finding);
    let ri = choose|ri: int| 0 <= ri < field.repeats@.len() && (#[trigger] h(ri)).contains(finding);
    assert(h(ri) == seq![required_finding(field.range)]);
    assert(seq![required_finding(field.range)][0] == required_finding(field.range));
    assert(message.has_field(si, fi) && finding == required_finding(
        message.field_at(si, fi).range,
    ));
}

fn check_field(field: &Field, required: bool, errors: &mut Vec<ValidationError>)
    ensures
        final(errors).deep_view() == old(errors).deep_view() + field_findings(*field, required),
{
    let ghost start = errors.deep_view();
    let mut ri: usize = 0;
    assert(errors.deep_view() =~= start + concat_upto(0, repeat_findings(*field, required)));
    while ri < field.repeats.len()
        invariant
            ri <= field.repeats@.len(),
            errors.deep_view() == start + concat_upto(ri as int, repeat_findings(*field, required)),
        decreases field.repeats@.len() - ri,
    {
        let ghost before = errors.deep_view();
        if required && field.repeats[ri].is_empty() {
            push_finding(
                errors,
                ValidationError::new(
                    ValidationCode::InvalidOptionality,
                    String::from_str("Field is required"),
                    field.range,
                    Severity::Warning,
                ),
            );
        }
        proof {
            lemma_concat_step(start, ri as int, repeat_findings(*field, required));
            assert(errors.deep_view() =~= before + repeat_findings(*field, required)(ri as int));
        }
        ri += 1;
    }
}

fn check_segment(
    document: &Vec<String>,
    segment: &Segment,
    catalog: &Catalog,
    version: &str,
    workspace_specs: &Option<&WorkspaceSpecs>,
    errors: &mut Vec<ValidationError>,
)
    ensures
        final(errors).deep_view() == old(errors).deep_view() + segment_findings(
            *segment,
            *catalog,
            version@,
            overlay_of(*workspace_specs),
            document.deep_view(),
            true,
            true,
        ),
{
    let ghost start = errors.deep_view();
    let ghost overlay = overlay_of(*workspace_specs);
    match catalog.get_segment(version, segment.name.as_str()) {
        Some(definition) => {
            let ghost f = fields_findings(
                *segment,
                *definition,
                overlay,
                document.deep_view(),
                true,
                true,
            );
            let mut fi: usize = 0;
            assert(errors.deep_view() =~= start + concat_upto(0, f));
            while fi < segment.fields.len()
                invariant
                    fi <= segment.fields@.len(),
                    overlay == overlay_of(*workspace_specs),
                    f == fields_findings(
                *segment,
                *definition,
                overlay,
                document.deep_view(),
                true,
                true,
            ),
                    errors.deep_view() == start + concat_upto(fi as int, f),
                decreases segment.fields@.len() - fi,
            {
                let by_workspace = match workspace_specs {
                    Some(specs) => specs.is_field_required(
                        document,
                        segment.name.as_str(),
                        fi + 1,
                    ),
                    None => false,
                };
                let by_standard = fi < definition.fields.len() && match definition.fields[fi].optionality {
                    FieldOptionality::Required => true,
                    _ => false,
                };
                check_field(&segment.fields[fi], by_workspace || by_standard, errors);
                proof {
                    lemma_concat_step(start, fi as int, f);
                }
                fi += 1;
            }
        },
        None => {
            assert(errors.deep_view() =~= start + Seq::<Finding>::empty());
        },
    }
}

/// Reports each empty repeat of a field that the standard or a workspace
/// override in force for the document requires.
pub fn validate_message(
    document: &Vec<String>,
    message: &Message,
    catalog: &Catalog,
    version: &str,
    workspace_specs: &Option<&WorkspaceSpecs>,
) -> (errors: Vec<ValidationError>)
    ensures
        errors.deep_view() == findings(
            *message,
            *catalog,
            version@,
            overlay_of(*workspace_specs),
            document.deep_view(),
        ),
{
    let mut errors: Vec<ValidationError> = Vec::new();
    let ghost f = segments_findings(
        *message,
        *catalog,
        version@,
        overlay_of(*workspace_specs),
        document.deep_view(),
        true,
        true,
    );
    assert(errors.deep_view() =~= concat_upto(0, f));
    let mut si: usize = 0;
    while si < message.segments.len()
        invariant
            si <= message.segments@.len(),
            f == segments_findings(
                *message,
                *catalog,
                version@,
                overlay_of(*workspace_specs),
                document.deep_view(),
                true,
                true,
            ),
            errors.deep_view() == concat_upto(si as int, f),
        decreases message.segments@.len() - si,
    {
        check_segment(document, &message.segments[si], catalog, version, workspace_specs, &mut errors);
        si += 1;
    }
    errors
}

} // verus!
