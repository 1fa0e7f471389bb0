//! The length pass: the raw value of a scalar field must not be longer than
//! the standard allows. A field made of components is exempt.

use super::{
    concat_upto, lemma_concat_member, lemma_concat_step, push_finding, Finding, FindingCode, ValidationCode,
    ValidationError,
};
use crate::diagnostics::Severity;
use crate::message::{lemma_field_ranges_differ, Field, Message, Segment};
use crate::spec::{Catalog, SegmentDefinition};
use crate::text::{decimal, decimal_digits};
use vstd::prelude::*;

verus! {

/// The finding for a field that is longer than `max` bytes.
pub open spec fn too_long(field: Field, max: usize) -> Finding {
    Finding {
        code: FindingCode::InvalidLength,
        message: "Field is too long (max: "@ + decimal_digits(max as nat) + ")"@,
        range: field.range,
        severity: Severity::Info,
    }
}

/// The greatest length that the standard declares for the field at index
/// `fi` of a segment.
pub open spec fn max_length(definition: SegmentDefinition, fi: int) -> Option<usize> {
    if 0 <= fi < definition.fields@.len() {
        definition.fields@[fi].max_length
    } else {
        None
    }
}

/// The findings of a field: none for a field whose first repeat has more than
/// one component, else one where the raw value is longer than `max`.
pub open spec fn field_findings(field: Field, max: Option<usize>) -> Seq<Finding> {
    if field.spec_is_componentized() {
        Seq::empty()
    } else {
        match max {
            Some(m) => if vstd::utf8::encode_utf8(field.value@).len() > m {
                seq![too_long(field, m)]
            } else {
                Seq::empty()
            },
            None => Seq::empty(),
        }
    }
}

/// The findings of each field of `segment`.
pub open spec fn fields_findings(segment: Segment, definition: SegmentDefinition) -> spec_fn(
    int,
) -> Seq<Finding> {
    |fi: int| field_findings(segment.fields@[fi], max_length(definition, fi))
}

/// The findings of a segment: those of its fields, none where the catalog
/// does not define the segment.
pub open spec fn segment_findings(segment: Segment, catalog: Catalog, version: Seq<char>) -> Seq<
    Finding,
> {
    match catalog.segment(version, segment.name@) {
        Some(definition) => concat_upto(
            segment.fields@.len() as int,
            fields_findings(segment, definition),
        ),
        None => Seq::empty(),
    }
}

/// The findings of each segment of `message`.
pub open spec fn segments_findings(message: Message, catalog: Catalog, version: Seq<char>)
    -> spec_fn(int) -> Seq<Finding> {
    |si: int| segment_findings(message.segments@[si], catalog, version)
}

/// The findings of the length pass.
pub open spec fn findings(message: Message, catalog: Catalog, version: Seq<char>) -> Seq<Finding> {
    concat_upto(message.segments@.len() as int, segments_findings(message, catalog, version))
}

/// A field whose first repeat has more than one component has no finding,
/// however long its raw value and whatever length the standard declares.
pub proof fn lemma_componentized_field_is_exempt(field: Field, max: Option<usize>)
    requires
        field.repeats@.len() > 0,
        field.repeats@[0].components@.len() > 1,
    ensures
        field_findings(field, max) == Seq::<Finding>::empty(),
{
}

/// The finding is one of the field at index `fi` of the segment at index
/// `si`: the field is not made of components, and the finding is at its
/// range.
pub open spec fn is_finding_of(message: Message, si: int, fi: int, finding: Finding) -> bool {
    &&& 0 <= si < message.segments@.len()
    &&& 0 <= fi < message.segments@[si].fields@.len()
    &&& !message.segments@[si].fields@[fi].spec_is_componentized()
    &&& finding.range == message.segments@[si].fields@[fi].range
    &&& finding.code == FindingCode::InvalidLength
}

/// Every finding of the pass is one of a field that is not made of
/// components: the pass never reports a field whose first repeat has more
/// than one component.
pub proof fn lemma_findings_are_of_scalar_fields(
    message: Message,
    catalog: Catalog,
    version: Seq<char>,
    finding: Finding,
)
    requires
        findings(message, catalog, version).contains(finding),
    ensures
        exists|si: int, fi: int| is_finding_of(message, si, fi, finding),
{
    let f = segments_findings(message, catalog, version);
    lemma_concat_member(message.segments@.len() as int, f, finding);
    let si = choose|si: int| 0 <= si < message.segments@.len() && (#[trigger] f(si)).contains(
        finding,
    );
    let segment = message.segments@[si];
    let definition = catalog.segment(version, segment.name@)->0;
    let g = fields_findings(segment, definition);
    lemma_concat_member(segment.fields@.len() as int, g, finding);
    let fi = choose|fi: int| 0 <= fi < segment.fields@.len() && (#[trigger] g(fi)).contains(
        finding,
    );
    assert(is_finding_of(message, si, fi, finding));
}

/// In a well-formed message no finding of the pass is at the range of a field
/// whose first repeat has more than one component, however long the field is.
pub proof fn lemma_componentized_field_has_no_finding(
    message: Message,
    catalog: Catalog,
    version: Seq<char>,
    si: int,
    fi: int,
    finding: Finding,
)
    requires
        message.well_formed(),
        message.has_field(si, fi),
        message.field_at(si, fi).spec_is_componentized(),
        findings(message, catalog, version).contains(finding),
    ensures
        finding.range != message.field_at(si, fi).range,
{
    lemma_findings_are_of_scalar_fields(message, catalog, version, finding);
    let (sj, fj) = choose|sj: int, fj: int| is_finding_of(message, sj, fj, finding);
    if sj != si || fj != fi {
        lemma_field_ranges_differ(message, si, fi, sj, fj);
    }
}

fn check_field(field: &Field, max: Option<usize>, errors: &mut Vec<ValidationError>)
    ensures
        final(errors).deep_view() == old(errors).deep_view() + field_findings(*field, max),
{
    let ghost start = errors.deep_view();
    if field.is_componentized() {
        assert(errors.deep_view() =~= start + Seq::<Finding>::empty());
        return ;
    }
    match max {
        Some(m) => {
            if field.value.as_str().as_bytes().len() > m {
                let mut text = String::from_str("Field is too long (max: ");
                text.append(decimal(m).as_str());
                text.append(")");
                push_finding(
                    errors,
                    ValidationError::new(
                        ValidationCode::InvalidLength,
                        text,
                        field.range,
                        Severity::Info,
                    ),
                );
                assert(errors.deep_view() =~= start + seq![too_long(*field, m)]);
            } else {
                assert(errors.deep_view() =~= start + Seq::<Finding>::empty());
            }
        },
        None => {
            assert(errors.deep_view() =~= start + Seq::<Finding>::empty());
        },
    }
}

fn check_segment(
    segment: &Segment,
    catalog: &Catalog,
    version: &str,
    errors: &mut Vec<ValidationError>,
)
    ensures
        final(errors).deep_view() == old(errors).deep_view() + segment_findings(
            *segment,
            *catalog,
            version@,
        ),
{
    let ghost start = errors.deep_view();
    match catalog.get_segment(version, segment.name.as_str()) {
        Some(definition) => {
            let ghost f = fields_findings(*segment, *definition);
            let mut fi: usize = 0;
            assert(errors.deep_view() =~= start + concat_upto(0, f));
            while fi < segment.fields.len()
                invariant
                    fi <= segment.fields@.len(),
                    f == fields_findings(*segment, *definition),
                    errors.deep_view() == start + concat_upto(fi as int, f),
                decreases segment.fields@.len() - fi,
            {
                let max = if fi < definition.fields.len() {
                    definition.fields[fi].max_length
                } else {
                    None
                };
                check_field(&segment.fields[fi], max, errors);
                proof {
                    lemma_concat_step(start, fi as int, f);
                }
                fi += 1;
            }
        },
        None => {
            assert(errors.deep_view() =~= start + Seq::<Finding>::empty());
        },
    }
}

/// Reports each scalar field whose raw value is longer than the standard
/// allows.
pub fn validate_message(message: &Message, catalog: &Catalog, version: &str) -> (errors: Vec<
    ValidationError,
>)
    ensures
        errors.deep_view() == findings(*message, *catalog, version@),
{
    let mut errors: Vec<ValidationError> = Vec::new();
    let ghost f = segments_findings(*message, *catalog, version@);
    assert(errors.deep_view() =~= concat_upto(0, f));
    let mut si: usize = 0;
    while si < message.segments.len()
        invariant
            si <= message.segments@.len(),
            f == segments_findings(*message, *catalog, version@),
            errors.deep_view() == concat_upto(si as int, f),
        decreases message.segments@.len() - si,
    {
        check_segment(&message.segments[si], catalog, version, &mut errors);
        si += 1;
    }
    errors
}

} // verus!
