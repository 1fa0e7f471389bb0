//! The datatype pass: a value of a numeric datatype must be a number, a value
//! of a timestamp, date or time datatype must parse as one. The components of a
//! value of any other datatype are held to their own datatypes.

use super::{
    concat_upto, lemma_concat_member, lemma_concat_step, push_finding, Finding, FindingCode, ValidationCode,
    ValidationError,
};
use crate::datetime::{
    date_error, date_parse_error, is_date_text, time_error, time_parse_error, timestamp_error,
    timestamp_parse_error,
};
use crate::diagnostics::Severity;
use crate::lookup::referent;
use crate::message::{lemma_plain_repeat, Field, Message, Repeat, Segment, Separators, Span};
use crate::numeric::{is_number, is_real_number, lemma_digits_and_a_letter_are_no_number};
use crate::spec::{
    datatype_is_timestamp, is_timestamp_datatype, Catalog, DatatypeDefinition, FieldDefinition,
    SegmentDefinition,
};
use crate::text::str_eq;
use vstd::prelude::*;

verus! {

/// The finding for a value that is no number.
pub open spec fn not_a_number(value: Seq<char>, range: Span) -> Finding {
    Finding {
        code: FindingCode::InvalidDataType("not a number"@),
        message: "Invalid numeric value: "@ + value,
        range,
        severity: Severity::Warning,
    }
}

/// The finding for a value that was refused as a timestamp with `error`.
pub open spec fn invalid_timestamp(error: Seq<char>, range: Span) -> Finding {
    Finding {
        code: FindingCode::InvalidTimestamp,
        message: "Invalid timestamp: "@ + error,
        range,
        severity: Severity::Warning,
    }
}

/// The finding for a value that was refused as a date with `error`.
pub open spec fn invalid_date(error: Seq<char>, range: Span) -> Finding {
    Finding {
        code: FindingCode::InvalidTimestamp,
        message: "Invalid date: "@ + error,
        range,
        severity: Severity::Warning,
    }
}

/// The finding for a value that was refused as a time with `error`.
pub open spec fn invalid_time(error: Seq<char>, range: Span) -> Finding {
    Finding {
        code: FindingCode::InvalidTimestamp,
        message: "Invalid time: "@ + error,
        range,
        severity: Severity::Warning,
    }
}

/// The findings of a value of a numeric datatype.
pub open spec fn numeric_findings(value: Seq<char>, range: Span) -> Seq<Finding> {
    if is_real_number(vstd::utf8::encode_utf8(value)) {
        Seq::empty()
    } else {
        seq![not_a_number(value, range)]
    }
}

/// The findings of a value whose parsing as a timestamp ended with `outcome`.
pub open spec fn timestamp_outcome_findings(outcome: Option<Seq<char>>, range: Span) -> Seq<
    Finding,
> {
    match outcome {
        Some(error) => seq![invalid_timestamp(error, range)],
        None => Seq::empty(),
    }
}

/// The findings of a value whose parsing as a date ended with `outcome`.
pub open spec fn date_outcome_findings(outcome: Option<Seq<char>>, range: Span) -> Seq<Finding> {
    match outcome {
        Some(error) => seq![invalid_date(error, range)],
        None => Seq::empty(),
    }
}

/// The findings of a value whose parsing as a time ended with `outcome`.
pub open spec fn time_outcome_findings(outcome: Option<Seq<char>>, range: Span) -> Seq<Finding> {
    match outcome {
        Some(error) => seq![invalid_time(error, range)],
        None => Seq::empty(),
    }
}

/// The findings of a value of a timestamp datatype.
pub open spec fn timestamp_findings(value: Seq<char>, range: Span) -> Seq<Finding> {
    timestamp_outcome_findings(timestamp_parse_error(value), range)
}

/// The findings of a value of the date datatype.
pub open spec fn date_findings(value: Seq<char>, range: Span) -> Seq<Finding> {
    date_outcome_findings(date_parse_error(value), range)
}

/// The findings of a value of the time datatype.
pub open spec fn time_findings(value: Seq<char>, range: Span) -> Seq<Finding> {
    time_outcome_findings(time_parse_error(value), range)
}

/// The findings that a scalar datatype asks for, `None` for any other
/// datatype. A number is looked for in `numeric`, a timestamp, date or time
/// in `temporal`; each is a value with its range.
pub open spec fn scalar_findings(
    datatype: Seq<char>,
    numeric: (Seq<char>, Span),
    temporal: (Seq<char>, Span),
) -> Option<Seq<Finding>> {
    if datatype == "NM"@ {
        Some(numeric_findings(numeric.0, numeric.1))
    } else if is_timestamp_datatype(datatype) {
        Some(timestamp_findings(temporal.0, temporal.1))
    } else if datatype == "DT"@ {
        Some(date_findings(temporal.0, temporal.1))
    } else if datatype == "TM"@ {
        Some(time_findings(temporal.0, temporal.1))
    } else {
        None
    }
}

/// The findings of each component of `repeat`, the components being defined
/// by `datatype`. A number is looked for in the component and reported at the
/// component; a timestamp or date is looked for in the whole repeat and
/// reported at the repeat.
pub open spec fn component_findings(repeat: Repeat, datatype: Option<DatatypeDefinition>)
    -> spec_fn(int) -> Seq<Finding> {
    |ci: int|
        {
            let component = repeat.components@[ci];
            if component.spec_is_empty() {
                Seq::empty()
            } else {
                match datatype {
                    Some(d) => if 0 <= ci < d.subfields@.len() {
                        match scalar_findings(
                            d.subfields@[ci].datatype@,
                            (component.value@, component.range),
                            (repeat.value@, repeat.range),
                        ) {
                            Some(found) => found,
                            None => Seq::empty(),
                        }
                    } else {
                        Seq::empty()
                    },
                    None => Seq::empty(),
                }
            }
        }
}

/// The findings of the components of a repeat.
pub open spec fn components_findings(repeat: Repeat, datatype: Option<DatatypeDefinition>) -> Seq<
    Finding,
> {
    concat_upto(repeat.components@.len() as int, component_findings(repeat, datatype))
}

/// The findings of a repeat of a field with the given definition: none for an
/// empty repeat, those of its scalar datatype, or those of its components.
pub open spec fn repeat_findings(
    repeat: Repeat,
    catalog: Catalog,
    version: Seq<char>,
    definition: Option<FieldDefinition>,
) -> Seq<Finding> {
    if repeat.spec_is_empty() {
        Seq::empty()
    } else {
        match definition {
            Some(d) => match scalar_findings(
                d.datatype@,
                (repeat.value@, repeat.range),
                (repeat.value@, repeat.range),
            ) {
                Some(found) => found,
                None => components_findings(repeat, catalog.datatype(version, d.datatype@)),
            },
            None => Seq::empty(),
        }
    }
}

/// The findings of each repeat of `field`.
pub open spec fn repeats_findings(
    field: Field,
    catalog: Catalog,
    version: Seq<char>,
    definition: Option<FieldDefinition>,
) -> spec_fn(int) -> Seq<Finding> {
    |ri: int| repeat_findings(field.repeats@[ri], catalog, version, definition)
}

/// The findings of a field: none for an empty field, else those of its
/// repeats.
pub open spec fn field_findings(
    field: Field,
    catalog: Catalog,
    version: Seq<char>,
    definition: Option<FieldDefinition>,
) -> Seq<Finding> {
    if field.spec_is_empty() {
        Seq::empty()
    } else {
        concat_upto(
            field.repeats@.len() as int,
            repeats_findings(field, catalog, version, definition),
        )
    }
}

/// The definition of the field at index `fi` of a segment.
pub open spec fn field_definition(definition: SegmentDefinition, fi: int) -> Option<
    FieldDefinition,
> {
    if 0 <= fi < definition.fields@.len() {
        Some(definition.fields@[fi])
    } else {
        None
    }
}

/// The findings of each field of `segment`.
pub open spec fn fields_findings(
    segment: Segment,
    catalog: Catalog,
    version: Seq<char>,
    definition: SegmentDefinition,
) -> spec_fn(int) -> Seq<Finding> {
    |fi: int|
        field_findings(segment.fields@[fi], catalog, version, field_definition(definition, fi))
}

/// The findings of a segment: those of its fields, none where the catalog
/// does not define the segment.
pub open spec fn segment_findings(segment: Segment, catalog: Catalog, version: Seq<char>) -> Seq<
    Finding,
> {
    match catalog.segment(version, segment.name@) {
        Some(definition) => concat_upto(
            segment.fields@.len() as int,
            fields_findings(segment, catalog, version, definition),
        ),
        None => Seq::empty(),
    }
}

/// The findings of each segment of `message`.
pub open spec fn segments_findings(message: Message, catalog: Catalog, version: Seq<char>)
    -> spec_fn(int) -> Seq<Finding> {
    |si: int| segment_findings(message.segments@[si], catalog, version)
}

/// The findings of the datatype pass.
pub open spec fn findings(message: Message, catalog: Catalog, version: Seq<char>) -> Seq<Finding> {
    concat_upto(message.segments@.len() as int, segments_findings(message, catalog, version))
}

/// The codes of the findings of this pass.
pub open spec fn is_datatype_code(code: FindingCode) -> bool {
    code is InvalidDataType || code is InvalidTimestamp
}

/// Every finding that a scalar datatype asks for has a code of this pass.
pub proof fn lemma_scalar_findings_codes(
    datatype: Seq<char>,
    numeric: (Seq<char>, Span),
    temporal: (Seq<char>, Span),
    finding: Finding,
)
    requires
        scalar_findings(datatype, numeric, temporal) is Some,
        scalar_findings(datatype, numeric, temporal)->0.contains(finding),
    ensures
        is_datatype_code(finding.code),
        finding.severity == Severity::Warning,
{
    let found = scalar_findings(datatype, numeric, temporal)->0;
    let i = choose|i: int| 0 <= i < found.len() && found[i] == finding;
    assert(found.len() == 1);
    assert(found[0] == finding);
}

/// Every finding of the pass has a code of this pass, and is a warning.
pub proof fn lemma_findings_codes(
    message: Message,
    catalog: Catalog,
    version: Seq<char>,
    finding: Finding,
)
    requires
        findings(message, catalog, version).contains(finding),
    ensures
        is_datatype_code(finding.code),
        finding.severity == Severity::Warning,
{
    let f = segments_findings(message, catalog, version);
    lemma_concat_member(message.segments@.len() as int, f, finding);
    let si = choose|si: int| 0 <= si < message.segments@.len() && (#[trigger] f(si)).contains(
        finding,
    );
    let segment = message.segments@[si];
    let definition = catalog.segment(version, segment.name@)->0;
    let g = fields_findings(segment, catalog, version, definition);
    lemma_concat_member(segment.fields@.len() as int, g, finding);
    let fi = choose|fi: int| 0 <= fi < segment.fields@.len() && (#[trigger] g(fi)).contains(
        finding,
    );
    let field = segment.fields@[fi];
    let h = repeats_findings(field, catalog, version, field_definition(definition, fi));
    lemma_concat_member(field.repeats@.len() as int, h, finding);
    let ri = choose|ri: int| 0 <= ri < field.repeats@.len() && (#[trigger] h(ri)).contains(finding);
    let repeat = field.repeats@[ri];
    let d = field_definition(definition, fi)->0;
    let whole = (repeat.value@, repeat.range);
    if scalar_findings(d.datatype@, whole, whole) is Some {
        lemma_scalar_findings_codes(d.datatype@, whole, whole, finding);
    } else {
        let datatype = catalog.datatype(version, d.datatype@);
        let k = component_findings(repeat, datatype);
        lemma_concat_member(repeat.components@.len() as int, k, finding);
        let ci = choose|ci: int|
            0 <= ci < repeat.components@.len() && (#[trigger] k(ci)).contains(finding);
        let component = repeat.components@[ci];
        lemma_scalar_findings_codes(
            datatype->0.subfields@[ci].datatype@,
            (component.value@, component.range),
            whole,
            finding,
        );
    }
}

/// The findings of a well-formed repeat of a numeric field whose text holds
/// no delimiter: none where the text is a number or there is no text, else
/// the one finding that the text is no number, at the range of the repeat.
pub proof fn lemma_numeric_repeat(
    repeat: Repeat,
    separators: Separators,
    catalog: Catalog,
    version: Seq<char>,
    definition: FieldDefinition,
)
    requires
        repeat.well_formed(separators),
        repeat.is_plain(separators),
        definition.datatype@ == "NM"@,
    ensures
        repeat_findings(repeat, catalog, version, Some(definition)) == if repeat.value@.len() == 0
            || is_real_number(vstd::utf8::encode_utf8(repeat.value@)) {
            Seq::<Finding>::empty()
        } else {
            seq![not_a_number(repeat.value@, repeat.range)]
        },
{
    lemma_plain_repeat(repeat, separators);
    if repeat.value@.len() == 0 {
        crate::message::lemma_repeat_without_text(repeat, separators);
    }
}

/// A well-formed repeat of a numeric field that holds digits with a letter
/// behind them has exactly one finding: that its text is no number, at the
/// range of the repeat.
pub proof fn lemma_digits_and_a_letter_are_reported(
    repeat: Repeat,
    separators: Separators,
    catalog: Catalog,
    version: Seq<char>,
    definition: FieldDefinition,
)
    requires
        repeat.well_formed(separators),
        repeat.is_plain(separators),
        repeat.value@ == "12a"@,
        definition.datatype@ == "NM"@,
    ensures
        repeat_findings(repeat, catalog, version, Some(definition)) == seq![
            not_a_number("12a"@, repeat.range),
        ],
{
    reveal_strlit("12a");
    lemma_digits_and_a_letter_are_no_number();
    lemma_numeric_repeat(repeat, separators, catalog, version, definition);
}

/// Reports a value that is no number.
pub fn check_numeric(value: &str, range: Span, errors: &mut Vec<ValidationError>)
    ensures
        final(errors).deep_view() == old(errors).deep_view() + numeric_findings(value@, range),
{
    let ghost start = errors.deep_view();
    if !is_number(value) {
        let mut text = String::from_str("Invalid numeric value: ");
        text.append(value);
        push_finding(
            errors,
            ValidationError::new(
                ValidationCode::InvalidDataType("not a number"),
                text,
                range,
                Severity::Warning,
            ),
        );
        assert(errors.deep_view() =~= start + seq![not_a_number(value@, range)]);
    } else {
        assert(errors.deep_view() =~= start + Seq::<Finding>::empty());
    }
}

/// Reports the error, if there is one, with which a value was refused as a
/// timestamp.
pub fn report_timestamp(outcome: Option<String>, range: Span, errors: &mut Vec<ValidationError>)
    ensures
        final(errors).deep_view() == old(errors).deep_view() + timestamp_outcome_findings(
            outcome.deep_view(),
            range,
        ),
{
    let ghost start = errors.deep_view();
    match outcome {
        Some(error) => {
            let mut text = String::from_str("Invalid timestamp: ");
            text.append(error.as_str());
            push_finding(
                errors,
                ValidationError::new(
                    ValidationCode::InvalidTimestamp,
                    text,
                    range,
                    Severity::Warning,
                ),
            );
            assert(errors.deep_view() =~= start + seq![invalid_timestamp(error@, range)]);
        },
        None => {
            assert(errors.deep_view() =~= start + Seq::<Finding>::empty());
        },
    }
}

/// Reports the error, if there is one, with which a value was refused as a
/// date.
pub fn report_date(outcome: Option<String>, range: Span, errors: &mut Vec<ValidationError>)
    ensures
        final(errors).deep_view() == old(errors).deep_view() + date_outcome_findings(
            outcome.deep_view(),
            range,
        ),
{
    let ghost start = errors.deep_view();
    match outcome {
        Some(error) => {
            let mut text = String::from_str("Invalid date: ");
            text.append(error.as_str());
            push_finding(
                errors,
                ValidationError::new(
                    ValidationCode::InvalidTimestamp,
                    text,
                    range,
                    Severity::Warning,
                ),
            );
            assert(errors.deep_view() =~= start + seq![invalid_date(error@, range)]);
        },
        None => {
            assert(errors.deep_view() =~= start + Seq::<Finding>::empty());
        },
    }
}

/// Reports the error, if there is one, with which a value was refused as a
/// time.
pub fn report_time(outcome: Option<String>, range: Span, errors: &mut Vec<ValidationError>)
    ensures
        final(errors).deep_view() == old(errors).deep_view() + time_outcome_findings(
            outcome.deep_view(),
            range,
        ),
{
    let ghost start = errors.deep_view();
    match outcome {
        Some(error) => {
            let mut text = String::from_str("Invalid time: ");
            text.append(error.as_str());
            push_finding(
                errors,
                ValidationError::new(
                    ValidationCode::InvalidTimestamp,
                    text,
                    range,
                    Severity::Warning,
                ),
            );
            assert(errors.deep_view() =~= start + seq![invalid_time(error@, range)]);
        },
        None => {
            assert(errors.deep_view() =~= start + Seq::<Finding>::empty());
        },
    }
}

/// Reports a value that does not parse as a timestamp.
pub fn check_timestamp(value: &str, range: Span, errors: &mut Vec<ValidationError>)
    ensures
        final(errors).deep_view() == old(errors).deep_view() + timestamp_findings(value@, range),
{
    report_timestamp(timestamp_error(value), range, errors);
}

/// Reports a value that is not written as a date: one that is not four, six
/// or eight digits.
pub fn check_date(value: &str, range: Span, errors: &mut Vec<ValidationError>)
    ensures
        final(errors).deep_view() == old(errors).deep_view() + date_findings(value@, range),
        date_findings(value@, range).len() == if is_date_text(value@) {
            0nat
        } else {
            1nat
        },
{
    report_date(date_error(value), range, errors);
}

/// Reports a value that does not parse as a time.
pub fn check_time(value: &str, range: Span, errors: &mut Vec<ValidationError>)
    ensures
        final(errors).deep_view() == old(errors).deep_view() + time_findings(value@, range),
{
    report_time(time_error(value), range, errors);
}

/// Applies the check of a scalar datatype; tells whether the datatype is one.
fn check_scalar(
    datatype: &str,
    numeric: &str,
    numeric_range: Span,
    temporal: &str,
    temporal_range: Span,
    errors: &mut Vec<ValidationError>,
) -> (scalar: bool)
    ensures
        scalar == (scalar_findings(
            datatype@,
            (numeric@, numeric_range),
            (temporal@, temporal_range),
        ) is Some),
        final(errors).deep_view() == old(errors).deep_view() + match scalar_findings(
            datatype@,
            (numeric@, numeric_range),
            (temporal@, temporal_range),
        ) {
            Some(found) => found,
            None => Seq::empty(),
        },
{
    let ghost start = errors.deep_view();
    if str_eq(datatype, "NM") {
        check_numeric(numeric, numeric_range, errors);
        true
    } else if datatype_is_timestamp(datatype) {
        check_timestamp(temporal, temporal_range, errors);
        true
    } else if str_eq(datatype, "DT") {
        check_date(temporal, temporal_range, errors);
        true
    } else if str_eq(datatype, "TM") {
        check_time(temporal, temporal_range, errors);
        true
    } else {
        assert(errors.deep_view() =~= start + Seq::<Finding>::empty());
        false
    }
}

fn check_components(
    repeat: &Repeat,
    datatype: Option<&DatatypeDefinition>,
    errors: &mut Vec<ValidationError>,
)
    ensures
        final(errors).deep_view() == old(errors).deep_view() + components_findings(
            *repeat,
            referent(datatype),
        ),
{
    let ghost start = errors.deep_view();
    let ghost f = component_findings(*repeat, referent(datatype));
    let mut ci: usize = 0;
    assert(errors.deep_view() =~= start + concat_upto(0, f));
    while ci < repeat.components.len()
        invariant
            ci <= repeat.components@.len(),
            f == component_findings(*repeat, referent(datatype)),
            errors.deep_view() == start + concat_upto(ci as int, f),
        decreases repeat.components@.len() - ci,
    {
        let ghost before = errors.deep_view();
        let component = &repeat.components[ci];
        if !component.is_empty() {
            match datatype {
                Some(d) => {
                    if ci < d.subfields.len() {
                        let _ = check_scalar(
                            d.subfields[ci].datatype.as_str(),
                            component.value.as_str(),
                            component.range,
                            repeat.value.as_str(),
                            repeat.range,
                            errors,
                        );
                    }
                },
                None => {},
            }
        }
        proof {
            lemma_concat_step(start, ci as int, f);
            assert(errors.deep_view() =~= before + f(ci as int));
        }
        ci += 1;
    }
}

fn check_repeat(
    repeat: &Repeat,
    catalog: &Catalog,
    version: &str,
    definition: Option<&FieldDefinition>,
    errors: &mut Vec<ValidationError>,
)
    ensures
        final(errors).deep_view() == old(errors).deep_view() + repeat_findings(
            *repeat,
            *catalog,
            version@,
            referent(definition),
        ),
{
    let ghost start = errors.deep_view();
    if repeat.is_empty() {
        assert(errors.deep_view() =~= start + Seq::<Finding>::empty());
        return ;
    }
    match definition {
        Some(d) => {
            let scalar = check_scalar(
                d.datatype.as_str(),
                repeat.value.as_str(),
                repeat.range,
                repeat.value.as_str(),
                repeat.range,
                errors,
            );
            if !scalar {
                assert(errors.deep_view() =~= start);
                check_components(repeat, catalog.get_field(version, d.datatype.as_str()), errors);
            }
        },
        None => {
            assert(errors.deep_view() =~= start + Seq::<Finding>::empty());
        },
    }
}

fn check_field(
    field: &Field,
    catalog: &Catalog,
    version: &str,
    definition: Option<&FieldDefinition>,
    errors: &mut Vec<ValidationError>,
)
    ensures
        final(errors).deep_view() == old(errors).deep_view() + field_findings(
            *field,
            *catalog,
            version@,
            referent(definition),
        ),
{
    let ghost start = errors.deep_view();
    if field.is_empty() {
        assert(errors.deep_view() =~= start + Seq::<Finding>::empty());
        return ;
    }
    let ghost f = repeats_findings(*field, *catalog, version@, referent(definition));
    let mut ri: usize = 0;
    assert(errors.deep_view() =~= start + concat_upto(0, f));
    while ri < field.repeats.len()
        invariant
            ri <= field.repeats@.len(),
            f == repeats_findings(*field, *catalog, version@, referent(definition)),
            errors.deep_view() == start + concat_upto(ri as int, f),
        decreases field.repeats@.len() - ri,
    {
        check_repeat(&field.repeats[ri], catalog, version, definition, errors);
        proof {
            lemma_concat_step(start, ri as int, f);
        }
        ri += 1;
    }
}

fn check_segment(
    segment: &Segment,
    catalog: &Catalog,
    version: &str,
    errors: &mut Vec<ValidationError>,
)
    ensures
        final(errors).deep_view() == old(errors).deep_view() + segment_findings(
            *segment,
            *catalog,
            version@,
        ),
{
    let ghost start = errors.deep_view();
    match catalog.get_segment(version, segment.name.as_str()) {
        Some(definition) => {
            let ghost f = fields_findings(*segment, *catalog, version@, *definition);
            let mut fi: usize = 0;
            assert(errors.deep_view() =~= start + concat_upto(0, f));
            while fi < segment.fields.len()
                invariant
                    fi <= segment.fields@.len(),
                    f == fields_findings(*segment, *catalog, version@, *definition),
                    errors.deep_view() == start + concat_upto(fi as int, f),
                decreases segment.fields@.len() - fi,
            {
                let field_definition: Option<&FieldDefinition> = if fi < definition.fields.len() {
                    Some(&definition.fields[fi])
                } else {
                    None
                };
                check_field(&segment.fields[fi], catalog, version, field_definition, errors);
                proof {
                    lemma_concat_step(start, fi as int, f);
                }
                fi += 1;
            }
        },
        None => {
            assert(errors.deep_view() =~= start + Seq::<Finding>::empty());
        },
    }
}

/// Reports each value that does not fit the datatype the standard gives it.
pub fn validate_message(message: &Message, catalog: &Catalog, version: &str) -> (errors: Vec<
    ValidationError,
>)
    ensures
        errors.deep_view() == findings(*message, *catalog, version@),
{
    let mut errors: Vec<ValidationError> = Vec::new();
    let ghost f = segments_findings(*message, *catalog, version@);
    assert(errors.deep_view() =~= concat_upto(0, f));
    let mut si: usize = 0;
    while si < message.segments.len()
        invariant
            si <= message.segments@.len(),
            f == segments_findings(*message, *catalog, version@),
            errors.deep_view() == concat_upto(si as int, f),
        decreases message.segments@.len() - si,
    {
        check_segment(&message.segments[si], catalog, version, &mut errors);
        si += 1;
    }
    errors
}

} // verus!
