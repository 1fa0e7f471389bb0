//! Signatures: the fields of a segment, or the components of a field, in a
//! row behind the name, with the byte range of each in the row.

use crate::hover::CursorLocation;
use crate::spec::{
    field_parameter_texts, field_parameters, segment_parameter_texts, segment_parameters, Catalog,
};
use crate::text::{decimal, decimal_digits};
use vstd::prelude::*;

verus! {

/// A signature: its label, the byte range of each parameter in the label,
/// and the index of the parameter in use, if one is.
#[derive(Debug, Clone)]
pub struct SignatureInformation {
    pub label: String,
    pub parameters: Vec<(usize, usize)>,
    pub active_parameter: Option<usize>,
}

/// The signatures for the place of a cursor, and the index of the one in use.
#[derive(Debug, Clone)]
pub struct SignatureHelp {
    pub signatures: Vec<SignatureInformation>,
    pub active_signature: usize,
}

/// The content of a `SignatureInformation`.
pub struct SignatureView {
    pub label: Seq<char>,
    pub parameters: Seq<(usize, usize)>,
    pub active_parameter: Option<usize>,
}

impl View for SignatureInformation {
    type V = SignatureView;

    open spec fn view(&self) -> SignatureView {
        SignatureView {
            label: self.label@,
            parameters: self.parameters@,
            active_parameter: self.active_parameter,
        }
    }
}

impl DeepView for SignatureInformation {
    type V = SignatureView;

    open spec fn deep_view(&self) -> SignatureView {
        self@
    }
}

/// The number of bytes of a text.
pub open spec fn byte_len(text: Seq<char>) -> nat {
    vstd::utf8::encode_utf8(text).len()
}

/// The label up to its `n`-th parameter: the head, and each parameter before
/// with the separator behind it.
pub open spec fn label_upto(
    head: Seq<char>,
    parameters: Seq<Seq<char>>,
    separator: Seq<char>,
    n: int,
) -> Seq<char>
    decreases n,
{
    if n <= 0 {
        head
    } else {
        label_upto(head, parameters, separator, n - 1) + parameters[n - 1] + separator
    }
}

/// The byte range of the `i`-th parameter in the label.
pub open spec fn parameter_range(
    head: Seq<char>,
    parameters: Seq<Seq<char>>,
    separator: Seq<char>,
    i: int,
) -> (usize, usize) {
    (
        byte_len(label_upto(head, parameters, separator, i)) as usize,
        byte_len(label_upto(head, parameters, separator, i) + parameters[i]) as usize,
    )
}

/// The signature of a head and its parameters.
pub open spec fn signature(
    head: Seq<char>,
    parameters: Seq<Seq<char>>,
    separator: Seq<char>,
    active_parameter: Option<usize>,
) -> SignatureView {
    SignatureView {
        label: label_upto(head, parameters, separator, parameters.len() as int),
        parameters: Seq::new(
            parameters.len(),
            |i: int| parameter_range(head, parameters, separator, i),
        ),
        active_parameter,
    }
}

/// The index of the parameter with the given number, counted from 1.
pub open spec fn parameter_index(number: usize) -> Option<usize> {
    if number >= 1 {
        Some((number - 1) as usize)
    } else {
        None
    }
}

/// The signature of a segment: its name and the separator, then its fields.
pub open spec fn segment_signature(
    catalog: Catalog,
    version: Seq<char>,
    separator: Seq<char>,
    segment: Seq<char>,
    current_field: usize,
) -> Option<SignatureView> {
    match segment_parameter_texts(catalog, version, segment) {
        Some(parameters) => Some(
            signature(segment + separator, parameters, separator, parameter_index(current_field)),
        ),
        None => None,
    }
}

/// The signature of a field: the name of its segment, its number and a bar,
/// then its components.
pub open spec fn field_signature(
    catalog: Catalog,
    version: Seq<char>,
    separator: Seq<char>,
    segment: Seq<char>,
    field: usize,
    current_component: usize,
) -> Option<SignatureView> {
    match field_parameter_texts(catalog, version, segment, field as int) {
        Some(parameters) => Some(
            signature(
                segment + "."@ + decimal_digits(field as nat) + "|"@,
                parameters,
                separator,
                parameter_index(current_component),
            ),
        ),
        None => None,
    }
}

fn parameter_at(number: usize) -> (r: Option<usize>)
    ensures
        r == parameter_index(number),
{
    if number >= 1 {
        Some(number - 1)
    } else {
        None
    }
}

/// Builds the signature of a head and its parameters.
pub fn build_signature(
    head: String,
    parameters: &Vec<String>,
    separator: &str,
    active_parameter: Option<usize>,
) -> (r: SignatureInformation)
    ensures
        r@ == signature(head@, parameters.deep_view(), separator@, active_parameter),
{
    let mut label = head;
    let mut ranges: Vec<(usize, usize)> = Vec::new();
    let mut i: usize = 0;
    while i < parameters.len()
        invariant
            i <= parameters@.len(),
            label@ == label_upto(head@, parameters.deep_view(), separator@, i as int),
            ranges@.len() == i,
            forall|j: int|
                0 <= j < i ==> ranges@[j] == parameter_range(
                    head@,
                    parameters.deep_view(),
                    separator@,
                    j,
                ),
        decreases parameters@.len() - i,
    {
        let start = label.as_str().as_bytes().len();
        label.append(parameters[i].as_str());
        let end = label.as_str().as_bytes().len();
        ranges.push((start, end));
        label.append(separator);
        i += 1;
    }
    assert(ranges@ =~= signature(
        head@,
        parameters.deep_view(),
        separator@,
        active_parameter,
    ).parameters);
    SignatureInformation { label, parameters: ranges, active_parameter }
}

/// The signature of a segment, where the catalog defines it.
pub fn build_segment_signature(
    catalog: &Catalog,
    version: &str,
    field_separator: &str,
    segment: &str,
    current_field: usize,
) -> (r: Option<SignatureInformation>)
    ensures
        r.deep_view() == segment_signature(
            *catalog,
            version@,
            field_separator@,
            segment@,
            current_field,
        ),
{
    match segment_parameters(catalog, version, segment) {
        Some(parameters) => {
            let mut head = String::from_str(segment);
            head.append(field_separator);
            Some(build_signature(head, &parameters, field_separator, parameter_at(current_field)))
        },
        None => None,
    }
}

/// The signature of a field, where the catalog defines it.
pub fn build_field_signature(
    catalog: &Catalog,
    version: &str,
    component_separator: &str,
    segment: &str,
    field: usize,
    current_component: usize,
) -> (r: Option<SignatureInformation>)
    ensures
        r.deep_view() == field_signature(
            *catalog,
            version@,
            component_separator@,
            segment@,
            field,
            current_component,
        ),
{
    match field_parameters(catalog, version, segment, field) {
        Some(parameters) => {
            let mut head = String::from_str(segment);
            head.append(".");
            head.append(decimal(field).as_str());
            head.append("|");
            Some(build_signature(head, &parameters, component_separator, parameter_at(current_component)))
        },
        None => None,
    }
}

/// The signatures for the place of a cursor: that of the segment, and behind
/// it that of the field where the cursor is in a component. The signature of
/// the field is the one in use where the repeat holds several components.
pub open spec fn signatures(
    catalog: Catalog,
    version: Seq<char>,
    field_separator: Seq<char>,
    component_separator: Seq<char>,
    location: CursorLocation,
) -> Option<(Seq<SignatureView>, usize)> {
    match (location.segment, location.field) {
        (Some(s), Some(f)) => match segment_signature(
            catalog,
            version,
            field_separator,
            s.name@,
            f.number,
        ) {
            Some(first) => match location.component {
                Some(c) => match field_signature(
                    catalog,
                    version,
                    component_separator,
                    s.name@,
                    f.number,
                    c.number,
                ) {
                    Some(second) => Some(
                        (
                            seq![first, second],
                            if location.repeat is Some && location.repeat->0.has_components {
                                1usize
                            } else {
                                0usize
                            },
                        ),
                    ),
                    None => Some((seq![first], 0usize)),
                },
                None => Some((seq![first], 0usize)),
            },
            None => None,
        },
        _ => None,
    }
}

/// The signatures for the place of a cursor.
pub fn signature_help(
    catalog: &Catalog,
    version: &str,
    field_separator: &str,
    component_separator: &str,
    location: &CursorLocation,
) -> (r: Option<SignatureHelp>)
    ensures
        match r {
            Some(help) => signatures(
                *catalog,
                version@,
                field_separator@,
                component_separator@,
                *location,
            ) == Some((help.signatures.deep_view(), help.active_signature)),
            None => signatures(
                *catalog,
                version@,
                field_separator@,
                component_separator@,
                *location,
            ) is None,
        },
{
    match (&location.segment, &location.field) {
        (Some(s), Some(f)) => {
            match build_segment_signature(
                catalog,
                version,
                field_separator,
                s.name.as_str(),
                f.number,
            ) {
                Some(first) => {
                    let ghost first_view = first@;
                    let mut signatures: Vec<SignatureInformation> = Vec::new();
                    signatures.push(first);
                    let mut active_signature: usize = 0;
                    match &location.component {
                        Some(c) => {
                            match build_field_signature(
                                catalog,
                                version,
                                component_separator,
                                s.name.as_str(),
                                f.number,
                                c.number,
                            ) {
                                Some(second) => {
                                    let ghost second_view = second@;
                                    signatures.push(second);
                                    match &location.repeat {
                                        Some(r) => {
                                            if r.has_components {
                                                active_signature = 1;
                                            }
                                        },
                                        None => {},
                                    }
                                    assert(signatures.deep_view() =~= seq![
                                        first_view,
                                        second_view,
                                    ]);
                                },
                                None => {
                                    assert(signatures.deep_view() =~= seq![first_view]);
                                },
                            }
                        },
                        None => {
                            assert(signatures.deep_view() =~= seq![first_view]);
                        },
                    }
                    Some(SignatureHelp { signatures, active_signature })
                },
                None => None,
            }
        },
        _ => None,
    }
}

} // verus!
