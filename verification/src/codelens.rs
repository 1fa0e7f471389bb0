//! Code lenses: the offer to set a timestamp field to the present time.

use crate::hover::{message_version, named_version};
use crate::message::{Message, Segment, Span};
use crate::spec::{field_is_timestamp, is_field_a_timestamp, Catalog};
use crate::text::{decimal, decimal_digits};
use crate::validation::{concat_upto, lemma_concat_step};
use vstd::prelude::*;

verus! {

/// A lens over a range of the text, with the title of its command.
#[derive(Debug, Clone)]
pub struct CodeLens {
    pub range: Span,
    pub title: String,
}

/// The content of a `CodeLens`.
pub struct CodeLensView {
    pub range: Span,
    pub title: Seq<char>,
}

impl View for CodeLens {
    type V = CodeLensView;

    open spec fn view(&self) -> CodeLensView {
        CodeLensView { range: self.range, title: self.title@ }
    }
}

impl DeepView for CodeLens {
    type V = CodeLensView;

    open spec fn deep_view(&self) -> CodeLensView {
        self@
    }
}

/// The lens of the field at index `fi` of a segment.
pub open spec fn field_lens(segment: Segment, fi: int) -> CodeLensView {
    CodeLensView {
        range: segment.fields@[fi].range,
        title: "Set "@ + segment.name@ + "."@ + decimal_digits((fi + 1) as nat) + " ("@
            + segment.fields@[fi].value@ + ") to now (UTC)"@,
    }
}

/// The lenses of each field of a segment: one for a field that the catalog
/// defines as a timestamp.
pub open spec fn field_lenses(catalog: Catalog, version: Seq<char>, segment: Segment) -> spec_fn(
    int,
) -> Seq<CodeLensView> {
    |fi: int|
        if field_is_timestamp(catalog, version, segment.name@, fi + 1) {
            seq![field_lens(segment, fi)]
        } else {
            Seq::empty()
        }
}

/// The lenses of each segment of a message.
pub open spec fn segment_lenses(catalog: Catalog, message: Message) -> spec_fn(int) -> Seq<
    CodeLensView,
> {
    |si: int|
        concat_upto(
            message.segments@[si].fields@.len() as int,
            field_lenses(catalog, named_version(message), message.segments@[si]),
        )
}

/// The lenses of a message: one for each timestamp field, by the version
/// that its header names.
pub open spec fn lenses(catalog: Catalog, message: Message) -> Seq<CodeLensView> {
    concat_upto(message.segments@.len() as int, segment_lenses(catalog, message))
}

fn push_lens(lenses: &mut Vec<CodeLens>, lens: CodeLens)
    ensures
        final(lenses).deep_view() == old(lenses).deep_view() + seq![lens@],
{
    lenses.push(lens);
    assert(lenses.deep_view() =~= old(lenses).deep_view() + seq![lens@]);
}

/// The lenses of a message.
pub fn timestamp_code_lenses(catalog: &Catalog, message: &Message) -> (r: Vec<CodeLens>)
    ensures
        r.deep_view() == lenses(*catalog, *message),
{
    let version = message_version(message);
    let mut found: Vec<CodeLens> = Vec::new();
    let ghost f = segment_lenses(*catalog, *message);
    assert(found.deep_view() =~= concat_upto(0, f));
    let mut si: usize = 0;
    while si < message.segments.len()
        invariant
            si <= message.segments@.len(),
            version@ == named_version(*message),
            f == segment_lenses(*catalog, *message),
            found.deep_view() == concat_upto(si as int, f),
        decreases message.segments@.len() - si,
    {
        let segment = &message.segments[si];
        let ghost start = found.deep_view();
        let ghost g = field_lenses(*catalog, version@, *segment);
        assert(found.deep_view() =~= start + concat_upto(0, g));
        let mut fi: usize = 0;
        while fi < segment.fields.len()
            invariant
                fi <= segment.fields@.len(),
                g == field_lenses(*catalog, version@, *segment),
                found.deep_view() == start + concat_upto(fi as int, g),
            decreases segment.fields@.len() - fi,
        {
            let ghost before = found.deep_view();
            if is_field_a_timestamp(catalog, version, segment.name.as_str(), fi + 1) {
                let mut title = String::from_str("Set ");
                title.append(segment.name.as_str());
                title.append(".");
                title.append(decimal(fi + 1).as_str());
                title.append(" (");
                title.append(segment.fields[fi].value.as_str());
                title.append(") to now (UTC)");
                push_lens(&mut found, CodeLens { range: segment.fields[fi].range, title });
            }
            proof {
                lemma_concat_step(start, fi as int, g);
                assert(found.deep_view() =~= before + g(fi as int));
            }
            fi += 1;
        }
        proof {
            lemma_concat_step(Seq::<CodeLensView>::empty(), si as int, f);
            assert(found.deep_view() =~= concat_upto(si as int, f) + f(si as int));
            assert(concat_upto(si + 1, f) =~= concat_upto(si as int, f) + f(si as int));
        }
        si += 1;
    }
    found
}

} // verus!
