//! When the actions on a selection are on offer.

use crate::hover::{message_version, named_version, CursorLocation};
use crate::message::{Message, Span};
pub use crate::message::Separators;
use crate::spec::{field_is_timestamp, is_field_a_timestamp, Catalog};
use vstd::prelude::*;

verus! {

/// Some character of `text` satisfies `wanted`.
pub open spec fn holds_any(text: Seq<char>, wanted: spec_fn(char) -> bool) -> bool {
    exists|i: int| 0 <= i < text.len() && wanted(#[trigger] text[i])
}

/// A selection can be encoded when it holds a delimiter or the escape
/// character.
pub open spec fn needs_encoding(selection: Seq<char>, separators: Separators) -> bool {
    holds_any(selection, |c: char| separators.is_special(c))
}

/// A selection can be decoded when it holds the escape character.
pub open spec fn needs_decoding(selection: Seq<char>, separators: Separators) -> bool {
    holds_any(selection, |c: char| c == separators.escape)
}

/// Whether encoding is on offer for a selection.
pub fn requires_encoding(selection: &str, separators: &Separators) -> (r: bool)
    ensures
        r == needs_encoding(selection@, *separators),
{
    let mut found = false;
    for c in it: selection.chars()
        invariant
            it.seq() == selection@,
            found == exists|i: int|
                0 <= i < it.index() && separators.is_special(#[trigger] selection@[i]),
    {
        if separators.field == c || separators.component == c || separators.subcomponent == c
            || separators.repetition == c || separators.escape == c {
            found = true;
        }
    }
    found
}

/// Whether decoding is on offer for a selection.
pub fn requires_decoding(selection: &str, separators: &Separators) -> (r: bool)
    ensures
        r == needs_decoding(selection@, *separators),
{
    let mut found = false;
    for c in it: selection.chars()
        invariant
            it.seq() == selection@,
            found == exists|i: int| 0 <= i < it.index() && #[trigger] selection@[i] == separators.escape,
    {
        if c == separators.escape {
            found = true;
        }
    }
    found
}

/// A new control id is on offer where the selection lies within the field
/// that holds the control id.
pub open spec fn within(selection: Span, field: Span) -> bool {
    field.start <= selection.start && selection.end <= field.end
}

pub fn selection_is_within(selection: Span, field: Span) -> (r: bool)
    ensures
        r == within(selection, field),
{
    !(selection.start < field.start || selection.end > field.end)
}

/// An action on offer for a selection.
#[derive(Debug, Clone)]
pub enum CodeAction {
    /// Put a new control id in the place of the one the message has.
    GenerateControlId,
    /// Put the present time in the place of a timestamp.
    SetTimestampToNow { title: String, range: Span },
    /// Encode the delimiters in the selection.
    EncodeSelection,
    /// Decode the escapes in the selection.
    DecodeSelection,
}

/// The content of a `CodeAction`.
pub enum CodeActionView {
    GenerateControlId,
    SetTimestampToNow { title: Seq<char>, range: Span },
    EncodeSelection,
    DecodeSelection,
}

impl View for CodeAction {
    type V = CodeActionView;

    open spec fn view(&self) -> CodeActionView {
        match self {
            CodeAction::GenerateControlId => CodeActionView::GenerateControlId,
            CodeAction::SetTimestampToNow { title, range } => CodeActionView::SetTimestampToNow {
                title: title@,
                range: *range,
            },
            CodeAction::EncodeSelection => CodeActionView::EncodeSelection,
            CodeAction::DecodeSelection => CodeActionView::DecodeSelection,
        }
    }
}

impl DeepView for CodeAction {
    type V = CodeActionView;

    open spec fn deep_view(&self) -> CodeActionView {
        self@
    }
}

/// A new control id is on offer where the message has a control id, in the
/// tenth field of its header, and the selection lies within it.
pub open spec fn control_id_actions(message: Message, selection: Span) -> Seq<CodeActionView> {
    match message.spec_header_field(10) {
        Some(field) => if within(selection, field.range) {
            seq![CodeActionView::GenerateControlId]
        } else {
            Seq::empty()
        },
        None => Seq::empty(),
    }
}

/// The present time is on offer where the selection starts in a repeat of a
/// field that the catalog defines as a timestamp.
pub open spec fn set_to_now_actions(
    catalog: Catalog,
    message: Message,
    location: Option<CursorLocation>,
) -> Seq<CodeActionView> {
    match location {
        Some(l) => match (l.segment, l.field, l.repeat) {
            (Some(s), Some(f), Some(r)) => if field_is_timestamp(
                catalog,
                named_version(message),
                s.name@,
                f.number as int,
            ) {
                seq![
                    CodeActionView::SetTimestampToNow {
                        title: "Set "@ + l.label@ + " to now"@,
                        range: r.range,
                    },
                ]
            } else {
                Seq::empty()
            },
            _ => Seq::empty(),
        },
        None => Seq::empty(),
    }
}

/// Encoding and decoding are on offer for a selection that is not empty and
/// holds what they change.
pub open spec fn recoding_actions(selection: Span, selected: Seq<char>, separators: Separators)
    -> Seq<CodeActionView> {
    if selection.end <= selection.start {
        Seq::empty()
    } else {
        (if needs_encoding(selected, separators) {
            seq![CodeActionView::EncodeSelection]
        } else {
            Seq::empty()
        }) + (if needs_decoding(selected, separators) {
            seq![CodeActionView::DecodeSelection]
        } else {
            Seq::empty()
        })
    }
}

/// The actions on offer for a selection, none for a selection that is no
/// range of the text: a new control id, the present time, encoding, decoding,
/// in this order. `selected` is the selected text and `location` the place
/// where the selection starts.
pub open spec fn actions(
    catalog: Catalog,
    message: Message,
    selection: Option<Span>,
    selected: Seq<char>,
    location: Option<CursorLocation>,
    separators: Separators,
) -> Seq<CodeActionView> {
    match selection {
        Some(range) => control_id_actions(message, range) + set_to_now_actions(
            catalog,
            message,
            location,
        ) + recoding_actions(range, selected, separators),
        None => Seq::empty(),
    }
}

/// The actions on offer for a selection.
pub fn code_actions(
    catalog: &Catalog,
    message: &Message,
    selection: Option<Span>,
    selected: &str,
    location: Option<&CursorLocation>,
    separators: &Separators,
) -> (r: Vec<CodeAction>)
    ensures
        r.deep_view() == actions(
            *catalog,
            *message,
            selection,
            selected@,
            crate::lookup::referent(location),
            *separators,
        ),
{
    let mut offered: Vec<CodeAction> = Vec::new();
    assert(offered.deep_view() =~= Seq::<CodeActionView>::empty());
    let range = match selection {
        Some(range) => range,
        None => {
            return offered;
        },
    };
    match message.header_field(10) {
        Some(field) => {
            if selection_is_within(range, field.range) {
                offered.push(CodeAction::GenerateControlId);
            }
        },
        None => {},
    }
    assert(offered.deep_view() =~= control_id_actions(*message, range));
    let ghost first = offered.deep_view();
    match location {
        Some(l) => match (&l.segment, &l.field, &l.repeat) {
            (Some(s), Some(f), Some(r)) => {
                if is_field_a_timestamp(
                    catalog,
                    message_version(message),
                    s.name.as_str(),
                    f.number,
                ) {
                    let mut title = String::from_str("Set ");
                    title.append(l.label.as_str());
                    title.append(" to now");
                    offered.push(CodeAction::SetTimestampToNow { title, range: r.range });
                }
            },
            _ => {},
        },
        None => {},
    }
    assert(offered.deep_view() =~= first + set_to_now_actions(
        *catalog,
        *message,
        crate::lookup::referent(location),
    ));
    let ghost second = offered.deep_view();
    if range.end > range.start {
        if requires_encoding(selected, separators) {
            offered.push(CodeAction::EncodeSelection);
        }
        if requires_decoding(selected, separators) {
            offered.push(CodeAction::DecodeSelection);
        }
    }
    assert(offered.deep_view() =~= second + recoding_actions(range, selected@, *separators));
    offered
}

} // verus!
