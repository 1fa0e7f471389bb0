//! Selection ranges: the parts of a message around a cursor, each inside the
//! one before.

use crate::hover::CursorLocation;
use crate::message::Span;
use vstd::prelude::*;

verus! {

/// The range of an optional part, or nothing.
pub open spec fn optional_range(range: Option<Span>) -> Seq<Span> {
    match range {
        Some(r) => seq![r],
        None => Seq::empty(),
    }
}

/// The ranges of the parts of a message that a cursor is in, from the segment
/// inwards; `None` where it is in no segment.
pub open spec fn ranges_around(location: CursorLocation) -> Option<Seq<Span>> {
    match location.segment {
        Some(s) => Some(
            seq![s.range] + optional_range(
                match location.field {
                    Some(f) => Some(f.range),
                    None => None,
                },
            ) + optional_range(
                match location.repeat {
                    Some(r) => Some(r.range),
                    None => None,
                },
            ) + optional_range(
                match location.component {
                    Some(c) => Some(c.range),
                    None => None,
                },
            ) + optional_range(
                match location.sub_component {
                    Some(u) => Some(u.range),
                    None => None,
                },
            ),
        ),
        None => None,
    }
}

/// The ranges of the parts of a message that a cursor is in, from the segment
/// inwards.
pub fn selection_ranges(location: &CursorLocation) -> (r: Option<Vec<Span>>)
    ensures
        match r {
            Some(ranges) => ranges_around(*location) == Some(ranges@),
            None => ranges_around(*location) is None,
        },
{
    match &location.segment {
        Some(s) => {
            let mut ranges: Vec<Span> = Vec::new();
            ranges.push(s.range);
            match &location.field {
                Some(f) => ranges.push(f.range),
                None => {},
            }
            match &location.repeat {
                Some(r) => ranges.push(r.range),
                None => {},
            }
            match &location.component {
                Some(c) => ranges.push(c.range),
                None => {},
            }
            match &location.sub_component {
                Some(u) => ranges.push(u.range),
                None => {},
            }
            assert(ranges@ =~= ranges_around(*location)->0);
            Some(ranges)
        },
        None => None,
    }
}

} // verus!
