//! Conversion between byte offsets into a text and line/column positions.
//!
//! A line feed, a carriage return, or a carriage return followed directly by
//! a line feed each end one line. Offsets and columns count bytes.

use crate::message::Span;
use vstd::prelude::*;
use vstd::string::StringSliceAdditionalSpecFns;

verus! {

/// A zero-based line and column in a text.
#[derive(Debug, Clone, Copy, PartialEq, Eq, Structural)]
pub struct Position {
    pub line: u32,
    pub character: u32,
}

/// A start and an end position in a text.
#[derive(Debug, Clone, Copy, PartialEq, Eq, Structural)]
pub struct Range {
    pub start: Position,
    pub end: Position,
}

pub open spec fn is_line_feed(b: u8) -> bool {
    b == 10
}

pub open spec fn is_carriage_return(b: u8) -> bool {
    b == 13
}

/// The offset is that of a line feed which directly follows a carriage return:
/// the two bytes are one line break, and no position lies between them.
pub open spec fn inside_break(text: Seq<u8>, offset: int) -> bool {
    &&& 0 < offset < text.len()
    &&& is_line_feed(text[offset])
    &&& is_carriage_return(text[offset - 1])
}

/// The offsets that have a position of their own: those of the bytes of the
/// text, but for a line feed inside a two-byte line break.
pub open spec fn valid_offset(text: Seq<u8>, offset: int) -> bool {
    0 <= offset < text.len() && !inside_break(text, offset)
}

/// A line break begins at index `j`.
pub open spec fn starts_break(text: Seq<u8>, j: int) -> bool {
    &&& 0 <= j < text.len()
    &&& (is_carriage_return(text[j]) || (is_line_feed(text[j]) && !inside_break(text, j)))
}

/// The number of line breaks that begin before `offset`.
pub open spec fn line_of(text: Seq<u8>, offset: int) -> nat
    decreases offset,
{
    if offset <= 0 {
        0
    } else {
        line_of(text, offset - 1) + if starts_break(text, offset - 1) {
            1nat
        } else {
            0nat
        }
    }
}

/// The number of bytes between the last line break before `offset` and `offset`.
pub open spec fn column_of(text: Seq<u8>, offset: int) -> nat
    decreases offset,
{
    if offset <= 0 || offset > text.len() {
        0
    } else if is_line_feed(text[offset - 1]) || is_carriage_return(text[offset - 1]) {
        0
    } else {
        1 + column_of(text, offset - 1)
    }
}

/// `offset` is a valid offset of `text` at the given line and column.
pub open spec fn offset_is_at(text: Seq<u8>, offset: int, line: int, column: int) -> bool {
    &&& valid_offset(text, offset)
    &&& line_of(text, offset) == line
    &&& column_of(text, offset) == column
}

/// The valid offset at a line and column, if the text has one there.
pub open spec fn offset_at(text: Seq<u8>, line: int, column: int) -> Option<int> {
    if exists|o: int| offset_is_at(text, o, line, column) {
        Some(choose|o: int| offset_is_at(text, o, line, column))
    } else {
        None
    }
}

/// The offset whose position `position_from_offset` reports for `offset`:
/// the offset itself where it is valid, the end of the text otherwise.
pub open spec fn resolved_offset(text: Seq<u8>, offset: int) -> int {
    if valid_offset(text, offset) {
        offset
    } else {
        text.len() as int
    }
}

/// The line and column reported for `offset`.
pub open spec fn position_at(text: Seq<u8>, offset: int) -> (nat, nat) {
    let o = resolved_offset(text, offset);
    (line_of(text, o), column_of(text, o))
}

pub proof fn lemma_line_of_bounded(text: Seq<u8>, offset: int)
    requires
        0 <= offset,
    ensures
        line_of(text, offset) <= offset,
    decreases offset,
{
    if offset > 0 {
        lemma_line_of_bounded(text, offset - 1);
    }
}

pub proof fn lemma_column_of_bounded(text: Seq<u8>, offset: int)
    requires
        0 <= offset,
    ensures
        column_of(text, offset) <= offset,
    decreases offset,
{
    if offset > 0 && offset <= text.len() {
        lemma_column_of_bounded(text, offset - 1);
    }
}

/// Line and column of an offset are no greater than the length of the text.
pub proof fn lemma_position_at_bounded(text: Seq<u8>, offset: int)
    ensures
        position_at(text, offset).0 <= text.len(),
        position_at(text, offset).1 <= text.len(),
{
    lemma_line_of_bounded(text, resolved_offset(text, offset));
    lemma_column_of_bounded(text, resolved_offset(text, offset));
}

/// Lines never decrease along the text.
pub proof fn lemma_line_of_monotone(text: Seq<u8>, a: int, b: int)
    requires
        0 <= a <= b,
    ensures
        line_of(text, a) <= line_of(text, b),
    decreases b - a,
{
    if a < b {
        lemma_line_of_monotone(text, a, b - 1);
    }
}

/// Between two offsets of one line the column grows by the distance.
pub proof fn lemma_column_within_line(text: Seq<u8>, a: int, b: int)
    requires
        0 <= a < b <= text.len(),
        !inside_break(text, a),
        line_of(text, a) == line_of(text, b),
    ensures
        column_of(text, b) == column_of(text, a) + (b - a),
    decreases b - a,
{
    lemma_line_of_monotone(text, a, b - 1);
    assert(!starts_break(text, b - 1));
    assert(line_of(text, b - 1) == line_of(text, a));
    if is_line_feed(text[b - 1]) {
        assert(inside_break(text, b - 1));
        assert(b - 1 > a);
        assert(starts_break(text, b - 2));
        lemma_line_of_monotone(text, a, b - 2);
        assert(false);
    }
    if b - 1 > a {
        lemma_column_within_line(text, a, b - 1);
    }
}

/// Two valid offsets with one position are one offset.
pub proof fn lemma_position_unique(text: Seq<u8>, a: int, b: int)
    requires
        valid_offset(text, a),
        valid_offset(text, b),
        line_of(text, a) == line_of(text, b),
        column_of(text, a) == column_of(text, b),
    ensures
        a == b,
{
    if a < b {
        lemma_column_within_line(text, a, b);
    } else if b < a {
        lemma_column_within_line(text, b, a);
    }
}

/// Mapping a valid offset to its position and back gives the offset again.
pub proof fn lemma_position_round_trip(text: Seq<u8>, offset: int)
    requires
        valid_offset(text, offset),
    ensures
        offset_at(text, position_at(text, offset).0 as int, position_at(text, offset).1 as int)
            == Some(offset),
{
    let line = line_of(text, offset) as int;
    let column = column_of(text, offset) as int;
    assert(offset_is_at(text, offset, line, column));
    let found = choose|o: int| offset_is_at(text, o, line, column);
    lemma_position_unique(text, found, offset);
}

/// The position that `position_from_offset` reports for a valid offset is
/// one for which `position_to_offset` reports the offset again: whatever
/// line and column are the position of the offset, the offset is the one at
/// that line and column.
pub proof fn lemma_positions_round_trip(text: Seq<u8>, offset: int, line: u32, character: u32)
    requires
        valid_offset(text, offset),
        line == position_at(text, offset).0,
        character == position_at(text, offset).1,
    ensures
        offset_at(text, line as int, character as int) == Some(offset),
{
    lemma_position_round_trip(text, offset);
}

/// How line and column move over the byte, or the two-byte break, at a valid
/// offset.
proof fn lemma_step(text: Seq<u8>, i: int)
    requires
        valid_offset(text, i),
    ensures
        is_line_feed(text[i]) ==> line_of(text, i + 1) == line_of(text, i) + 1 && column_of(
            text,
            i + 1,
        ) == 0 && !inside_break(text, i + 1),
        is_carriage_return(text[i]) ==> line_of(text, i + 1) == line_of(text, i) + 1 && column_of(
            text,
            i + 1,
        ) == 0,
        inside_break(text, i + 1) ==> line_of(text, i + 2) == line_of(text, i) + 1 && column_of(
            text,
            i + 2,
        ) == 0 && !inside_break(text, i + 2),
        !is_line_feed(text[i]) && !is_carriage_return(text[i]) ==> line_of(text, i + 1) == line_of(
            text,
            i,
        ) && column_of(text, i + 1) == column_of(text, i) + 1 && !inside_break(text, i + 1),
{
    assert(line_of(text, i + 1) == line_of(text, i) + if starts_break(text, i) {
        1nat
    } else {
        0nat
    });
    if inside_break(text, i + 1) {
        assert(line_of(text, i + 2) == line_of(text, i + 1) + if starts_break(text, i + 1) {
            1nat
        } else {
            0nat
        });
    }
}

/// The offset of the byte at a line and column, or `None` where the text has
/// no byte there.
pub fn position_to_offset(text: &str, line: u32, column: u32) -> (r: Option<usize>)
    ensures
        match r {
            Some(o) => offset_at(text.spec_bytes(), line as int, column as int) == Some(o as int),
            None => offset_at(text.spec_bytes(), line as int, column as int) is None,
        },
{
    let bytes = text.as_bytes();
    let n = bytes.len();
    let mut i: usize = 0;
    let mut current_line: usize = 0;
    let mut current_column: usize = 0;
    while i < n
        invariant
            n == bytes@.len(),
            bytes@ == text.spec_bytes(),
            i <= n,
            !inside_break(bytes@, i as int),
            current_line == line_of(bytes@, i as int),
            current_column == column_of(bytes@, i as int),
            forall|o: int| 0 <= o < i ==> !offset_is_at(bytes@, o, line as int, column as int),
        decreases n - i,
    {
        proof {
            lemma_line_of_bounded(bytes@, i as int);
            lemma_column_of_bounded(bytes@, i as int);
        }
        if current_line == line as usize && current_column == column as usize {
            proof {
                assert(offset_is_at(bytes@, i as int, line as int, column as int));
                let found = choose|o: int| offset_is_at(bytes@, o, line as int, column as int);
                lemma_position_unique(bytes@, found, i as int);
            }
            return Some(i);
        }
        let c = bytes[i];
        proof {
            lemma_step(bytes@, i as int);
        }
        if c == 10 {
            current_line += 1;
            current_column = 0;
            i += 1;
        } else if c == 13 {
            current_line += 1;
            current_column = 0;
            if i + 1 < n && bytes[i + 1] == 10 {
                i += 2;
            } else {
                i += 1;
            }
        } else {
            current_column += 1;
            i += 1;
        }
    }
    None
}

/// The position of the byte at `offset`. An offset inside a two-byte line
/// break or beyond the text has the position of the end of the text.
pub fn position_from_offset(text: &str, offset: usize) -> (r: Position)
    requires
        text.spec_bytes().len() <= u32::MAX,
    ensures
        r.line == position_at(text.spec_bytes(), offset as int).0,
        r.character == position_at(text.spec_bytes(), offset as int).1,
{
    let bytes = text.as_bytes();
    let n = bytes.len();
    let mut i: usize = 0;
    let mut line: usize = 0;
    let mut character: usize = 0;
    while i < n
        invariant
            n == bytes@.len(),
            bytes@ == text.spec_bytes(),
            i <= n,
            !inside_break(bytes@, i as int),
            line == line_of(bytes@, i as int),
            character == column_of(bytes@, i as int),
            offset < i ==> inside_break(bytes@, offset as int),
            n <= u32::MAX,
        decreases n - i,
    {
        proof {
            lemma_line_of_bounded(bytes@, i as int);
            lemma_column_of_bounded(bytes@, i as int);
        }
        if i == offset {
            return Position { line: line as u32, character: character as u32 };
        }
        let c = bytes[i];
        proof {
            lemma_step(bytes@, i as int);
        }
        if c == 10 {
            line += 1;
            character = 0;
            i += 1;
        } else if c == 13 {
            line += 1;
            character = 0;
            if i + 1 < n && bytes[i + 1] == 10 {
                i += 2;
            } else {
                i += 1;
            }
        } else {
            character += 1;
            i += 1;
        }
    }
    proof {
        lemma_line_of_bounded(bytes@, i as int);
        lemma_column_of_bounded(bytes@, i as int);
    }
    Position { line: line as u32, character: character as u32 }
}

/// The positions of the two ends of a byte range.
pub fn range_from_offsets(text: &str, start: usize, end: usize) -> (r: Range)
    requires
        text.spec_bytes().len() <= u32::MAX,
    ensures
        r.start.line == position_at(text.spec_bytes(), start as int).0,
        r.start.character == position_at(text.spec_bytes(), start as int).1,
        r.end.line == position_at(text.spec_bytes(), end as int).0,
        r.end.character == position_at(text.spec_bytes(), end as int).1,
{
    Range { start: position_from_offset(text, start), end: position_from_offset(text, end) }
}

/// The positions of the two ends of a byte range.
pub fn std_range_to_lsp_range(text: &str, range: Span) -> (r: Range)
    requires
        text.spec_bytes().len() <= u32::MAX,
    ensures
        r.start.line == position_at(text.spec_bytes(), range.start as int).0,
        r.start.character == position_at(text.spec_bytes(), range.start as int).1,
        r.end.line == position_at(text.spec_bytes(), range.end as int).0,
        r.end.character == position_at(text.spec_bytes(), range.end as int).1,
{
    range_from_offsets(text, range.start, range.end)
}

/// The byte range between two positions, where both are positions of bytes
/// of the text.
pub open spec fn span_between(text: Seq<u8>, range: Range) -> Option<Span> {
    match (
        offset_at(text, range.start.line as int, range.start.character as int),
        offset_at(text, range.end.line as int, range.end.character as int),
    ) {
        (Some(start), Some(end)) => Some(Span { start: start as usize, end: end as usize }),
        _ => None,
    }
}

/// The byte range between the two positions of `range`, or `None` where the
/// text has no byte at one of them.
pub fn lsp_range_to_std_range(text: &str, range: Range) -> (r: Option<Span>)
    ensures
        r == span_between(text.spec_bytes(), range),
{
    match position_to_offset(text, range.start.line, range.start.character) {
        Some(start) => match position_to_offset(text, range.end.line, range.end.character) {
            Some(end) => Some(Span { start, end }),
            None => None,
        },
        None => None,
    }
}

} // verus!
