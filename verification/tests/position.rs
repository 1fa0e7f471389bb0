use hl7_ls::utils::{position_from_offset, position_to_offset, range_from_offsets, Position};

#[test]
fn can_calculate_offset_newlines() {
    let text = "abc\ndef\nghi";
    assert_eq!(position_to_offset(text, 0, 0), Some(0));
    assert_eq!(position_to_offset(text, 0, 1), Some(1));
    assert_eq!(position_to_offset(text, 0, 2), Some(2));

    assert_eq!(position_to_offset(text, 1, 0), Some(4));
    assert_eq!(position_to_offset(text, 1, 1), Some(5));
    assert_eq!(position_to_offset(text, 1, 2), Some(6));

    assert_eq!(position_to_offset(text, 2, 0), Some(8));
    assert_eq!(position_to_offset(text, 2, 1), Some(9));
    assert_eq!(position_to_offset(text, 2, 2), Some(10));
}

#[test]
fn can_calculate_offset_carriage_returns() {
    let text = "abc\rdef\rghi";
    assert_eq!(position_to_offset(text, 0, 0), Some(0));
    assert_eq!(position_to_offset(text, 0, 1), Some(1));
    assert_eq!(position_to_offset(text, 0, 2), Some(2));

    assert_eq!(position_to_offset(text, 1, 0), Some(4));
    assert_eq!(position_to_offset(text, 1, 1), Some(5));
    assert_eq!(position_to_offset(text, 1, 2), Some(6));

    assert_eq!(position_to_offset(text, 2, 0), Some(8));
    assert_eq!(position_to_offset(text, 2, 1), Some(9));
    assert_eq!(position_to_offset(text, 2, 2), Some(10));

    assert_eq!(position_to_offset(text, 3, 0), None);
}

#[test]
fn can_calculate_offset_crlf() {
    let text = "abc\r\ndef\r\nghi";
    assert_eq!(position_to_offset(text, 0, 0), Some(0));
    assert_eq!(position_to_offset(text, 0, 1), Some(1));
    assert_eq!(position_to_offset(text, 0, 2), Some(2));

    assert_eq!(position_to_offset(text, 1, 0), Some(5));
    assert_eq!(position_to_offset(text, 1, 1), Some(6));
    assert_eq!(position_to_offset(text, 1, 2), Some(7));

    assert_eq!(position_to_offset(text, 2, 0), Some(10));
    assert_eq!(position_to_offset(text, 2, 1), Some(11));
    assert_eq!(position_to_offset(text, 2, 2), Some(12));

    assert_eq!(position_to_offset(text, 3, 0), None);
}

#[test]
fn can_calculate_position() {
    let text = "abc\r\ndef\r\nghi";

    assert_eq!(position_from_offset(text, 0), Position { line: 0, character: 0 });
    assert_eq!(position_from_offset(text, 1), Position { line: 0, character: 1 });
    assert_eq!(position_from_offset(text, 2), Position { line: 0, character: 2 });

    assert_eq!(position_from_offset(text, 5), Position { line: 1, character: 0 });
    assert_eq!(position_from_offset(text, 6), Position { line: 1, character: 1 });
    assert_eq!(position_from_offset(text, 7), Position { line: 1, character: 2 });

    assert_eq!(position_from_offset(text, 10), Position { line: 2, character: 0 });
    assert_eq!(position_from_offset(text, 11), Position { line: 2, character: 1 });
    assert_eq!(position_from_offset(text, 12), Position { line: 2, character: 2 });
}

fn is_valid_offset(text: &str, offset: usize) -> bool {
    let bytes = text.as_bytes();
    offset < bytes.len() && !(offset > 0 && bytes[offset] == b'\n' && bytes[offset - 1] == b'\r')
}

#[test]
fn round_trip_on_every_valid_offset() {
    let texts = [
        "abc\ndef\nghi",
        "abc\rdef\rghi",
        "abc\r\ndef\r\nghi",
        "\n\n\r\r\n\r\n\n\ra",
        "MSH|^~\\&|a\rPID|1\r\nPV1||x\n",
        "a",
        "\r\n",
        "h\u{e9}llo\nw\u{f6}rld",
    ];
    for text in texts {
        for offset in 0..text.len() {
            if is_valid_offset(text, offset) {
                let p = position_from_offset(text, offset);
                assert_eq!(position_to_offset(text, p.line, p.character), Some(offset));
            }
        }
    }
}

#[test]
fn positions_beyond_the_text_have_no_offset() {
    assert_eq!(position_to_offset("", 0, 0), None);
    assert_eq!(position_to_offset("abc", 0, 3), None);
    assert_eq!(position_to_offset("abc", 0, 4), None);
    assert_eq!(position_to_offset("abc", 1, 0), None);
    assert_eq!(position_to_offset("abc\n", 1, 0), None);
    assert_eq!(position_to_offset("abc\ndef", 0, 7), None);
    assert_eq!(position_to_offset("abc", u32::MAX, u32::MAX), None);
}

#[test]
fn a_line_break_sits_at_the_end_of_its_line() {
    assert_eq!(position_to_offset("ab\ncd", 0, 2), Some(2));
    assert_eq!(position_to_offset("ab\r\ncd", 0, 2), Some(2));
    assert_eq!(position_to_offset("ab\r\ncd", 0, 3), None);
    assert_eq!(position_to_offset("ab\r\ncd", 1, 0), Some(4));
    assert_eq!(position_to_offset("a\n\nb", 1, 0), Some(2));
    assert_eq!(position_to_offset("a\n\rb", 2, 0), Some(3));
}

#[test]
fn crlf_is_one_line_break() {
    let text = "a\r\nb";
    assert_eq!(position_from_offset(text, 3), Position { line: 1, character: 0 });
    assert_eq!(position_from_offset("a\r\r\nb", 4), Position { line: 2, character: 0 });
    assert_eq!(position_from_offset("a\n\r\nb", 4), Position { line: 2, character: 0 });
}

#[test]
fn offsets_without_a_position_map_to_the_end() {
    let text = "abc\r\ndef";
    let end = Position { line: 1, character: 3 };
    assert_eq!(position_from_offset(text, 8), end);
    assert_eq!(position_from_offset(text, 9), end);
    assert_eq!(position_from_offset(text, usize::MAX), end);
    // the line feed of the two-byte break has no position of its own
    assert_eq!(position_from_offset(text, 4), end);
    assert_eq!(position_from_offset("", 0), Position { line: 0, character: 0 });
    assert_eq!(position_from_offset("ab\r\n", 4), Position { line: 1, character: 0 });
}

#[test]
fn columns_count_bytes() {
    let text = "h\u{e9}llo";
    assert_eq!(position_from_offset(text, 3), Position { line: 0, character: 3 });
    assert_eq!(position_to_offset(text, 0, 3), Some(3));
}

#[test]
fn range_from_offsets_maps_both_ends() {
    let text = "abc\r\ndef\r\nghi";
    let r = range_from_offsets(text, 1, 11);
    assert_eq!(r.start, Position { line: 0, character: 1 });
    assert_eq!(r.end, Position { line: 2, character: 1 });
}
