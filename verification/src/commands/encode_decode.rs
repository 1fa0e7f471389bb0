//! Encoding the delimiters in a text as escape sequences, and decoding them.
//! Decoding is done by the `hl7-parser` crate.

use crate::code_actions::{needs_decoding, requires_decoding, Separators};
use crate::text::{push_char, select};
use crate::utils::{lsp_range_to_std_range, span_between, Range};
use vstd::prelude::*;
use vstd::string::StringSliceAdditionalSpecFns;

verus! {

/// A letter sequence between two escape characters.
pub open spec fn escape_sequence(letters: Seq<char>, separators: Separators) -> Seq<char> {
    seq![separators.escape] + letters + seq![separators.escape]
}

/// How one character is encoded: a line break, a delimiter and the escape
/// character each as its escape sequence, any other character as it is.
pub open spec fn encoded_char(c: char, separators: Separators) -> Seq<char> {
    if c == '\r' {
        escape_sequence("X0D"@, separators)
    } else if c == '\n' {
        escape_sequence("X0A"@, separators)
    } else if c == separators.field {
        escape_sequence("F"@, separators)
    } else if c == separators.repetition {
        escape_sequence("R"@, separators)
    } else if c == separators.component {
        escape_sequence("S"@, separators)
    } else if c == separators.subcomponent {
        escape_sequence("T"@, separators)
    } else if c == separators.escape {
        escape_sequence("E"@, separators)
    } else {
        seq![c]
    }
}

/// A text with each of its first `n` characters encoded.
pub open spec fn encoded_upto(value: Seq<char>, separators: Separators, n: int) -> Seq<char>
    decreases n,
{
    if n <= 0 {
        Seq::empty()
    } else {
        encoded_upto(value, separators, n - 1) + encoded_char(value[n - 1], separators)
    }
}

/// A text with each of its characters encoded.
pub open spec fn encoded_text(value: Seq<char>, separators: Separators) -> Seq<char> {
    encoded_upto(value, separators, value.len() as int)
}

/// What `hl7_parser::message::Separators::decode` makes of a text that it
/// can decode, for the given delimiters.
pub uninterp spec fn decoded_text(value: Seq<char>, separators: Separators) -> Seq<char>;

/// A text can be decoded where it holds ASCII characters only, or where it
/// does not hold the escape character.
pub open spec fn can_decode(value: Seq<char>, separators: Separators) -> bool {
    vstd::utf8::is_ascii_chars(value) || !needs_decoding(value, separators)
}

/// Renders `hl7_parser::message::Separators::decode` of `value` as text. The
/// outside function cuts the text between two escape characters by counts of
/// characters where bytes are meant, so it is called only for texts of ASCII
/// characters, where the two agree, and for texts without the escape
/// character, which it never cuts and writes out as they are. Its outcome
/// depends on the text and the delimiters alone: the contract names it, and
/// says what it is for a text without the escape character.
#[verifier::external_body]
pub(crate) fn decode(separators: &Separators, value: &str) -> (r: String)
    requires
        can_decode(value@, *separators),
    ensures
        r@ == decoded_text(value@, *separators),
        !needs_decoding(value@, *separators) ==> r@ == value@,
{
    let outside = hl7_parser::message::Separators {
        field: separators.field,
        component: separators.component,
        subcomponent: separators.subcomponent,
        repetition: separators.repetition,
        escape: separators.escape,
        lenient_newlines: false,
    };
    outside.decode(value).to_string()
}

/// Appends a letter sequence between two escape characters.
fn push_escape_sequence(text: &mut String, letters: &str, separators: &Separators)
    ensures
        final(text)@ == old(text)@ + escape_sequence(letters@, *separators),
{
    push_char(text, separators.escape);
    text.append(letters);
    push_char(text, separators.escape);
    assert(text@ =~= old(text)@ + escape_sequence(letters@, *separators));
}

/// Appends one character as it is encoded.
fn push_encoded(text: &mut String, c: char, separators: &Separators)
    ensures
        final(text)@ == old(text)@ + encoded_char(c, *separators),
{
    if c == '\r' {
        push_escape_sequence(text, "X0D", separators);
    } else if c == '\n' {
        push_escape_sequence(text, "X0A", separators);
    } else if c == separators.field {
        push_escape_sequence(text, "F", separators);
    } else if c == separators.repetition {
        push_escape_sequence(text, "R", separators);
    } else if c == separators.component {
        push_escape_sequence(text, "S", separators);
    } else if c == separators.subcomponent {
        push_escape_sequence(text, "T", separators);
    } else if c == separators.escape {
        push_escape_sequence(text, "E", separators);
    } else {
        push_char(text, c);
        assert(text@ =~= old(text)@ + seq![c]);
    }
}

/// A text with its delimiters encoded.
pub fn encode_text(separators: &Separators, value: &str) -> (r: String)
    ensures
        r@ == encoded_text(value@, *separators),
{
    let mut encoded = String::new();
    assert(encoded@ =~= encoded_upto(value@, *separators, 0));
    for c in it: value.chars()
        invariant
            it.seq() == value@,
            encoded@ == encoded_upto(value@, *separators, it.index() as int),
    {
        let ghost before = encoded@;
        push_encoded(&mut encoded, c, separators);
        assert(encoded@ == encoded_upto(value@, *separators, it.index() + 1));
    }
    encoded
}

/// A text with its escape sequences decoded; `None` for a text that cannot
/// be decoded: one that holds the escape character and other than ASCII
/// characters. A text without the escape character is decoded as it is.
pub fn decode_text(separators: &Separators, value: &str) -> (r: Option<String>)
    ensures
        r.deep_view() == if can_decode(value@, *separators) {
            Some(decoded_text(value@, *separators))
        } else {
            None
        },
        !needs_decoding(value@, *separators) ==> r.deep_view() == Some(value@),
{
    if value.is_ascii() || !requires_decoding(value, separators) {
        Some(decode(separators, value))
    } else {
        None
    }
}

/// The bytes of `text` between two positions, where both are positions of
/// bytes of the text and the bytes between them are whole characters.
pub open spec fn selected_bytes(text: Seq<u8>, range: Range) -> Option<Seq<u8>> {
    match span_between(text, range) {
        Some(span) => crate::text::selection(text, span),
        None => None,
    }
}

/// The text between two positions.
pub fn selected_text<'a>(text: &'a str, range: Range) -> (r: Option<&'a str>)
    ensures
        match r {
            Some(s) => selected_bytes(text.spec_bytes(), range) == Some(s.spec_bytes()),
            None => selected_bytes(text.spec_bytes(), range) is None,
        },
{
    match lsp_range_to_std_range(text, range) {
        Some(span) => select(text, span),
        None => None,
    }
}

/// The text between two positions with its delimiters encoded, `None` where
/// the positions select no text.
pub fn encode_selection(text: &str, range: Range, separators: &Separators) -> (r: Option<String>)
    ensures
        match r {
            Some(encoded) => selected_bytes(text.spec_bytes(), range) is Some
                && encoded@ == encoded_text(
                vstd::utf8::decode_utf8(selected_bytes(text.spec_bytes(), range)->0),
                *separators,
            ),
            None => selected_bytes(text.spec_bytes(), range) is None,
        },
{
    broadcast use vstd::utf8::encode_utf8_decode_utf8;

    match selected_text(text, range) {
        Some(s) => {
            assert(vstd::utf8::decode_utf8(s.spec_bytes()) == s@);
            Some(encode_text(separators, s))
        },
        None => None,
    }
}

/// The text between two positions with its escape sequences decoded, `None`
/// where the positions select no text, or a text that cannot be decoded.
pub fn decode_selection(text: &str, range: Range, separators: &Separators) -> (r: Option<String>)
    ensures
        match r {
            Some(decoded) => selected_bytes(text.spec_bytes(), range) is Some && {
                let selected = vstd::utf8::decode_utf8(
                    selected_bytes(text.spec_bytes(), range)->0,
                );
                can_decode(selected, *separators) && decoded@ == decoded_text(
                    selected,
                    *separators,
                )
            },
            None => selected_bytes(text.spec_bytes(), range) is None || !can_decode(
                vstd::utf8::decode_utf8(selected_bytes(text.spec_bytes(), range)->0),
                *separators,
            ),
        },
{
    broadcast use vstd::utf8::encode_utf8_decode_utf8;

    match selected_text(text, range) {
        Some(s) => {
            assert(vstd::utf8::decode_utf8(s.spec_bytes()) == s@);
            decode_text(separators, s)
        },
        None => None,
    }
}

} // verus!
