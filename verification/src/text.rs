//! Small operations on strings that the rest of the library is built from:
//! equality, suffix test, byte-wise order and decimal numerals.

use crate::order::{in_order, sort, Order};
use crate::message::Span;
use vstd::prelude::*;
use vstd::string::StringSliceAdditionalSpecFns;

verus! {

broadcast use vstd::utf8::encode_utf8_decode_utf8;

/// `suffix` stands at the end of `s`.
pub open spec fn is_suffix(s: Seq<u8>, suffix: Seq<u8>) -> bool {
    &&& suffix.len() <= s.len()
    &&& s.subrange(s.len() - suffix.len(), s.len() as int) == suffix
}

/// Lexicographic order of two byte strings: at the first index where they
/// differ the smaller byte decides, and a proper prefix comes first.
pub open spec fn lex_le(a: Seq<u8>, b: Seq<u8>) -> bool
    decreases a.len(),
{
    if a.len() == 0 {
        true
    } else if b.len() == 0 {
        false
    } else if a[0] != b[0] {
        a[0] < b[0]
    } else {
        lex_le(a.drop_first(), b.drop_first())
    }
}

/// The character of a decimal digit.
pub open spec fn digit_char(d: nat) -> char {
    if d == 0 {
        '0'
    } else if d == 1 {
        '1'
    } else if d == 2 {
        '2'
    } else if d == 3 {
        '3'
    } else if d == 4 {
        '4'
    } else if d == 5 {
        '5'
    } else if d == 6 {
        '6'
    } else if d == 7 {
        '7'
    } else if d == 8 {
        '8'
    } else {
        '9'
    }
}

/// The decimal numeral of `n`, without leading zeros.
pub open spec fn decimal_digits(n: nat) -> Seq<char>
    decreases n,
{
    if n < 10 {
        seq![digit_char(n)]
    } else {
        decimal_digits(n / 10).push(digit_char(n % 10))
    }
}

/// The first `n` of `parts`, with `separator` between each two.
pub open spec fn join_upto(parts: Seq<Seq<char>>, separator: Seq<char>, n: int) -> Seq<char>
    decreases n,
{
    if n <= 0 {
        Seq::empty()
    } else if n == 1 {
        parts[0]
    } else {
        join_upto(parts, separator, n - 1) + separator + parts[n - 1]
    }
}

/// All of `parts`, with `separator` between each two.
pub open spec fn joined(parts: Seq<Seq<char>>, separator: Seq<char>) -> Seq<char> {
    join_upto(parts, separator, parts.len() as int)
}

/// The one text of an option, or no text.
pub open spec fn optional_part(part: Option<Seq<char>>) -> Seq<Seq<char>> {
    match part {
        Some(text) => seq![text],
        None => Seq::empty(),
    }
}

/// Where two or more parts are joined, the text holds the character that
/// separates them.
pub proof fn lemma_join_holds_delimiter(parts: Seq<Seq<char>>, delimiter: char, n: int)
    requires
        2 <= n <= parts.len(),
    ensures
        join_upto(parts, seq![delimiter], n).contains(delimiter),
{
    let front = join_upto(parts, seq![delimiter], n - 1);
    let whole = join_upto(parts, seq![delimiter], n);
    assert(whole == front + seq![delimiter] + parts[n - 1]);
    assert(whole[front.len() as int] == delimiter);
}

/// A joined text that does not hold the separating character is one part.
pub proof fn lemma_join_of_one_part(parts: Seq<Seq<char>>, delimiter: char)
    requires
        parts.len() >= 1,
        !joined(parts, seq![delimiter]).contains(delimiter),
    ensures
        parts.len() == 1,
        joined(parts, seq![delimiter]) == parts[0],
{
    if parts.len() >= 2 {
        lemma_join_holds_delimiter(parts, delimiter, parts.len() as int);
    }
}

/// Two strings hold the same text exactly when they hold the same bytes.
pub proof fn lemma_bytes_decide_text(a: Seq<char>, b: Seq<char>)
    ensures
        (a == b) <==> (vstd::utf8::encode_utf8(a) == vstd::utf8::encode_utf8(b)),
{
    if vstd::utf8::encode_utf8(a) == vstd::utf8::encode_utf8(b) {
        assert(vstd::utf8::decode_utf8(vstd::utf8::encode_utf8(a)) == a);
        assert(vstd::utf8::decode_utf8(vstd::utf8::encode_utf8(b)) == b);
    }
}

/// Whether two strings hold the same text.
pub fn str_eq(a: &str, b: &str) -> (r: bool)
    ensures
        r == (a@ == b@),
{
    let x = a.as_bytes();
    let y = b.as_bytes();
    proof {
        lemma_bytes_decide_text(a@, b@);
    }
    if x.len() != y.len() {
        return false;
    }
    let mut i: usize = 0;
    while i < x.len()
        invariant
            x@ == a.spec_bytes(),
            y@ == b.spec_bytes(),
            x@.len() == y@.len(),
            i <= x@.len(),
            forall|j: int| 0 <= j < i ==> x@[j] == y@[j],
        decreases x@.len() - i,
    {
        if x[i] != y[i] {
            return false;
        }
        i += 1;
    }
    assert(x@ =~= y@);
    true
}

/// Whether the bytes of `suffix` stand at the end of `s`.
pub fn ends_with(s: &str, suffix: &str) -> (r: bool)
    ensures
        r == is_suffix(s.spec_bytes(), suffix.spec_bytes()),
{
    let x = s.as_bytes();
    let y = suffix.as_bytes();
    if y.len() > x.len() {
        return false;
    }
    let skip = x.len() - y.len();
    let mut i: usize = 0;
    while i < y.len()
        invariant
            x@ == s.spec_bytes(),
            y@ == suffix.spec_bytes(),
            y@.len() <= x@.len(),
            skip == x@.len() - y@.len(),
            x@.len() <= usize::MAX,
            i <= y@.len(),
            forall|j: int| 0 <= j < i ==> x@[skip + j] == y@[j],
        decreases y@.len() - i,
    {
        if x[skip + i] != y[i] {
            assert(x@.subrange(skip as int, x@.len() as int)[i as int] != y@[i as int]);
            return false;
        }
        i += 1;
    }
    assert(x@.subrange(skip as int, x@.len() as int) =~= y@);
    true
}

proof fn lemma_lex_le_suffix(a: Seq<u8>, b: Seq<u8>, i: int)
    requires
        0 <= i <= a.len(),
        i <= b.len(),
        forall|j: int| 0 <= j < i ==> a[j] == b[j],
    ensures
        lex_le(a, b) == lex_le(a.subrange(i, a.len() as int), b.subrange(i, b.len() as int)),
    decreases i,
{
    if i == 0 {
        assert(a.subrange(0, a.len() as int) =~= a);
        assert(b.subrange(0, b.len() as int) =~= b);
    } else {
        lemma_lex_le_suffix(a.drop_first(), b.drop_first(), i - 1);
        assert(a.drop_first().subrange(i - 1, a.len() - 1) =~= a.subrange(i, a.len() as int));
        assert(b.drop_first().subrange(i - 1, b.len() - 1) =~= b.subrange(i, b.len() as int));
    }
}

/// Of two byte strings one comes before the other, or they are equal.
pub proof fn lemma_lex_le_total(a: Seq<u8>, b: Seq<u8>)
    ensures
        lex_le(a, b) || lex_le(b, a),
    decreases a.len(),
{
    if a.len() > 0 && b.len() > 0 && a[0] == b[0] {
        lemma_lex_le_total(a.drop_first(), b.drop_first());
    }
}

/// Whether `a` comes before `b`, or equals it, in the byte-wise
/// lexicographic order.
pub fn str_le(a: &str, b: &str) -> (r: bool)
    ensures
        r == lex_le(a.spec_bytes(), b.spec_bytes()),
{
    let x = a.as_bytes();
    let y = b.as_bytes();
    let mut i: usize = 0;
    while i < x.len() && i < y.len()
        invariant
            x@ == a.spec_bytes(),
            y@ == b.spec_bytes(),
            i <= x@.len(),
            i <= y@.len(),
            forall|j: int| 0 <= j < i ==> x@[j] == y@[j],
        decreases x@.len() - i,
    {
        if x[i] != y[i] {
            proof {
                lemma_lex_le_suffix(x@, y@, i as int);
            }
            return x[i] < y[i];
        }
        i += 1;
    }
    proof {
        lemma_lex_le_suffix(x@, y@, i as int);
    }
    i == x.len()
}

/// The numeral of one decimal digit.
fn digit_str(d: usize) -> (r: &'static str)
    requires
        d < 10,
    ensures
        r@ == seq![digit_char(d as nat)],
{
    proof {
        reveal_strlit("0");
        reveal_strlit("1");
        reveal_strlit("2");
        reveal_strlit("3");
        reveal_strlit("4");
        reveal_strlit("5");
        reveal_strlit("6");
        reveal_strlit("7");
        reveal_strlit("8");
        reveal_strlit("9");
    }
    let r = if d == 0 {
        "0"
    } else if d == 1 {
        "1"
    } else if d == 2 {
        "2"
    } else if d == 3 {
        "3"
    } else if d == 4 {
        "4"
    } else if d == 5 {
        "5"
    } else if d == 6 {
        "6"
    } else if d == 7 {
        "7"
    } else if d == 8 {
        "8"
    } else {
        "9"
    };
    assert(r@ =~= seq![digit_char(d as nat)]);
    r
}

/// The decimal numeral of `n`.
pub fn decimal(n: usize) -> (r: String)
    ensures
        r@ == decimal_digits(n as nat),
    decreases n,
{
    if n < 10 {
        String::from_str(digit_str(n))
    } else {
        let mut s = decimal(n / 10);
        s.append(digit_str(n % 10));
        assert(s@ =~= decimal_digits(n as nat));
        s
    }
}

/// Appends one text to a list of texts.
pub fn push_text(parts: &mut Vec<String>, text: String)
    ensures
        final(parts).deep_view() == old(parts).deep_view().push(text@),
{
    parts.push(text);
    assert(parts.deep_view() =~= old(parts).deep_view().push(text@));
}

/// Appends the text of an option, if it holds one, to a list of texts.
pub fn push_optional(parts: &mut Vec<String>, part: Option<String>)
    ensures
        final(parts).deep_view() == old(parts).deep_view() + optional_part(part.deep_view()),
{
    match part {
        Some(text) => {
            push_text(parts, text);
            assert(parts.deep_view() =~= old(parts).deep_view() + optional_part(
                part.deep_view(),
            ));
        },
        None => {
            assert(parts.deep_view() =~= old(parts).deep_view() + optional_part(
                part.deep_view(),
            ));
        },
    }
}

/// The texts of `parts` in order, with `separator` between each two.
pub fn join(parts: &Vec<String>, separator: &str) -> (r: String)
    ensures
        r@ == joined(parts.deep_view(), separator@),
{
    let mut r = String::new();
    let mut i: usize = 0;
    while i < parts.len()
        invariant
            i <= parts@.len(),
            r@ == join_upto(parts.deep_view(), separator@, i as int),
        decreases parts@.len() - i,
    {
        if i > 0 {
            r.append(separator);
        }
        r.append(parts[i].as_str());
        i += 1;
        assert(r@ =~= join_upto(parts.deep_view(), separator@, i as int));
    }
    r
}

/// Whether two lists hold the same texts in the same order.
pub fn texts_eq(a: &Vec<String>, b: &Vec<String>) -> (r: bool)
    ensures
        r == (a.deep_view() == b.deep_view()),
{
    if a.len() != b.len() {
        assert(a.deep_view().len() != b.deep_view().len());
        return false;
    }
    let mut i: usize = 0;
    while i < a.len()
        invariant
            a@.len() == b@.len(),
            i <= a@.len(),
            forall|j: int| 0 <= j < i ==> a@[j]@ == b@[j]@,
        decreases a@.len() - i,
    {
        if !str_eq(a[i].as_str(), b[i].as_str()) {
            assert(a.deep_view()[i as int] != b.deep_view()[i as int]);
            return false;
        }
        i += 1;
    }
    assert(a.deep_view() =~= b.deep_view());
    true
}

/// Whether two options hold the same text, or both none.
pub fn optional_text_eq(a: &Option<String>, b: &Option<String>) -> (r: bool)
    ensures
        r == (a.deep_view() == b.deep_view()),
{
    match (a, b) {
        (Some(x), Some(y)) => str_eq(x.as_str(), y.as_str()),
        (None, None) => true,
        _ => false,
    }
}

/// Whether two lists hold the same pairs of texts in the same order.
pub fn pairs_eq(a: &Vec<(String, String)>, b: &Vec<(String, String)>) -> (r: bool)
    ensures
        r == (a.deep_view() == b.deep_view()),
{
    if a.len() != b.len() {
        assert(a.deep_view().len() != b.deep_view().len());
        return false;
    }
    let mut i: usize = 0;
    while i < a.len()
        invariant
            a@.len() == b@.len(),
            i <= a@.len(),
            forall|j: int| 0 <= j < i ==> a@[j].deep_view() == b@[j].deep_view(),
        decreases a@.len() - i,
    {
        if !str_eq(a[i].0.as_str(), b[i].0.as_str()) || !str_eq(a[i].1.as_str(), b[i].1.as_str()) {
            assert(a.deep_view()[i as int] != b.deep_view()[i as int]);
            return false;
        }
        i += 1;
    }
    assert(a.deep_view() =~= b.deep_view());
    true
}

/// A copy of a list of pairs of texts.
pub fn copy_pairs(values: &Vec<(String, String)>) -> (r: Vec<(String, String)>)
    ensures
        r.deep_view() == values.deep_view(),
{
    let mut r: Vec<(String, String)> = Vec::new();
    let mut i: usize = 0;
    while i < values.len()
        invariant
            i <= values@.len(),
            r@.len() == i,
            forall|j: int| 0 <= j < i ==> r@[j].deep_view() == values@[j].deep_view(),
        decreases values@.len() - i,
    {
        r.push((values[i].0.clone(), values[i].1.clone()));
        i += 1;
    }
    assert(r.deep_view() =~= values.deep_view());
    r
}

/// The byte-wise lexicographic order of texts.
pub struct ByText;

impl Order<String> for ByText {
    open spec fn le(a: Seq<char>, b: Seq<char>) -> bool {
        lex_le(vstd::utf8::encode_utf8(a), vstd::utf8::encode_utf8(b))
    }

    proof fn lemma_total(a: Seq<char>, b: Seq<char>) {
        lemma_lex_le_total(vstd::utf8::encode_utf8(a), vstd::utf8::encode_utf8(b));
    }

    fn compare(a: &String, b: &String) -> (r: bool) {
        str_le(a.as_str(), b.as_str())
    }
}

/// Texts in their byte-wise lexicographic order.
pub open spec fn sorted_texts(texts: Seq<Seq<char>>) -> Seq<Seq<char>> {
    in_order::<String, ByText>(texts)
}

/// The texts in their byte-wise lexicographic order.
pub fn sort_texts(texts: Vec<String>) -> (r: Vec<String>)
    ensures
        r.deep_view() == sorted_texts(texts.deep_view()),
{
    sort::<String, ByText>(texts)
}

/// The bytes of a text within a byte range, where the range lies in the text
/// and begins and ends between characters.
pub open spec fn selection(text: Seq<u8>, span: Span) -> Option<Seq<u8>> {
    if span.start <= span.end <= text.len() && vstd::utf8::is_char_boundary(
        text,
        span.start as int,
    ) && vstd::utf8::is_char_boundary(text, span.end as int) {
        Some(text.subrange(span.start as int, span.end as int))
    } else {
        None
    }
}

/// The part of a text within a byte range, or `None` where the range does not
/// lie in the text or cuts a character.
pub fn select<'a>(text: &'a str, span: Span) -> (r: Option<&'a str>)
    ensures
        match r {
            Some(s) => selection(text.spec_bytes(), span) == Some(s.spec_bytes()),
            None => selection(text.spec_bytes(), span) is None,
        },
{
    let n = text.as_bytes().len();
    if span.start <= span.end && span.end <= n && text.is_char_boundary(span.start)
        && text.is_char_boundary(span.end) {
        let (front, _) = text.split_at(span.end);
        if front.is_char_boundary(span.start) {
            let (_, part) = front.split_at(span.start);
            assert(part.spec_bytes() =~= text.spec_bytes().subrange(
                span.start as int,
                span.end as int,
            ));
            Some(part)
        } else {
            proof {
                vstd::utf8::encode_utf8_valid_utf8(text@);
                lemma_boundary_in_front(text.spec_bytes(), span.start as int, span.end as int);
            }
            None
        }
    } else {
        None
    }
}

/// A place between characters of a text is one of the front of the text too.
proof fn lemma_boundary_in_front(text: Seq<u8>, index: int, end: int)
    requires
        vstd::utf8::valid_utf8(text),
        0 <= index <= end <= text.len(),
        vstd::utf8::is_char_boundary(text, index),
        vstd::utf8::is_char_boundary(text, end),
    ensures
        vstd::utf8::is_char_boundary(text.subrange(0, end), index),
{
    let front = text.subrange(0, end);
    vstd::utf8::valid_utf8_split(text, end);
    if index == end {
        vstd::utf8::is_char_boundary_start_end_of_seq(front);
    } else {
        vstd::utf8::is_char_boundary_iff_not_is_continuation_byte(text, index);
        vstd::utf8::is_char_boundary_iff_not_is_continuation_byte(front, index);
    }
}

/// Calls `String::push`, which appends the given character to the end of
/// the text and leaves what the text held before as it was.
#[verifier::external_body]
pub(crate) fn push_char(text: &mut String, c: char)
    ensures
        final(text)@ == old(text)@.push(c),
{
    text.push(c);
}

} // verus!
