//! The texts that denote a real number: an optional sign, then decimal
//! digits with an optional point, at least one digit in all, and an optional
//! exponent.

use vstd::prelude::*;
use vstd::string::StringSliceAdditionalSpecFns;

verus! {

pub open spec fn is_digit(b: u8) -> bool {
    48 <= b <= 57
}

pub open spec fn is_sign(b: u8) -> bool {
    b == 43 || b == 45
}

pub open spec fn is_point(b: u8) -> bool {
    b == 46
}

pub open spec fn is_exponent_mark(b: u8) -> bool {
    b == 101 || b == 69
}

/// The number of digits that stand in a row from `from` on.
pub open spec fn digit_run(s: Seq<u8>, from: int) -> int
    decreases s.len() - from,
{
    if 0 <= from < s.len() && is_digit(s[from]) {
        1 + digit_run(s, from + 1)
    } else {
        0
    }
}

/// From `from` to its end, `s` is an exponent: the mark, an optional sign,
/// and at least one digit.
pub open spec fn is_exponent(s: Seq<u8>, from: int) -> bool {
    &&& 0 <= from < s.len()
    &&& is_exponent_mark(s[from])
    &&& {
        let digits = if from + 1 < s.len() && is_sign(s[from + 1]) {
            from + 2
        } else {
            from + 1
        };
        digit_run(s, digits) >= 1 && digits + digit_run(s, digits) == s.len()
    }
}

/// From `from` to its end, `s` is a decimal numeral: digits, an optional
/// point with digits behind it, at least one digit in all, and an optional
/// exponent.
pub open spec fn is_decimal(s: Seq<u8>, from: int) -> bool {
    let whole = digit_run(s, from);
    let point = from + whole;
    let has_point = point < s.len() && is_point(s[point]);
    let fraction = if has_point {
        digit_run(s, point + 1)
    } else {
        0
    };
    let rest = if has_point {
        point + 1 + fraction
    } else {
        point
    };
    whole + fraction >= 1 && (rest == s.len() || is_exponent(s, rest))
}

/// The text denotes a real number: a decimal numeral behind an optional sign.
/// No word stands for a number, so not `inf`, `infinity` or `nan` either.
pub open spec fn is_real_number(s: Seq<u8>) -> bool {
    let from: int = if s.len() > 0 && is_sign(s[0]) {
        1
    } else {
        0
    };
    from < s.len() && is_decimal(s, from)
}

/// Digits with a letter behind them are no number.
pub proof fn lemma_digits_and_a_letter_are_no_number()
    ensures
        !is_real_number(vstd::utf8::encode_utf8("12a"@)),
{
    reveal_strlit("12a");
    let text = "12a"@;
    assert(text.len() == 3);
    assert(text[0] == '1' && text[1] == '2' && text[2] == 'a');
    vstd::utf8::is_ascii_chars_encode_utf8(text);
    let s = vstd::utf8::encode_utf8(text);
    assert(s.len() == 3);
    assert(s[0] == 49 && s[1] == 50 && s[2] == 97);
    reveal_with_fuel(digit_run, 4);
    assert(digit_run(s, 0) == 2);
}

/// Where a run of digits ends, counted through its digits.
proof fn lemma_digit_run_split(s: Seq<u8>, from: int, to: int)
    requires
        0 <= from <= to <= s.len(),
        forall|j: int| from <= j < to ==> is_digit(s[j]),
    ensures
        digit_run(s, from) == (to - from) + digit_run(s, to),
    decreases to - from,
{
    if from < to {
        lemma_digit_run_split(s, from + 1, to);
    }
}

/// The index behind the digits that stand in a row from `from` on.
fn skip_digits(s: &[u8], from: usize) -> (r: usize)
    requires
        from <= s@.len(),
    ensures
        r == from + digit_run(s@, from as int),
        from <= r <= s@.len(),
{
    let mut i = from;
    while i < s.len() && 48 <= s[i] && s[i] <= 57
        invariant
            from <= i <= s@.len(),
            forall|j: int| from <= j < i ==> is_digit(s@[j]),
        decreases s@.len() - i,
    {
        i += 1;
    }
    proof {
        lemma_digit_run_split(s@, from as int, i as int);
    }
    i
}

/// Whether `s` from `from` on is an exponent.
fn matches_exponent(s: &[u8], from: usize) -> (r: bool)
    requires
        from <= s@.len(),
    ensures
        r == is_exponent(s@, from as int),
{
    if from >= s.len() || !(s[from] == 101 || s[from] == 69) {
        return false;
    }
    let digits = if from + 1 < s.len() && (s[from + 1] == 43 || s[from + 1] == 45) {
        from + 2
    } else {
        from + 1
    };
    let end = skip_digits(s, digits);
    end > digits && end == s.len()
}

/// Whether `s` from `from` on is a decimal numeral.
fn matches_decimal(s: &[u8], from: usize) -> (r: bool)
    requires
        from <= s@.len(),
    ensures
        r == is_decimal(s@, from as int),
{
    let point = skip_digits(s, from);
    let whole = point - from;
    let has_point = point < s.len() && s[point] == 46;
    let rest = if has_point {
        skip_digits(s, point + 1)
    } else {
        point
    };
    let fraction = if has_point {
        rest - (point + 1)
    } else {
        0
    };
    if whole == 0 && fraction == 0 {
        return false;
    }
    rest == s.len() || matches_exponent(s, rest)
}

/// Whether the text denotes a real number.
pub fn is_number(value: &str) -> (r: bool)
    ensures
        r == is_real_number(value.spec_bytes()),
{
    let s = value.as_bytes();
    let from: usize = if s.len() > 0 && (s[0] == 43 || s[0] == 45) {
        1
    } else {
        0
    };
    if from >= s.len() {
        return false;
    }
    matches_decimal(s, from)
}

} // verus!
