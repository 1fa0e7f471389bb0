//! The order of version names by their numbers: `2.10` comes after `2.9`,
//! and `2.7` counts as `2.7.0`.

use crate::order::{in_order, sort, Order};
use vstd::prelude::*;
use vstd::string::StringSliceAdditionalSpecFns;

verus! {

pub open spec fn is_digit(b: u8) -> bool {
    48 <= b <= 57
}

/// The number that the digits of `s` from `from` up to `to` denote, `None`
/// where there is none of them or one of them is no digit.
pub open spec fn digits_value(s: Seq<u8>, from: int, to: int) -> Option<nat>
    decreases to - from,
{
    if from >= to {
        None
    } else if !is_digit(s[to - 1]) {
        None
    } else if from == to - 1 {
        Some((s[to - 1] - 48) as nat)
    } else {
        match digits_value(s, from, to - 1) {
            Some(v) => Some(v * 10 + (s[to - 1] - 48) as nat),
            None => None,
        }
    }
}

/// The number of a piece of a version name: that of its digits, which a plus
/// sign may precede; zero for a piece that is no such numeral, or whose
/// number is above the greatest of 32 bits.
pub open spec fn piece_number(s: Seq<u8>, from: int, to: int) -> u32 {
    let digits = if from < to && s[from] == 43 {
        from + 1
    } else {
        from
    };
    match digits_value(s, digits, to) {
        Some(v) => if v <= u32::MAX {
            v as u32
        } else {
            0
        },
        None => 0,
    }
}

/// The index of the first dot at or after `from`, the length of `s` where
/// there is none.
pub open spec fn piece_end(s: Seq<u8>, from: int) -> int
    decreases s.len() - from,
{
    if from >= s.len() {
        s.len() as int
    } else if s[from] == 46 {
        from
    } else {
        piece_end(s, from + 1)
    }
}

/// The numbers of the pieces of `s` from `from` on, the pieces being what
/// stands between dots.
pub open spec fn piece_numbers(s: Seq<u8>, from: int) -> Seq<u32>
    decreases s.len() - from,
{
    if from < 0 || from > s.len() {
        Seq::empty()
    } else {
        let end = piece_end(s, from);
        if from <= end < s.len() {
            seq![piece_number(s, from, end)] + piece_numbers(s, end + 1)
        } else {
            seq![piece_number(s, from, end)]
        }
    }
}

/// The numbers a version name is ordered by: those of its pieces, and a zero
/// behind them where there are two.
pub open spec fn version_key(s: Seq<u8>) -> Seq<u32> {
    let numbers = piece_numbers(s, 0);
    if numbers.len() == 2 {
        numbers.push(0)
    } else {
        numbers
    }
}

/// The lexicographic order of lists of numbers from index `from` on: the
/// first number that differs decides, and a list comes before its extensions.
pub open spec fn numbers_le(a: Seq<u32>, b: Seq<u32>, from: int) -> bool
    decreases a.len() - from,
{
    if from < 0 || from >= a.len() {
        true
    } else if from >= b.len() {
        false
    } else if a[from] != b[from] {
        a[from] < b[from]
    } else {
        numbers_le(a, b, from + 1)
    }
}

/// The version `a` comes before the version `b`, or counts the same.
pub open spec fn version_le(a: Seq<char>, b: Seq<char>) -> bool {
    numbers_le(
        version_key(vstd::utf8::encode_utf8(a)),
        version_key(vstd::utf8::encode_utf8(b)),
        0,
    )
}

/// Of two lists of numbers one comes before the other, or they are equal.
pub proof fn lemma_numbers_le_total(a: Seq<u32>, b: Seq<u32>, from: int)
    requires
        0 <= from,
    ensures
        numbers_le(a, b, from) || numbers_le(b, a, from),
    decreases a.len() - from,
{
    if from < a.len() && from < b.len() && a[from] == b[from] {
        lemma_numbers_le_total(a, b, from + 1);
    }
}

/// Where a piece ends, when no dot stands between `from` and `end`.
proof fn lemma_piece_end_is(s: Seq<u8>, from: int, end: int)
    requires
        0 <= from <= end <= s.len(),
        forall|j: int| from <= j < end ==> s[j] != 46,
        end == s.len() || s[end] == 46,
    ensures
        piece_end(s, from) == end,
    decreases end - from,
{
    if from < end {
        lemma_piece_end_is(s, from + 1, end);
    }
}

/// A numeral that goes on behind digits above the greatest number of 32 bits
/// denotes no smaller number.
proof fn lemma_digits_value_grows(s: Seq<u8>, from: int, mid: int, to: int)
    requires
        from < mid <= to,
        digits_value(s, from, mid) is Some,
        digits_value(s, from, to) is Some,
    ensures
        digits_value(s, from, mid)->0 <= digits_value(s, from, to)->0,
    decreases to - mid,
{
    if mid < to {
        assert(digits_value(s, from, to - 1) is Some);
        lemma_digits_value_grows(s, from, mid, to - 1);
    }
}

/// A numeral with a byte that is no digit denotes nothing.
proof fn lemma_digits_value_none(s: Seq<u8>, from: int, bad: int, to: int)
    requires
        from <= bad < to,
        !is_digit(s[bad]),
    ensures
        digits_value(s, from, to) is None,
    decreases to - bad,
{
    if bad < to - 1 {
        lemma_digits_value_none(s, from, bad, to - 1);
    }
}

/// The number of the piece of `s` from `from` up to `to`.
fn parse_piece(s: &[u8], from: usize, to: usize) -> (r: u32)
    requires
        from <= to <= s@.len(),
    ensures
        r == piece_number(s@, from as int, to as int),
{
    let digits = if from < to && s[from] == 43 {
        from + 1
    } else {
        from
    };
    if digits >= to {
        return 0;
    }
    let mut value: u64 = 0;
    let mut i: usize = digits;
    while i < to
        invariant
            digits <= i <= to <= s@.len(),
            digits < to,
            from <= to,
            digits == if from < to && s@[from as int] == 43 {
                from + 1
            } else {
                from as int
            },
            value <= u32::MAX,
            i == digits ==> value == 0,
            i > digits ==> digits_value(s@, digits as int, i as int) == Some(value as nat),
        decreases to - i,
    {
        let b = s[i];
        if !(48 <= b && b <= 57) {
            proof {
                lemma_digits_value_none(s@, digits as int, i as int, to as int);
            }
            return 0;
        }
        let next = value * 10 + (b - 48) as u64;
        assert(digits_value(s@, digits as int, i + 1) == Some(next as nat));
        if next > 0xffff_ffff {
            proof {
                if digits_value(s@, digits as int, to as int) is Some {
                    lemma_digits_value_grows(s@, digits as int, i + 1, to as int);
                }
            }
            return 0;
        }
        value = next;
        i += 1;
    }
    value as u32
}

/// The numbers a version name is ordered by.
pub fn version_numbers(version: &str) -> (r: Vec<u32>)
    ensures
        r@ == version_key(version.spec_bytes()),
{
    let s = version.as_bytes();
    let mut numbers: Vec<u32> = Vec::new();
    let mut from: usize = 0;
    let mut done = false;
    while !done
        invariant
            s@ == version.spec_bytes(),
            from <= s@.len(),
            !done ==> piece_numbers(s@, 0) == numbers@ + piece_numbers(s@, from as int),
            done ==> piece_numbers(s@, 0) == numbers@,
        decreases s@.len() - from + if done { 0int } else { 1int },
    {
        let mut end = from;
        while end < s.len() && s[end] != 46
            invariant
                from <= end <= s@.len(),
                forall|j: int| from <= j < end ==> s@[j] != 46,
            decreases s@.len() - end,
        {
            end += 1;
        }
        proof {
            lemma_piece_end_is(s@, from as int, end as int);
        }
        let number = parse_piece(s, from, end);
        let ghost before = numbers@;
        numbers.push(number);
        if end < s.len() {
            assert(numbers@ + piece_numbers(s@, end + 1) =~= before + piece_numbers(
                s@,
                from as int,
            ));
            from = end + 1;
        } else {
            assert(numbers@ =~= before + piece_numbers(s@, from as int));
            done = true;
        }
    }
    if numbers.len() == 2 {
        numbers.push(0);
    }
    numbers
}

/// Whether the numbers `a` come before the numbers `b`, or equal them.
fn numbers_before(a: &Vec<u32>, b: &Vec<u32>) -> (r: bool)
    ensures
        r == numbers_le(a@, b@, 0),
{
    let mut i: usize = 0;
    while i < a.len() && i < b.len()
        invariant
            i <= a@.len(),
            i <= b@.len(),
            numbers_le(a@, b@, 0) == numbers_le(a@, b@, i as int),
        decreases a@.len() - i,
    {
        if a[i] != b[i] {
            return a[i] < b[i];
        }
        i += 1;
    }
    i >= a.len()
}

/// The order of version names by their numbers.
pub struct ByVersion;

impl Order<String> for ByVersion {
    open spec fn le(a: Seq<char>, b: Seq<char>) -> bool {
        version_le(a, b)
    }

    proof fn lemma_total(a: Seq<char>, b: Seq<char>) {
        lemma_numbers_le_total(
            version_key(vstd::utf8::encode_utf8(a)),
            version_key(vstd::utf8::encode_utf8(b)),
            0,
        );
    }

    fn compare(a: &String, b: &String) -> (r: bool) {
        numbers_before(&version_numbers(a.as_str()), &version_numbers(b.as_str()))
    }
}

/// Version names in the order of their numbers; names that count the same
/// keep their order.
pub open spec fn sorted_versions(versions: Seq<Seq<char>>) -> Seq<Seq<char>> {
    in_order::<String, ByVersion>(versions)
}

/// The version names in the order of their numbers.
pub fn sort_versions(versions: Vec<String>) -> (r: Vec<String>)
    ensures
        r.deep_view() == sorted_versions(versions.deep_view()),
{
    sort::<String, ByVersion>(versions)
}

} // verus!
