//! Strict parsing of timestamp, date and time values, done by the
//! `hl7-parser` crate. Only the outcome is used: whether a value parses, and the text of
//! the error where it does not.

use vstd::prelude::*;

verus! {

/// The error text with which `hl7_parser::datetime::parse_timestamp` refuses
/// `value` when trailing characters are not allowed; `None` where it accepts.
pub uninterp spec fn timestamp_parse_error(value: Seq<char>) -> Option<Seq<char>>;

/// The error text with which `hl7_parser::datetime::parse_date` refuses
/// `value` when trailing characters are not allowed; `None` where it accepts.
pub uninterp spec fn date_parse_error(value: Seq<char>) -> Option<Seq<char>>;

/// The error text with which `hl7_parser::datetime::parse_time` refuses
/// `value` when trailing characters are not allowed; `None` where it accepts.
pub uninterp spec fn time_parse_error(value: Seq<char>) -> Option<Seq<char>>;

/// A date as it is written: a year of four digits, then a month of two
/// digits if one follows, then a day of two digits if one follows, and
/// nothing else.
pub open spec fn is_date_text(value: Seq<char>) -> bool {
    &&& value.len() == 4 || value.len() == 6 || value.len() == 8
    &&& forall|i: int| 0 <= i < value.len() ==> '0' <= #[trigger] value[i] <= '9'
}

/// Calls `hl7_parser::datetime::parse_timestamp(value, false)`, which reads a
/// year and then as many of month, day, hour, minute, second, fraction and
/// offset as follow, and fails on what is left over. The call has no effect
/// and its outcome depends on `value` alone: the contract names that outcome,
/// the error rendered as text, and claims nothing else of it.
#[verifier::external_body]
pub(crate) fn timestamp_error(value: &str) -> (r: Option<String>)
    ensures
        r.deep_view() == timestamp_parse_error(value@),
{
    match hl7_parser::datetime::parse_timestamp(value, false) {
        Ok(_) => None,
        Err(e) => Some(format!("{e:#}")),
    }
}

/// Calls `hl7_parser::datetime::parse_date(value, false)`, which reads four
/// ASCII digits as the year, then two as the month and two as the day if they
/// follow, and fails where the year is missing or anything is left over, a
/// time of day or an offset included: it accepts exactly the texts of four,
/// six or eight ASCII digits. The call has no effect and its outcome depends
/// on `value` alone: the contract names the error rendered as text, and says
/// of it only when there is none.
#[verifier::external_body]
pub(crate) fn date_error(value: &str) -> (r: Option<String>)
    ensures
        r.deep_view() == date_parse_error(value@),
        r is None <==> is_date_text(value@),
{
    match hl7_parser::datetime::parse_date(value, false) {
        Ok(_) => None,
        Err(e) => Some(format!("{e:#}")),
    }
}

/// Calls `hl7_parser::datetime::parse_time(value, false)`, which reads an
/// hour and then as many of minute, second, fraction and offset as follow,
/// and fails on what is left over. The call has no effect and its outcome
/// depends on `value` alone: the contract names that outcome, the error
/// rendered as text, and claims nothing else of it.
#[verifier::external_body]
pub(crate) fn time_error(value: &str) -> (r: Option<String>)
    ensures
        r.deep_view() == time_parse_error(value@),
{
    match hl7_parser::datetime::parse_time(value, false) {
        Ok(_) => None,
        Err(e) => Some(format!("{e:#}")),
    }
}

} // verus!
