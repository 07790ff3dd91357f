//! Decimal integers as the standard library reads them from text.
use vstd::prelude::*;

verus! {

pub open spec fn is_ascii_digit(c: char) -> bool {
    '0' <= c && c <= '9'
}

/// One or more ASCII digits and nothing else.
pub open spec fn is_digit_run(s: Seq<char>) -> bool {
    &&& s.len() > 0
    &&& forall|i: int| 0 <= i < s.len() ==> is_ascii_digit(#[trigger] s[i])
}

/// The value of a run of decimal digits.
pub open spec fn digits_value(s: Seq<char>) -> int
    decreases s.len(),
{
    if s.len() == 0 {
        0
    } else {
        10 * digits_value(s.drop_last()) + (s.last() as int - '0' as int)
    }
}

/// The value of an optional `+` followed by one or more digits.
pub open spec fn unsigned_decimal(s: Seq<char>) -> Option<int> {
    let body = if s.len() > 0 && s[0] == '+' {
        s.drop_first()
    } else {
        s
    };
    if is_digit_run(body) {
        Some(digits_value(body))
    } else {
        None
    }
}

/// The value of an optional `+` or `-` followed by one or more digits.
pub open spec fn signed_decimal(s: Seq<char>) -> Option<int> {
    if s.len() > 0 && s[0] == '-' {
        if is_digit_run(s.drop_first()) {
            Some(-digits_value(s.drop_first()))
        } else {
            None
        }
    } else {
        unsigned_decimal(s)
    }
}

/// What `u64::from_str` gives for `s`: the value when `s` is an optional
/// `+` and digits, and the value fits.
pub open spec fn u64_from_text(s: Seq<char>) -> Option<u64> {
    match unsigned_decimal(s) {
        Some(v) => if v <= u64::MAX {
            Some(v as u64)
        } else {
            None
        },
        None => None,
    }
}

/// What `u32::from_str` gives for `s`.
pub open spec fn u32_from_text(s: Seq<char>) -> Option<u32> {
    match unsigned_decimal(s) {
        Some(v) => if v <= u32::MAX {
            Some(v as u32)
        } else {
            None
        },
        None => None,
    }
}

/// What `i32::from_str` gives for `s`: the value when `s` is an optional
/// sign and digits, and the value fits.
pub open spec fn i32_from_text(s: Seq<char>) -> Option<i32> {
    match signed_decimal(s) {
        Some(v) => if i32::MIN <= v <= i32::MAX {
            Some(v as i32)
        } else {
            None
        },
        None => None,
    }
}

/// `u64::from_str` (by `str::parse`). Its documentation: an optional `+`
/// followed by digits only; any other character, an empty digit run or a
/// value past `u64::MAX` is an error.
#[verifier::external_body]
pub(crate) fn parse_u64(s: &str) -> (r: Option<u64>)
    ensures
        r == u64_from_text(s@),
{
    s.parse::<u64>().ok()
}

/// `u32::from_str` (by `str::parse`), documented as for `u64` with the
/// range of `u32`.
#[verifier::external_body]
pub(crate) fn parse_u32(s: &str) -> (r: Option<u32>)
    ensures
        r == u32_from_text(s@),
{
    s.parse::<u32>().ok()
}

/// `i32::from_str` (by `str::parse`). Its documentation: an optional `+`
/// or `-` followed by digits only; anything else, or a value outside the
/// range of `i32`, is an error.
#[verifier::external_body]
pub(crate) fn parse_i32(s: &str) -> (r: Option<i32>)
    ensures
        r == i32_from_text(s@),
{
    s.parse::<i32>().ok()
}

} // verus!
