//! Command-line values.
use vstd::prelude::*;

verus! {

/// The value of a decimal numeral: its digits, most significant first.
pub open spec fn digits_value(s: Seq<char>) -> int
    decreases s.len(),
{
    if s.len() == 0 {
        0
    } else {
        digits_value(s.drop_last()) * 10 + (s.last() as int - '0' as int)
    }
}

pub open spec fn all_digits(s: Seq<char>) -> bool {
    forall|i: int| 0 <= i < s.len() ==> '0' <= #[trigger] s[i] <= '9'
}

/// `s` without one leading plus sign.
pub open spec fn unsigned_part(s: Seq<char>) -> Seq<char> {
    if s.len() > 0 && s[0] == '+' {
        s.subrange(1, s.len() as int)
    } else {
        s
    }
}

/// The `u64` that `s` spells in decimal: an optional plus sign and at least
/// one digit, with a value that fits.
pub open spec fn decimal_u64(s: Seq<char>) -> Option<u64> {
    let d = unsigned_part(s);
    if d.len() > 0 && all_digits(d) && digits_value(d) <= u64::MAX {
        Some(digits_value(d) as u64)
    } else {
        None
    }
}

/// Relies on `u64::from_str`, which takes an optional `+` followed by one or
/// more ASCII digits and fails on anything else or on overflow.
#[verifier::external_body]
fn parse_u64(s: &str) -> (r: Option<u64>)
    ensures
        r == decimal_u64(s@),
{
    s.parse::<u64>().ok()
}

#[derive(Debug, PartialEq, Eq, Structural)]
pub struct InvalidDuration;

/// Reads a duration given as a whole number of seconds.
pub fn parse_duration(arg: &str) -> (r: Result<u64, InvalidDuration>)
    ensures
        match decimal_u64(arg@) {
            Some(n) => r == Ok::<u64, InvalidDuration>(n),
            None => r == Err::<u64, InvalidDuration>(InvalidDuration),
        },
{
    match parse_u64(arg) {
        Some(secs) => Ok(secs),
        None => Err(InvalidDuration),
    }
}

} // verus!
