use vstd::prelude::*;

verus! {

/// An ASCII decimal digit.
pub open spec fn is_decimal_digit(c: char) -> bool {
    '0' <= c && c <= '9'
}

/// A non-empty run of ASCII decimal digits.
pub open spec fn is_digit_run(s: Seq<char>) -> bool {
    s.len() > 0 && forall|i: int| 0 <= i < s.len() ==> is_decimal_digit(#[trigger] s[i])
}

/// The value of a run of decimal digits, most significant first.
pub open spec fn digits_value(s: Seq<char>) -> int
    decreases s.len(),
{
    if s.len() == 0 {
        0
    } else {
        digits_value(s.drop_last()) * 10 + ((s.last() as u32) - ('0' as u32))
    }
}

/// The integer that `s` writes in decimal: an optional `+` or `-`, then at
/// least one digit and nothing else. `None` for any other text.
pub open spec fn decimal_value(s: Seq<char>) -> Option<int> {
    if s.len() > 0 && s[0] == '-' && is_digit_run(s.skip(1)) {
        Some(-digits_value(s.skip(1)))
    } else if s.len() > 0 && s[0] == '+' && is_digit_run(s.skip(1)) {
        Some(digits_value(s.skip(1)))
    } else if is_digit_run(s) {
        Some(digits_value(s))
    } else {
        None
    }
}

/// What `s` parses to as an `i32`: its decimal value when that fits.
pub open spec fn i32_of(s: Seq<char>) -> Option<i32> {
    match decimal_value(s) {
        Some(v) => if i32::MIN <= v && v <= i32::MAX {
            Some(v as i32)
        } else {
            None
        },
        None => None,
    }
}

/// Relies on `str::parse::<i32>` (`i32::from_str`): an optional `+` or `-`
/// followed by ASCII digits only, and an error when the value does not fit.
#[verifier::external_body]
fn parse_i32(s: &str) -> (r: Option<i32>)
    ensures
        r == i32_of(s@),
{
    s.parse::<i32>().ok()
}

/// The integer written in `string`, or 0 when it is not a decimal `i32`.
pub fn string_to_int(string: &str) -> (r: i32)
    ensures
        r == (match i32_of(string@) {
            Some(v) => v,
            None => 0i32,
        }),
{
    match parse_i32(string) {
        Some(num) => num,
        None => 0,
    }
}

} // verus!
