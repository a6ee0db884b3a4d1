//! The local time, as messages are stamped with it.
use vstd::prelude::*;

verus! {

/// Year, month and day, then the time of day on a twelve-hour clock.
pub const TIMESTAMP_FORMAT: &'static str = "%Y-%m-%d %I:%M %p";

/// A decimal digit.
pub open spec fn is_digit(c: char) -> bool {
    '0' <= c <= '9'
}

/// The characters at `i` and `i + 1` are a two-digit number between `low` and `high`.
pub open spec fn two_digits(s: Seq<char>, i: int, low: int, high: int) -> bool {
    let tens = s[i] as int - '0' as int;
    let ones = s[i + 1] as int - '0' as int;
    &&& is_digit(s[i])
    &&& is_digit(s[i + 1])
    &&& low <= 10 * tens + ones <= high
}

/// A year of four digits, or a plus sign and a year of more digits.
pub open spec fn is_year(s: Seq<char>) -> bool {
    let from: int = if s.len() == 4 {
        0
    } else {
        1
    };
    &&& s.len() == 4 || (s.len() > 5 && s[0] == '+')
    &&& forall|i: int| from <= i < s.len() ==> is_digit(#[trigger] s[i])
}

/// A year, then `-MM-DD hh:mm AM` or `-MM-DD hh:mm PM`.
pub open spec fn is_timestamp(s: Seq<char>) -> bool {
    let n = s.len() as int;
    &&& n >= 19
    &&& is_year(s.take(n - 15))
    &&& s[n - 15] == '-'
    &&& two_digits(s, n - 14, 1, 12)
    &&& s[n - 12] == '-'
    &&& two_digits(s, n - 11, 1, 31)
    &&& s[n - 9] == ' '
    &&& two_digits(s, n - 8, 1, 12)
    &&& s[n - 6] == ':'
    &&& two_digits(s, n - 5, 0, 59)
    &&& s[n - 3] == ' '
    &&& s[n - 2] == 'A' || s[n - 2] == 'P'
    &&& s[n - 1] == 'M'
}

/// `chrono::Local::now`, written out by `chrono::DateTime::format` under `TIMESTAMP_FORMAT`.
/// Which moment it is depends on the machine: only the shape of the text is claimed. The clock of
/// the machine is taken to stand after the start of 1970, as `chrono` takes it.
#[verifier::external_body]
pub(crate) fn local_time(format: &str) -> (r: String)
    requires
        format@ == TIMESTAMP_FORMAT@,
    ensures
        is_timestamp(r@),
{
    chrono::Local::now().format(format).to_string()
}

} // verus!
