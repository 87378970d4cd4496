//! The wall clock, as text.
use vstd::prelude::*;

verus! {

/// `c` is an ASCII decimal digit.
pub open spec fn ascii_digit(c: char) -> bool {
    '0' as u32 <= c as u32 <= '9' as u32
}

/// `s` is a year as chrono's `%Y` writes it: four or more digits, with a
/// leading sign for years outside 0..=9999.
pub open spec fn year_text(s: Seq<char>) -> bool {
    &&& s.len() >= 4
    &&& forall|i: int| 1 <= i < s.len() ==> ascii_digit(#[trigger] s[i])
    &&& (ascii_digit(s[0]) || s[0] == '+' || s[0] == '-')
}

/// `s` is a UTC time stamp `{year}-MM-DDTHH:MM:SS.mmmZ`: a year as `%Y`
/// writes it, then two-digit month, day, hour, minute and second and three
/// digits of milliseconds, separated as shown.
pub open spec fn iso_millis_stamp(s: Seq<char>) -> bool {
    let n = s.len() as int;
    &&& n >= 24
    &&& year_text(s.subrange(0, n - 20))
    &&& s[n - 20] == '-' && ascii_digit(s[n - 19]) && ascii_digit(s[n - 18])
    &&& s[n - 17] == '-' && ascii_digit(s[n - 16]) && ascii_digit(s[n - 15])
    &&& s[n - 14] == 'T' && ascii_digit(s[n - 13]) && ascii_digit(s[n - 12])
    &&& s[n - 11] == ':' && ascii_digit(s[n - 10]) && ascii_digit(s[n - 9])
    &&& s[n - 8] == ':' && ascii_digit(s[n - 7]) && ascii_digit(s[n - 6])
    &&& s[n - 5] == '.' && ascii_digit(s[n - 4]) && ascii_digit(s[n - 3]) && ascii_digit(s[n - 2])
    &&& s[n - 1] == 'Z'
}

/// `s` is a clock time `HH:MM:SS`.
pub open spec fn clock_text(s: Seq<char>) -> bool {
    &&& s.len() == 8
    &&& ascii_digit(s[0]) && ascii_digit(s[1]) && s[2] == ':'
    &&& ascii_digit(s[3]) && ascii_digit(s[4]) && s[5] == ':'
    &&& ascii_digit(s[6]) && ascii_digit(s[7])
}

/// `chrono::Utc::now()` formatted as `%Y-%m-%dT%H:%M:%S%.3fZ`.  The text
/// depends on the time of the call; what holds of every outcome is its
/// shape: chrono writes the year with at least four digits (with a sign
/// outside 0..=9999), every other field with a fixed number of digits, and
/// the literal separators.
#[verifier::external_body]
pub(crate) fn utc_timestamp() -> (s: String)
    ensures
        iso_millis_stamp(s@),
{
    chrono::Utc::now().format("%Y-%m-%dT%H:%M:%S%.3fZ").to_string()
}

/// `chrono::Utc::now()` formatted as `%H:%M:%S`.  The text depends on the
/// time of the call; chrono writes each field with two digits.
#[verifier::external_body]
pub(crate) fn utc_clock_time() -> (s: String)
    ensures
        clock_text(s@),
{
    chrono::Utc::now().format("%H:%M:%S").to_string()
}

} // verus!
