//! The current time.

use crate::text::is_digit;
use vstd::prelude::*;

verus! {

/// Whether a text holds nothing but decimal digits.
pub open spec fn all_digits(s: Seq<char>) -> bool {
    forall|i: int| 0 <= i < s.len() ==> is_digit(#[trigger] s[i])
}

/// Whether a text is a time in UTC in the format of RFC 3339, with its `T` at the
/// given place: a year of four digits, or a plus sign and more; month and day;
/// hours, minutes and seconds; three, six or nine digits of a second, or none; and
/// the offset `+00:00`.
pub open spec fn is_utc_time_at(s: Seq<char>, t: int) -> bool {
    let end = s.len() - 6;
    &&& t >= 10
    &&& t + 9 <= end
    &&& is_digit(s[0]) || s[0] == '+'
    &&& all_digits(s.subrange(1, t - 6))
    &&& s[t - 6] == '-'
    &&& all_digits(s.subrange(t - 5, t - 3))
    &&& s[t - 3] == '-'
    &&& all_digits(s.subrange(t - 2, t))
    &&& s[t] == 'T'
    &&& all_digits(s.subrange(t + 1, t + 3))
    &&& s[t + 3] == ':'
    &&& all_digits(s.subrange(t + 4, t + 6))
    &&& s[t + 6] == ':'
    &&& all_digits(s.subrange(t + 7, t + 9))
    &&& end == t + 9 || ((end == t + 13 || end == t + 16 || end == t + 19) && s[t + 9] == '.'
        && all_digits(s.subrange(t + 10, end)))
    &&& s.skip(end) == "+00:00"@
}

/// Whether a text is a time in UTC in the format of RFC 3339.
pub open spec fn is_utc_time(s: Seq<char>) -> bool {
    exists|t: int| is_utc_time_at(s, t)
}

/// `chrono::Utc::now` and `DateTime::to_rfc3339`: the current time in the format
/// of RFC 3339, with the offset of UTC. Which time it is, is not claimed. The clock
/// must not stand before 1970.
#[verifier::external_body]
pub(crate) fn utc_now() -> (r: String)
    ensures
        is_utc_time(r@),
{
    chrono::Utc::now().to_rfc3339()
}

/// Whether a text is a reading of the clock: something that a call of `utc_now`
/// hands out.
pub closed spec fn clock_read(s: Seq<char>) -> bool {
    exists|r: String| #[trigger] call_ensures(utc_now, (), r) && r@ == s
}

fn reading<F: Fn() -> String>(clock: F) -> (r: String)
    requires
        call_requires(clock, ()),
    ensures
        call_ensures(clock, (), r),
{
    clock()
}

/// Read the clock.
pub(crate) fn read_clock() -> (r: String)
    ensures
        clock_read(r@),
        is_utc_time(r@),
{
    reading(utc_now)
}

/// Nothing but a call of `utc_now` gives a reading of the clock, and every reading
/// is a time in UTC.
pub(crate) proof fn readings_come_from_the_clock(s: Seq<char>)
    requires
        clock_read(s),
    ensures
        exists|r: String| #[trigger] call_ensures(utc_now, (), r) && r@ == s,
        is_utc_time(s),
{
}

} // verus!
