//! The time of day in the names of transcripts and in their entries.

use vstd::prelude::*;

use crate::text::precedes;

verus! {

/// How the name of a transcript is made of the time at which it began.
pub const SESSION_PATTERN: &'static str = "%Y-%m-%d-%H:%M:%S";

/// How the time of a command is written.
pub const TIME_PATTERN: &'static str = "%Y-%m-%dT%H:%M:%SZ";

/// The last second that can be written, counted from the beginning of 1970.
pub const LAST_SECOND: i64 = 8_210_266_876_799;

/// The last second of the year 9999, the last year of four digits.
pub const LAST_FOUR_DIGIT_SECOND: i64 = 253_402_300_799;

/// What `chrono` writes for a second, counted from the beginning of 1970 in UTC,
/// after a pattern.
pub uninterp spec fn utc_text(seconds: int, pattern: Seq<char>) -> Seq<char>;

/// `chrono::Utc::now`, in whole seconds from the beginning of 1970. It does not
/// return for a clock that is set before that or beyond what can be written.
/// Beyond that, what it returns is up to the clock.
#[verifier::external_body]
pub fn current_second() -> (r: i64)
    ensures
        0 <= r <= LAST_SECOND,
{
    chrono::Utc::now().timestamp()
}

/// `chrono::DateTime::format`: what it writes depends on the second and the pattern
/// alone, and is left to the name [`utc_text`]. Up to the year 9999, the fields of
/// [`SESSION_PATTERN`] have fixed widths and stand from the longest span of time to
/// the shortest, so of two names the one of the earlier second is the lesser.
#[verifier::external_body]
fn format_utc(seconds: i64, pattern: &str) -> (r: String)
    requires
        0 <= seconds <= LAST_SECOND,
        pattern@ == SESSION_PATTERN@ || pattern@ == TIME_PATTERN@,
    ensures
        r@ == utc_text(seconds as int, pattern@),
        pattern@ == SESSION_PATTERN@ && seconds <= LAST_FOUR_DIGIT_SECOND ==> forall|earlier: int|
            0 <= earlier < seconds ==> precedes(#[trigger] utc_text(earlier, SESSION_PATTERN@), r@),
{
    chrono::DateTime::from_timestamp(seconds, 0).unwrap().format(pattern).to_string()
}

/// The name of a transcript that begins at the given second. Names are ordered as
/// the times at which their transcripts began.
pub fn session_name_at(seconds: i64) -> (r: String)
    requires
        0 <= seconds <= LAST_SECOND,
    ensures
        r@ == utc_text(seconds as int, SESSION_PATTERN@),
        seconds <= LAST_FOUR_DIGIT_SECOND ==> forall|earlier: int|
            0 <= earlier < seconds ==> precedes(#[trigger] utc_text(earlier, SESSION_PATTERN@), r@),
{
    format_utc(seconds, SESSION_PATTERN)
}

/// How the given second is written in the entry of a command.
pub fn request_time_at(seconds: i64) -> (r: String)
    requires
        0 <= seconds <= LAST_SECOND,
    ensures
        r@ == utc_text(seconds as int, TIME_PATTERN@),
{
    format_utc(seconds, TIME_PATTERN)
}

/// The name of a transcript that begins now, at the second that the clock shows.
pub fn session_name() -> (r: String)
    ensures
        exists|now: i64| #[trigger]
            call_ensures(current_second, (), now) && r@ == utc_text(now as int, SESSION_PATTERN@),
{
    session_name_at(current_second())
}

/// The time of a command that came now, at the second that the clock shows.
pub fn request_time() -> (r: String)
    ensures
        exists|now: i64| #[trigger]
            call_ensures(current_second, (), now) && r@ == utc_text(now as int, TIME_PATTERN@),
{
    request_time_at(current_second())
}

} // verus!
