use vstd::prelude::*;

use crate::error::FixMeLaterError;

verus! {

/// Hour and minute that text reads as under the clock format `HH:MM`, if it
/// reads as a clock time at all.
pub uninterp spec fn clock_of(s: Seq<char>) -> Option<(u32, u32)>;

/// Relies on `chrono::NaiveTime::parse_from_str` with format `%H:%M` to read
/// the text, and on `Timelike::hour` (0 to 23) and `Timelike::minute` (0 to
/// 59) to take the time apart.
#[verifier::external_body]
fn read_clock(s: &str) -> (r: Option<(u32, u32)>)
    ensures
        r == clock_of(s@),
        r matches Some((h, m)) ==> h < 24 && m < 60,
{
    match chrono::NaiveTime::parse_from_str(s, "%H:%M") {
        Ok(t) => Some((chrono::Timelike::hour(&t), chrono::Timelike::minute(&t))),
        Err(_) => None,
    }
}

/// Reads a clock time written `HH:MM` as its hour and minute.
pub fn parse_clock_time(s: &str) -> (r: Result<(u32, u32), FixMeLaterError>)
    ensures
        match clock_of(s@) {
            Some(hm) => r == Ok::<(u32, u32), FixMeLaterError>(hm),
            None => r == Err::<(u32, u32), FixMeLaterError>(FixMeLaterError::InvalidClockTime),
        },
        r matches Ok((h, m)) ==> h < 24 && m < 60,
{
    match read_clock(s) {
        Some(hm) => Ok(hm),
        None => Err(FixMeLaterError::InvalidClockTime),
    }
}

/// What a clock time on a given day stands for in the local time zone.
#[derive(PartialEq, Eq, Structural, Clone, Copy, Debug)]
pub enum LocalTime {
    /// One instant, in seconds since the Unix epoch.
    Single(i64),
    /// Two instants, as where the clocks are turned back.
    Ambiguous,
    /// No instant, as where the clocks are turned forward.
    Missing,
}

/// The instant that a local clock time stands for, where there is exactly one.
pub fn resolve_local_time(t: LocalTime) -> (r: Result<i64, FixMeLaterError>)
    ensures
        match t {
            LocalTime::Single(i) => r == Ok::<i64, FixMeLaterError>(i),
            LocalTime::Ambiguous => r == Err::<i64, FixMeLaterError>(
                FixMeLaterError::AmbiguousLocalTime,
            ),
            LocalTime::Missing => r == Err::<i64, FixMeLaterError>(
                FixMeLaterError::MissingLocalTime,
            ),
        },
{
    match t {
        LocalTime::Single(i) => Ok(i),
        LocalTime::Ambiguous => Err(FixMeLaterError::AmbiguousLocalTime),
        LocalTime::Missing => Err(FixMeLaterError::MissingLocalTime),
    }
}

} // verus!
