//! What the library asks the clock, and dates in words.
use crate::state::ClockFault;
use vstd::prelude::*;

verus! {

broadcast use vstd::string::group_string_axioms;

/// The last second that a date of the `chrono` crate can hold.
pub const LAST_DATED_SECOND: i64 = 8_210_266_876_799;

/// The first second that a date of the `chrono` crate can hold.
pub const FIRST_DATED_SECOND: i64 = -8_334_601_228_800;

/// The form in which the status table prints a date.
pub open spec fn date_pattern() -> Seq<char> {
    "%Y-%m-%d %H:%M:%S UTC"@
}

/// What `chrono` prints of a second since the Unix epoch under a pattern:
/// nothing where no date holds that second.
pub uninterp spec fn utc_text(secs: i64, pattern: Seq<char>) -> Option<Seq<char>>;

/// Calls `std::time::SystemTime::elapsed` on the Unix epoch: the time that has
/// passed since then, as whole seconds and the nanoseconds beyond them, or nothing
/// where the clock stands before it. The nanoseconds make less than a second; no
/// more is claimed of the reading.
#[verifier::external_body]
pub(crate) fn since_epoch() -> (r: Option<(u64, u32)>)
    ensures
        r matches Some(passed) ==> passed.1 < 1_000_000_000,
{
    match std::time::UNIX_EPOCH.elapsed() {
        Ok(passed) => Some((passed.as_secs(), passed.subsec_nanos())),
        Err(_) => None,
    }
}

/// The seconds since the Unix epoch, or nothing where the clock stands before it.
pub(crate) fn unix_now() -> (r: Option<u64>) {
    whole_seconds(since_epoch())
}

/// The whole seconds of a reading of the clock, where there is one. The nanoseconds
/// beyond them are dropped.
pub fn whole_seconds(reading: Option<(u64, u32)>) -> (r: Option<u64>)
    ensures
        r == match reading {
            Some(passed) => Some(passed.0),
            None => None::<u64>,
        },
{
    match reading {
        Some(passed) => Some(passed.0),
        None => None,
    }
}

/// A reading that the clock can give: the nanoseconds beyond the whole seconds make
/// less than a second.
pub open spec fn is_reading(reading: Option<(u64, u32)>) -> bool {
    reading matches Some(passed) ==> passed.1 < 1_000_000_000
}

/// The second and the millisecond of a reading of the clock, both since the Unix
/// epoch, or why it has none.
pub open spec fn instant_of(reading: Option<(u64, u32)>) -> Result<(i64, i64), ClockFault> {
    match reading {
        None => Err(ClockFault::BeforeEpoch),
        Some(passed) => if passed.0 > LAST_DATED_SECOND {
            Err(ClockFault::BeyondDates)
        } else {
            Ok((passed.0 as i64, (passed.0 * 1000 + passed.1 / 1_000_000) as i64))
        },
    }
}

/// The second and the millisecond of a reading of the clock, where it lies in the
/// range of dates.
pub fn utc_instant(reading: Option<(u64, u32)>) -> (r: Result<(i64, i64), ClockFault>)
    ensures
        r == instant_of(reading),
{
    match reading {
        None => Err(ClockFault::BeforeEpoch),
        Some(passed) => if passed.0 > LAST_DATED_SECOND as u64 {
            Err(ClockFault::BeyondDates)
        } else {
            Ok((passed.0 as i64, (passed.0 * 1000 + (passed.1 / 1_000_000) as u64) as i64))
        },
    }
}

/// Calls `chrono::DateTime::from_timestamp` with no nanoseconds and prints the
/// date with `format`. There is a date for exactly the seconds from
/// `FIRST_DATED_SECOND` to `LAST_DATED_SECOND`; what is printed of it is named
/// `utc_text`. The pattern is the one of the status table: `format` stops the
/// program on a pattern that it does not know.
#[verifier::external_body]
pub(crate) fn format_utc(secs: i64, pattern: &str) -> (r: Option<String>)
    requires
        pattern@ == date_pattern(),
    ensures
        r is Some == utc_text(secs, pattern@) is Some,
        r matches Some(text) ==> utc_text(secs, pattern@) == Some(text@),
        r is Some == (FIRST_DATED_SECOND <= secs <= LAST_DATED_SECOND),
{
    match chrono::DateTime::from_timestamp(secs, 0) {
        Some(date) => Some(date.format(pattern).to_string()),
        None => None,
    }
}

/// A date in words, or "Unknown" where there is none.
pub open spec fn date_or_unknown(text: Option<Seq<char>>) -> Seq<char> {
    match text {
        Some(t) => t,
        None => "Unknown"@,
    }
}

/// The printed date where there is one, else "Unknown".
pub fn known_date(printed: Option<String>) -> (r: String)
    ensures
        printed matches Some(text) ==> r@ == date_or_unknown(Some(text@)),
        printed is None ==> r@ == date_or_unknown(None),
{
    match printed {
        Some(text) => text,
        None => "Unknown".to_owned(),
    }
}

/// The date of a second since the Unix epoch, as the status table prints it.
/// Like a cast, the second wraps around where it is too large to be signed.
pub fn date_text(unix_secs: u64) -> (r: String)
    ensures
        r@ == date_or_unknown(utc_text(unix_secs as i64, date_pattern())),
        unix_secs > LAST_DATED_SECOND && unix_secs <= i64::MAX ==> r@ == "Unknown"@,
{
    known_date(format_utc(unix_secs as i64, "%Y-%m-%d %H:%M:%S UTC"))
}

/// A reading of the clock has a date exactly where there is one and it is not past the last date.
/// The date is that of its whole seconds, and its millisecond lies in that second, as far into it
/// as the nanoseconds say.
pub proof fn law_an_instant_is_its_reading(reading: Option<(u64, u32)>)
    ensures
        instant_of(reading) is Ok <==> (reading matches Some(passed) && passed.0
            <= 8_210_266_876_799),
        reading is None <==> instant_of(reading) == Err::<(i64, i64), ClockFault>(
            ClockFault::BeforeEpoch,
        ),
        match (reading, instant_of(reading)) {
            (Some(passed), Ok(instant)) => {
                &&& instant.0 == passed.0
                &&& instant.1 - instant.0 * 1000 == passed.1 / 1_000_000
                &&& passed.1 < 1_000_000_000 ==> instant.0 * 1000 <= instant.1 < (instant.0 + 1)
                    * 1000
            },
            (Some(_), Err(fault)) => fault == ClockFault::BeyondDates,
            _ => true,
        },
        is_reading(reading) <==> (reading matches Some(passed) ==> passed.1 < 1_000_000_000),
{
}

/// A second with a date is printed as that date, and one without as "Unknown".
pub proof fn law_a_date_is_printed_or_unknown(text: Seq<char>)
    ensures
        date_or_unknown(Some(text)) == text,
        date_or_unknown(None) == "Unknown"@,
{
}

} // verus!
