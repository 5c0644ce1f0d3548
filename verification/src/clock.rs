//! What the library takes from the clock.

use std::time::{Duration, SystemTime, SystemTimeError};
use vstd::prelude::*;

verus! {

/// A moment of the system clock.
#[verifier::external_type_specification]
#[verifier::external_body]
pub struct ExSystemTime(SystemTime);

/// The error of a span that would be negative.
#[verifier::external_type_specification]
#[verifier::external_body]
pub struct ExSystemTimeError(SystemTimeError);

/// The length of a span in nanoseconds, as `Duration::as_nanos` gives it.
pub uninterp spec fn nanos_in(span: Duration) -> nat;

/// `Duration::as_nanos` gives the length of a span in nanoseconds.
pub assume_specification[ Duration::as_nanos ](span: &Duration) -> (nanos: u128)
    ensures
        nanos == nanos_in(*span),
;

/// `Duration::from_secs` gives the span of so many whole seconds.
pub assume_specification[ Duration::from_secs ](secs: u64) -> (span: Duration)
    ensures
        nanos_in(span) == secs * 1_000_000_000,
;

/// `Duration::subsec_millis` gives the whole milliseconds of a span beyond its whole seconds.
pub assume_specification[ Duration::subsec_millis ](span: &Duration) -> (millis: u32)
    ensures
        millis == nanos_in(*span) % 1_000_000_000 / 1_000_000,
;

/// `Duration::as_secs` gives the whole seconds of a span.
pub assume_specification[ Duration::as_secs ](span: &Duration) -> (secs: u64)
    ensures
        secs == nanos_in(*span) / 1_000_000_000,
;

/// `SystemTime::now` reads the clock. Nothing is claimed of what it shows.
pub assume_specification[ SystemTime::now ]() -> SystemTime;

/// The span from the moment that Unix clocks count from to another, as
/// `SystemTime::duration_since` gives it; nothing for an earlier moment.
pub uninterp spec fn epoch_span(moment: SystemTime) -> Option<Duration>;

/// `SystemTime::duration_since` gives the span from an earlier moment, here the one that
/// Unix clocks count from, or an error where that moment is later. What it gives depends on
/// the two moments alone.
#[verifier::external_body]
fn since_epoch(moment: SystemTime) -> (span: Result<Duration, SystemTimeError>)
    ensures
        epoch_span(moment) == match span {
            Ok(span) => Some(span),
            Err(_) => None,
        },
{
    moment.duration_since(std::time::UNIX_EPOCH)
}

/// The nanoseconds that a Unix clock counts at a moment; none at one before it began.
pub open spec fn nanos_at(moment: SystemTime) -> nat {
    match epoch_span(moment) {
        Some(span) => nanos_in(span),
        None => 0,
    }
}

/// The milliseconds that a Unix clock counts at a moment beyond the whole seconds.
pub open spec fn millis_at(moment: SystemTime) -> u32 {
    (nanos_at(moment) % 1_000_000_000 / 1_000_000) as u32
}

/// The last 64 bits of the nanoseconds that a Unix clock counts at a moment.
pub open spec fn short_nanos_at(moment: SystemTime) -> u64 {
    (nanos_at(moment) % 0x1_0000_0000_0000_0000) as u64
}

/// The milliseconds that a Unix clock counts at a moment beyond the whole seconds.
pub fn epoch_millis(moment: SystemTime) -> (millis: u32)
    ensures
        millis == millis_at(moment),
{
    match since_epoch(moment) {
        Ok(span) => span.subsec_millis(),
        Err(_) => 0,
    }
}

/// The nanoseconds that a Unix clock counts at a moment, as far as they fit: their last 64
/// bits.
pub fn epoch_nanos(moment: SystemTime) -> (nanos: u64)
    ensures
        nanos == short_nanos_at(moment),
{
    match since_epoch(moment) {
        Ok(span) => {
            let all: u128 = span.as_nanos();
            assert(all as u64 == all % 0x1_0000_0000_0000_0000u128) by (bit_vector);
            #[verifier::truncate] (all as u64)
        },
        Err(_) => 0,
    }
}

/// The whole seconds that a Unix clock counts at a moment.
pub fn epoch_seconds(moment: SystemTime) -> (seconds: u64)
    ensures
        seconds == nanos_at(moment) / 1_000_000_000,
{
    match since_epoch(moment) {
        Ok(span) => span.as_secs(),
        Err(_) => 0,
    }
}

/// The milliseconds of the current second: those of the moment that the clock shows.
pub fn current_millis() -> (millis: u32)
    ensures
        millis < 1000,
        exists|moment: SystemTime| millis == #[trigger] millis_at(moment),
{
    let moment = SystemTime::now();
    let millis: u32 = epoch_millis(moment);
    assert(millis == millis_at(moment));
    millis
}

/// The nanoseconds that a Unix clock counts now, as far as they fit: those of the moment
/// that the clock shows.
pub fn current_nanos() -> (nanos: u64)
    ensures
        exists|moment: SystemTime| nanos == #[trigger] short_nanos_at(moment),
{
    let moment = SystemTime::now();
    let nanos: u64 = epoch_nanos(moment);
    assert(nanos == short_nanos_at(moment));
    nanos
}

/// The seconds that a Unix clock counts now: those of the moment that the clock shows.
pub fn current_seconds() -> (seconds: u64)
    ensures
        exists|moment: SystemTime| seconds == #[trigger] nanos_at(moment) / 1_000_000_000,
{
    let moment = SystemTime::now();
    let seconds: u64 = epoch_seconds(moment);
    assert(seconds == nanos_at(moment) / 1_000_000_000);
    seconds
}

/// The parts of the time belong together: the milliseconds are those of the second that the
/// nanoseconds are in, rounded down, and a moment before the clock began counts as its beginning.
pub proof fn law_parts_of_the_time_agree(moment: SystemTime)
    ensures
        ({
            let seconds = nanos_at(moment) / 1_000_000_000;
            let within = nanos_at(moment) - seconds * 1_000_000_000;
            &&& millis_at(moment) < 1000
            &&& millis_at(moment) * 1_000_000 <= within < (millis_at(moment) + 1) * 1_000_000
        }),
        nanos_at(moment) < 0x1_0000_0000_0000_0000 ==> short_nanos_at(moment) == nanos_at(moment),
        epoch_span(moment) is None ==> nanos_at(moment) == 0,
        epoch_span(moment) matches Some(span) ==> nanos_at(moment) == nanos_in(span),
{
}

} // verus!
