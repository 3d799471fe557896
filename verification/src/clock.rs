use vstd::prelude::*;

use std::time::{Duration, SystemTime, UNIX_EPOCH};

verus! {

#[verifier::external_type_specification]
#[verifier::external_body]
pub struct ExSystemTime(SystemTime);

/// `SystemTime::now`: the system clock's current time; nothing is promised
/// of it.
#[verifier::external_body]
fn system_now() -> SystemTime {
    SystemTime::now()
}

/// `SystemTime::duration_since` the Unix epoch: the time elapsed since, or
/// `None` for a clock set before the epoch; nothing more is promised.
#[verifier::external_body]
fn since_unix_epoch(t: &SystemTime) -> Option<Duration> {
    t.duration_since(UNIX_EPOCH).ok()
}

/// `Duration::as_millis`: the whole milliseconds of a duration; nothing is
/// promised of the number.
#[verifier::external_body]
fn whole_millis(d: &Duration) -> u128 {
    d.as_millis()
}

/// The clock's value in milliseconds for a reading of the whole milliseconds
/// since the Unix epoch: 0 where there is none (a clock set before the
/// epoch), else the low 64 bits of the count taken as a signed number.
pub open spec fn epoch_ms_value(millis: Option<u128>) -> int {
    match millis {
        None => 0,
        Some(m) => {
            let low = m % 0x1_0000_0000_0000_0000;
            if low < 0x8000_0000_0000_0000 {
                low as int
            } else {
                low - 0x1_0000_0000_0000_0000
            }
        },
    }
}

/// Turns a reading of the milliseconds since the Unix epoch into the
/// clock's value (see `epoch_ms_value`).
pub fn epoch_ms_of(millis: Option<u128>) -> (r: i64)
    ensures
        r == epoch_ms_value(millis),
{
    match millis {
        None => 0,
        Some(m) => {
            let r = m as i64;
            assert(r == (if m % 0x1_0000_0000_0000_0000 < 0x8000_0000_0000_0000 {
                (m % 0x1_0000_0000_0000_0000) as int
            } else {
                (m % 0x1_0000_0000_0000_0000) - 0x1_0000_0000_0000_0000
            })) by (bit_vector)
                requires
                    r == m as i64,
            ;
            r
        },
    }
}

/// Milliseconds since the Unix epoch by the system clock (see `epoch_ms_of`).
/// The reading comes from the clock, so nothing is promised of the number.
pub fn now_ms() -> i64 {
    let millis = match since_unix_epoch(&system_now()) {
        Some(d) => Some(whole_millis(&d)),
        None => None,
    };
    epoch_ms_of(millis)
}

} // verus!
