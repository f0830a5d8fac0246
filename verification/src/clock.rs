//! The system clock, read as whole seconds since the Unix epoch without
//! panicking on a clock that reads before the epoch or beyond `i64`.
use vstd::prelude::*;

verus! {

#[verifier::external_type_specification]
#[verifier::external_body]
pub struct ExSystemTime(std::time::SystemTime);

/// Calls `std::time::SystemTime::now`. Nothing is claimed of the value: it
/// is whatever the machine's clock reads, and two calls may differ.
#[verifier::external_body]
fn system_time_now() -> std::time::SystemTime {
    std::time::SystemTime::now()
}

/// Calls `SystemTime::duration_since(UNIX_EPOCH)` on `t`: `None` where `t`
/// lies before the epoch (the error case), else the time elapsed since the
/// epoch. Nothing more is claimed, since `t` is opaque here.
#[verifier::external_body]
fn time_since_epoch(t: &std::time::SystemTime) -> Option<std::time::Duration> {
    match t.duration_since(std::time::UNIX_EPOCH) {
        Ok(d) => Some(d),
        Err(_) => None,
    }
}

/// Calls `Duration::as_secs`: the whole seconds of `d`. Nothing more is
/// claimed, since `d` is opaque here.
#[verifier::external_body]
fn whole_seconds(d: &std::time::Duration) -> u64 {
    d.as_secs()
}

/// `t` is what a read of the system clock by `unix_time_now` returned: the
/// whole Unix seconds of the time the clock read, or `None`.
pub open spec fn clock_reading(t: Option<i64>) -> bool {
    call_ensures(unix_time_now, (), t)
}

/// The current time as whole seconds since the Unix epoch, where the clock
/// reads a time at or after the epoch that fits in an `i64`; `None` where
/// it does not.
pub fn unix_time_now() -> (r: Option<i64>)
    ensures
        r matches Some(t) ==> t >= 0,
{
    let t = system_time_now();
    match time_since_epoch(&t) {
        Some(d) => {
            let s = whole_seconds(&d);
            if s <= 0x7fff_ffff_ffff_ffff {
                Some(s as i64)
            } else {
                None
            }
        },
        None => None,
    }
}

} // verus!
