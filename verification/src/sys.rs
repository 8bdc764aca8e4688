//! File times as whole seconds since the Unix epoch.
use vstd::prelude::*;
use std::time::{SystemTime, UNIX_EPOCH};

verus! {

#[verifier::external_type_specification]
#[verifier::external_body]
pub struct ExSystemTime(SystemTime);

/// `SystemTime::duration_since(UNIX_EPOCH)` in whole seconds (`Duration::as_secs`); `None`
/// for a time before the epoch.
pub uninterp spec fn epoch_seconds(time: SystemTime) -> Option<u64>;

#[verifier::external_body]
fn seconds_since_epoch(time: SystemTime) -> (r: Option<u64>)
    ensures
        r == epoch_seconds(time),
{
    time.duration_since(UNIX_EPOCH).ok().map(|d| d.as_secs())
}

/// A file time in whole seconds since the Unix epoch. The time must not lie before the
/// epoch.
pub fn time_to_num(time: SystemTime) -> (r: u64)
    requires
        epoch_seconds(time) is Some,
    ensures
        Some(r) == epoch_seconds(time),
{
    match seconds_since_epoch(time) {
        Some(s) => s,
        None => 0,
    }
}

/// A file time in whole seconds since the Unix epoch, or `None` for a time before it.
pub fn try_time_to_num(time: SystemTime) -> (r: Option<u64>)
    ensures
        r == epoch_seconds(time),
{
    match seconds_since_epoch(time) {
        Some(_) => Some(time_to_num(time)),
        None => None,
    }
}

} // verus!
