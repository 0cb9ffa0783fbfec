//! Verification time: a system time as seconds since the Unix epoch.

use std::time::SystemTime;
use vstd::prelude::*;

verus! {

/// `std::time::SystemTime`, carried through as an opaque value.
#[verifier::external_type_specification]
#[verifier::external_body]
pub struct ExSystemTime(SystemTime);

/// The whole seconds between a system time and the Unix epoch: `Ok` when the time is at or after
/// the epoch, `Err` when it is before.
pub uninterp spec fn epoch_distance(time: SystemTime) -> Result<u64, u64>;

/// `SystemTime::duration_since(UNIX_EPOCH)`, in whole seconds on either side of the epoch.
/// The contract claims only that the distance is determined by the time.
#[verifier::external_body]
fn duration_since_epoch(time: SystemTime) -> (distance: Result<u64, u64>)
    ensures
        distance == epoch_distance(time),
{
    match time.duration_since(SystemTime::UNIX_EPOCH) {
        Ok(after) => Ok(after.as_secs()),
        Err(before) => Err(before.duration().as_secs()),
    }
}

/// Signed whole seconds from a distance on either side of the epoch, held within `i64`. A time less
/// than a second before the epoch is still before it, and counts as the second before.
pub open spec fn signed_seconds(distance: Result<u64, u64>) -> i64 {
    match distance {
        Ok(after) => if after <= i64::MAX { after as i64 } else { i64::MAX },
        Err(before) => if before == 0 {
            (-1) as i64
        } else if before <= i64::MAX {
            (-before) as i64
        } else {
            (-i64::MAX) as i64
        },
    }
}

/// Signed whole seconds from a distance on either side of the epoch, held within `i64`. A time less
/// than a second before the epoch is still before it, and counts as the second before.
pub fn seconds_at_distance(distance: Result<u64, u64>) -> (seconds: i64)
    ensures
        seconds == signed_seconds(distance),
{
    match distance {
        Ok(after) => if after <= i64::MAX as u64 { after as i64 } else { i64::MAX },
        Err(before) => if before == 0 {
            -1
        } else if before <= i64::MAX as u64 {
            -(before as i64)
        } else {
            -i64::MAX
        },
    }
}

/// Seconds since the Unix epoch, negative for times before it.
pub fn unix_seconds(t: SystemTime) -> (seconds: i64)
    ensures
        seconds == signed_seconds(epoch_distance(t)),
        epoch_distance(t) is Err ==> seconds < 0,
        epoch_distance(t) is Ok ==> seconds >= 0,
{
    seconds_at_distance(duration_since_epoch(t))
}

/// How far `seconds` are from the epoch, on which side.
pub open spec fn distance_of(seconds: i64) -> Result<u64, u64> {
    if seconds >= 0 {
        Ok(seconds as u64)
    } else {
        Err((-seconds) as u64)
    }
}

/// A time given in Unix seconds, as a system time at that distance reads: the time itself, but for
/// the one before the epoch that is too far to be negated.
pub fn read_back(seconds: i64) -> (read: i64)
    ensures
        read == signed_seconds(distance_of(seconds)),
        seconds > i64::MIN ==> read == seconds,
{
    if seconds == i64::MIN {
        -i64::MAX
    } else {
        seconds
    }
}

/// A later time never reads as an earlier one, and a time before the epoch, however close to it,
/// reads as negative seconds.
pub proof fn seconds_keep_the_order_of_distances(a: Result<u64, u64>, b: Result<u64, u64>)
    ensures
        match (a, b) {
            (Ok(x), Ok(y)) => x <= y ==> signed_seconds(a) <= signed_seconds(b),
            (Err(x), Err(y)) => x >= y ==> signed_seconds(a) <= signed_seconds(b),
            (Err(_), Ok(_)) => signed_seconds(a) < 0 <= signed_seconds(b),
            (Ok(_), Err(_)) => signed_seconds(b) < 0 <= signed_seconds(a),
        },
{
}

/// Seconds on either side of the epoch are counted one for one as far as they fit, with their sign;
/// a time less than a second before the epoch counts as the second before, and what does not fit is
/// held at the bound on its side. A time given in seconds reads as itself.
pub proof fn seconds_are_counted_one_for_one(n: u64, seconds: i64)
    ensures
        n <= 0x7fff_ffff_ffff_ffff ==> signed_seconds(Ok(n)) == n,
        n > 0x7fff_ffff_ffff_ffff ==> signed_seconds(Ok(n)) == 0x7fff_ffff_ffff_ffff,
        1 <= n <= 0x7fff_ffff_ffff_ffff ==> signed_seconds(Err(n)) == -n,
        n > 0x7fff_ffff_ffff_ffff ==> signed_seconds(Err(n)) == -0x7fff_ffff_ffff_ffff,
        signed_seconds(Err(0)) == -1,
        seconds > i64::MIN ==> signed_seconds(distance_of(seconds)) == seconds,
{
}

} // verus!
