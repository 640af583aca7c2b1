//! The monotonic clock, read as nanoseconds since a starting instant.

use std::time::Instant;
use vstd::prelude::*;

verus! {

/// A point on the monotonic clock.
#[verifier::external_type_specification]
#[verifier::external_body]
pub struct ExInstant(Instant);

/// `Instant::now`: the present point on the monotonic clock. Nothing is
/// claimed of it.
#[verifier::external_body]
pub(crate) fn instant_now() -> Instant {
    Instant::now()
}

/// `Instant::elapsed`, then `Duration::as_nanos`: the nanoseconds that have
/// passed since `epoch`. The result depends on when the call is made, so
/// nothing is claimed of it.
#[verifier::external_body]
pub(crate) fn nanos_since(epoch: &Instant) -> u128 {
    epoch.elapsed().as_nanos()
}

/// The nanoseconds in a second.
pub const NANOS_PER_SEC: u128 = 1_000_000_000;

/// The age at time `now` of something stamped at time `stamp`: zero where the
/// stamp is not in the past.
pub open spec fn age(now: u128, stamp: u128) -> int {
    if now >= stamp {
        now - stamp
    } else {
        0
    }
}

/// Whether something stamped at `stamp` is, at time `now`, older than
/// `min_age` seconds.
pub open spec fn older_than(now: u128, stamp: u128, min_age: u64) -> bool {
    age(now, stamp) > min_age * NANOS_PER_SEC
}

pub fn is_older_than(now: u128, stamp: u128, min_age: u64) -> (older: bool)
    ensures
        older == older_than(now, stamp, min_age),
{
    let limit: u128 = (min_age as u128) * NANOS_PER_SEC;
    now >= stamp && now - stamp > limit
}

} // verus!
