//! Monotonic time.
//!
//! A [`Clock`] reads nanoseconds since its origin. Every decision that depends
//! on time takes the reading as a plain argument.

use std::time::{Duration, Instant};
use vstd::prelude::*;

verus! {

/// `std::time::Instant`, carried through as an opaque value.
#[verifier::external_type_specification]
#[verifier::external_body]
pub struct ExInstant(std::time::Instant);

/// Upper bound of every clock reading: the longest `Duration`, in nanoseconds.
pub const MAX_READING_NS: u128 = 18_446_744_073_709_551_616_000_000_000;

/// A monotonic clock with an origin of its own.
pub struct Clock {
    origin: Instant,
}

/// `std::time::Instant::now`: nothing is claimed of the instant returned.
#[verifier::external_body]
fn instant_now() -> Instant {
    Instant::now()
}

/// `std::time::Instant::checked_sub` by whole seconds: whether the platform
/// can represent the earlier instant is left open, and so is the instant.
#[verifier::external_body]
fn instant_back(at: Instant, secs: u64) -> Option<Instant> {
    at.checked_sub(Duration::from_secs(secs))
}

/// `std::time::Instant::elapsed` in nanoseconds: the reading is below the
/// longest `Duration`, and nothing else is claimed of it.
#[verifier::external_body]
fn instant_elapsed_ns(at: &Instant) -> (ns: u128)
    ensures
        ns < MAX_READING_NS,
{
    at.elapsed().as_nanos()
}

impl Clock {
    /// The moment that the clock counts from.
    pub closed spec fn origin(self) -> Instant {
        self.origin
    }

    /// A clock that counts from an earlier moment, or from `now` where the
    /// earlier one cannot be represented.
    pub fn counting_from(earlier: Option<Instant>, now: Instant) -> (r: Clock)
        ensures
            r.origin() == match earlier {
                Some(at) => at,
                None => now,
            },
    {
        match earlier {
            Some(origin) => Clock { origin },
            None => Clock { origin: now },
        }
    }

    /// A clock whose origin is the moment of the call.
    pub fn start() -> Clock {
        Clock { origin: instant_now() }
    }

    /// A clock whose origin lies `secs` seconds before the call, or at the
    /// call where the platform cannot represent the earlier moment.
    pub fn start_back(secs: u64) -> Clock {
        let earlier = instant_back(instant_now(), secs);
        Clock::counting_from(earlier, instant_now())
    }

    /// Nanoseconds since the origin.
    pub fn now_ns(&self) -> (ns: u128)
        ensures
            ns < MAX_READING_NS,
    {
        instant_elapsed_ns(&self.origin)
    }
}

} // verus!
