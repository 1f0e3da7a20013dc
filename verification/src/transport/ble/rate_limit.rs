//! Adaptive send rate of a BLE link.
//!
//! A BLE link carries little, and sending faster than it drains fills its
//! buffer, which shows as growing round-trip time. The controller adds to the
//! rate while the time is low and cuts it while it is high.

use crate::clock::{Clock, MAX_READING_NS};
use crate::recency::{elapsed_since, since};
use vstd::prelude::*;

verus! {

/// Round-trip time below which the rate grows, in microseconds.
pub const RTT_LOW_US: u64 = 200_000;

/// Round-trip time above which the rate is cut, in microseconds.
pub const RTT_HIGH_US: u64 = 300_000;

/// Round-trip time above which the rate is cut sharply, in microseconds.
pub const RTT_SEVERE_US: u64 = 600_000;

/// Lowest rate, in bits per second.
pub const MIN_RATE_BPS: u64 = 10_000;

/// Highest rate, in bits per second.
pub const MAX_RATE_BPS: u64 = 35_000;

/// What is added to a rate that grows, in bits per second.
pub const AI_STEP_BPS: u64 = 2_000;

/// Time between changes of the rate, in nanoseconds.
pub const UPDATE_INTERVAL_NS: u128 = 1_000_000_000;

/// What a measurement calls for.
#[derive(Clone, Copy, Debug, PartialEq, Eq, Structural)]
pub enum RateDecision {
    /// Cut the rate to two fifths.
    DecreaseSevere,
    /// Cut the rate to three fifths.
    Decrease,
    /// Add to the rate.
    Increase,
    /// Keep the rate.
    Hold,
}

impl RateDecision {
    /// The decision that a round-trip time calls for.
    pub open spec fn of(srtt_us: u64) -> RateDecision {
        if srtt_us > RTT_SEVERE_US {
            RateDecision::DecreaseSevere
        } else if srtt_us > RTT_HIGH_US {
            RateDecision::Decrease
        } else if srtt_us < RTT_LOW_US {
            RateDecision::Increase
        } else {
            RateDecision::Hold
        }
    }

    /// The decision that a round-trip time calls for.
    pub fn for_srtt(srtt_us: u64) -> (r: RateDecision)
        ensures
            r == RateDecision::of(srtt_us),
    {
        if srtt_us > RTT_SEVERE_US {
            RateDecision::DecreaseSevere
        } else if srtt_us > RTT_HIGH_US {
            RateDecision::Decrease
        } else if srtt_us < RTT_LOW_US {
            RateDecision::Increase
        } else {
            RateDecision::Hold
        }
    }

    /// The decision's name in the event log.
    pub fn name(&self) -> (r: &'static str)
        ensures
            r@ == match *self {
                RateDecision::DecreaseSevere => "decrease_severe"@,
                RateDecision::Decrease => "decrease"@,
                RateDecision::Increase => "increase"@,
                RateDecision::Hold => "hold"@,
            },
    {
        match self {
            RateDecision::DecreaseSevere => "decrease_severe",
            RateDecision::Decrease => "decrease",
            RateDecision::Increase => "increase",
            RateDecision::Hold => "hold",
        }
    }
}

/// A rate within the limits.
pub open spec fn within_limits(rate: int) -> int {
    if rate < MIN_RATE_BPS {
        MIN_RATE_BPS as int
    } else if rate > MAX_RATE_BPS {
        MAX_RATE_BPS as int
    } else {
        rate
    }
}

/// The rate after a measurement.
pub open spec fn next_rate(rate: int, srtt_us: u64) -> int {
    match RateDecision::of(srtt_us) {
        RateDecision::DecreaseSevere => within_limits(rate * 4 / 10),
        RateDecision::Decrease => within_limits(rate * 6 / 10),
        RateDecision::Increase => within_limits(rate + AI_STEP_BPS),
        RateDecision::Hold => rate,
    }
}

/// The controller's state, without its clock.
pub ghost struct RateModel {
    pub rate_bps: u64,
    pub last_update_ns: u128,
}

impl RateModel {
    /// The state after a measurement at the given clock reading: the rate
    /// changes only if the last measurement was at least a second before.
    pub open spec fn updated(self, srtt_us: u64, now_ns: u128) -> RateModel {
        RateModel {
            rate_bps: if since(now_ns, self.last_update_ns) < UPDATE_INTERVAL_NS {
                self.rate_bps
            } else {
                next_rate(self.rate_bps as int, srtt_us) as u64
            },
            last_update_ns: now_ns,
        }
    }

    /// The rate is within its limits.
    pub open spec fn wf(self) -> bool {
        MIN_RATE_BPS <= self.rate_bps <= MAX_RATE_BPS
    }
}

/// Adaptive rate controller.
pub struct BleRateAdapter {
    current_rate_bps: u64,
    last_update_ns: u128,
    clock: Clock,
}

impl View for BleRateAdapter {
    type V = RateModel;

    closed spec fn view(&self) -> RateModel {
        RateModel { rate_bps: self.current_rate_bps, last_update_ns: self.last_update_ns }
    }
}

impl BleRateAdapter {
    /// A controller that starts at the given rate, brought within the limits.
    /// Its clock starts ten seconds back where the platform allows, so that the
    /// first measurement counts.
    pub fn new(initial_rate_bps: u64) -> (r: BleRateAdapter)
        ensures
            r@.wf(),
            r@.rate_bps == within_limits(initial_rate_bps as int),
            r@.last_update_ns == 0,
    {
        let current_rate_bps: u64 = if initial_rate_bps < MIN_RATE_BPS {
            MIN_RATE_BPS
        } else if initial_rate_bps > MAX_RATE_BPS {
            MAX_RATE_BPS
        } else {
            initial_rate_bps
        };
        BleRateAdapter { current_rate_bps, last_update_ns: 0, clock: Clock::start_back(10) }
    }

    /// Takes a smoothed round-trip time in microseconds in, at the given clock
    /// reading. Returns the rate.
    pub fn update_at(&mut self, srtt_us: u64, now_ns: u128) -> (r: u64)
        requires
            old(self)@.wf(),
        ensures
            final(self)@.wf(),
            final(self)@ == old(self)@.updated(srtt_us, now_ns),
            r == final(self)@.rate_bps,
    {
        let elapsed: u128 = elapsed_since(now_ns, self.last_update_ns);
        self.last_update_ns = now_ns;
        if elapsed < UPDATE_INTERVAL_NS {
            return self.current_rate_bps;
        }
        let rate: u64 = self.current_rate_bps;
        self.current_rate_bps = match RateDecision::for_srtt(srtt_us) {
            RateDecision::DecreaseSevere => {
                let cut: u64 = rate * 4 / 10;
                if cut < MIN_RATE_BPS {
                    MIN_RATE_BPS
                } else {
                    cut
                }
            },
            RateDecision::Decrease => {
                let cut: u64 = rate * 6 / 10;
                if cut < MIN_RATE_BPS {
                    MIN_RATE_BPS
                } else {
                    cut
                }
            },
            RateDecision::Increase => {
                let raised: u64 = rate.saturating_add(AI_STEP_BPS);
                if raised > MAX_RATE_BPS {
                    MAX_RATE_BPS
                } else {
                    raised
                }
            },
            RateDecision::Hold => rate,
        };
        self.current_rate_bps
    }

    /// Takes a smoothed round-trip time in microseconds in, now. Returns the
    /// rate.
    pub fn update(&mut self, srtt_us: u64) -> (r: u64)
        requires
            old(self)@.wf(),
        ensures
            final(self)@.wf(),
            r == final(self)@.rate_bps,
            exists|now_ns: u128|
                now_ns < MAX_READING_NS && final(self)@ == #[trigger] old(self)@.updated(
                    srtt_us,
                    now_ns,
                ),
    {
        let now_ns = self.clock.now_ns();
        self.update_at(srtt_us, now_ns)
    }

    /// The rate, in bits per second.
    pub fn current_rate_bps(&self) -> (r: u64)
        ensures
            r == self@.rate_bps,
    {
        self.current_rate_bps
    }
}

/// The rate stays within its limits.
pub proof fn rate_stays_within_limits(m: RateModel, srtt_us: u64, now_ns: u128)
    requires
        m.wf(),
    ensures
        m.updated(srtt_us, now_ns).wf(),
{
}

/// A longer round-trip time never leads to a higher rate.
pub proof fn congestion_never_raises_the_rate(rate: int, shorter_us: u64, longer_us: u64)
    requires
        MIN_RATE_BPS <= rate <= MAX_RATE_BPS,
        shorter_us <= longer_us,
    ensures
        next_rate(rate, longer_us) <= next_rate(rate, shorter_us),
{
}

/// Within a second of a measurement another leaves the rate as it is.
pub proof fn rate_changes_are_spaced(m: RateModel, srtt_us: u64, now_ns: u128, again_us: u64, then_ns: u128)
    requires
        now_ns <= then_ns < now_ns + UPDATE_INTERVAL_NS,
    ensures
        m.updated(srtt_us, now_ns).updated(again_us, then_ns).rate_bps == m.updated(
            srtt_us,
            now_ns,
        ).rate_bps,
{
}

} // verus!
