//! Rate limiting of routing error signals, per destination.
//!
//! Whoever sends a datagram chooses its destination, so this is a suppressor
//! and no bound on what one sender can induce. What it owes is that its own map
//! stays bounded and that the cost of an admission does not grow with it.

use crate::clock::{Clock, MAX_READING_NS};
use crate::identity::NodeAddr;
use crate::recency::{elapsed_since, recent, retain_recent, since};
use std::collections::HashMap;
use vstd::prelude::*;

verus! {

broadcast use vstd::std_specs::hash::group_hash_axioms;

/// Most destinations remembered at once.
pub const MAX_ENTRIES: usize = 4096;

/// Default interval between signals about one destination, in nanoseconds.
pub const DEFAULT_MIN_INTERVAL_NS: u128 = 100_000_000;

/// Age at which a destination is forgotten, in nanoseconds.
pub const MAX_AGE_NS: u128 = 10_000_000_000;

/// Time between sweeps, in nanoseconds: eight within the age.
pub const SWEEP_INTERVAL_NS: u128 = 1_250_000_000;

/// What was decided about one error signal.
#[derive(Clone, Copy, Debug, PartialEq, Eq, Structural)]
pub enum LimitVerdict {
    /// Send it; the destination was recorded.
    Admit,
    /// Send it; the map was full and the destination not recorded.
    AdmitAtCapacity,
    /// Suppress it; one went out within the interval.
    Suppress,
}

/// The limiter's state, without its clock.
pub ghost struct LimiterModel {
    pub last_sent: Map<u128, u128>,
    pub min_interval_ns: u128,
    pub last_sweep_ns: u128,
    pub sweeps: u64,
}

/// Rate limiter for routing error signals.
pub struct RoutingErrorRateLimiter {
    last_sent: HashMap<u128, u128>,
    min_interval_ns: u128,
    last_sweep_ns: u128,
    sweeps: u64,
    clock: Clock,
}

impl View for RoutingErrorRateLimiter {
    type V = LimiterModel;

    closed spec fn view(&self) -> LimiterModel {
        LimiterModel {
            last_sent: self.last_sent@,
            min_interval_ns: self.min_interval_ns,
            last_sweep_ns: self.last_sweep_ns,
            sweeps: self.sweeps,
        }
    }
}

impl LimiterModel {
    /// The state after a sweep.
    pub open spec fn swept(self, now_ns: u128) -> LimiterModel {
        LimiterModel {
            last_sent: recent(self.last_sent, now_ns, MAX_AGE_NS),
            last_sweep_ns: now_ns,
            sweeps: (self.sweeps + 1) as u64,
            ..self
        }
    }

    /// The state after a sweep, if one is due.
    pub open spec fn maybe_swept(self, now_ns: u128) -> LimiterModel {
        if since(now_ns, self.last_sweep_ns) >= SWEEP_INTERVAL_NS {
            self.swept(now_ns)
        } else {
            self
        }
    }

    /// Whether a signal about `dest` went out within the interval.
    pub open spec fn is_suppressed(self, dest: NodeAddr, now_ns: u128) -> bool {
        self.last_sent.contains_key(dest.value) && since(now_ns, self.last_sent[dest.value])
            < self.min_interval_ns
    }

    /// Whether there is no room for a destination that is not remembered.
    pub open spec fn is_full_for(self, dest: NodeAddr) -> bool {
        self.last_sent.len() >= MAX_ENTRIES && !self.last_sent.contains_key(dest.value)
    }

    /// The state with `dest` recorded.
    pub open spec fn recorded(self, dest: NodeAddr, now_ns: u128) -> LimiterModel {
        LimiterModel { last_sent: self.last_sent.insert(dest.value, now_ns), ..self }
    }

    /// What a signal about `dest` leads to.
    pub open spec fn checked(self, dest: NodeAddr, now_ns: u128) -> (LimiterModel, LimitVerdict) {
        if self.is_suppressed(dest, now_ns) {
            (self, LimitVerdict::Suppress)
        } else if self.is_full_for(dest) {
            let swept = self.maybe_swept(now_ns);
            if swept.last_sent.len() >= MAX_ENTRIES {
                (swept, LimitVerdict::AdmitAtCapacity)
            } else {
                (swept.recorded(dest, now_ns).maybe_swept(now_ns), LimitVerdict::Admit)
            }
        } else {
            (self.recorded(dest, now_ns).maybe_swept(now_ns), LimitVerdict::Admit)
        }
    }

    /// The map is within its bound.
    pub open spec fn wf(self) -> bool {
        self.last_sent.dom().finite() && self.last_sent.len() <= MAX_ENTRIES
    }
}

impl RoutingErrorRateLimiter {
    /// The limiter is consistent.
    pub closed spec fn wf(self) -> bool {
        self@.wf()
    }

    /// A limiter that lets ten signals a second about one destination through.
    pub fn new() -> (r: RoutingErrorRateLimiter)
        ensures
            r.wf(),
            r@ == (LimiterModel {
                last_sent: Map::empty(),
                min_interval_ns: DEFAULT_MIN_INTERVAL_NS,
                last_sweep_ns: 0,
                sweeps: 0,
            }),
    {
        RoutingErrorRateLimiter::with_interval(DEFAULT_MIN_INTERVAL_NS)
    }

    /// A limiter with the given interval in nanoseconds.
    pub fn with_interval(min_interval_ns: u128) -> (r: RoutingErrorRateLimiter)
        ensures
            r.wf(),
            r@ == (LimiterModel {
                last_sent: Map::empty(),
                min_interval_ns,
                last_sweep_ns: 0,
                sweeps: 0,
            }),
    {
        RoutingErrorRateLimiter {
            last_sent: HashMap::new(),
            min_interval_ns,
            last_sweep_ns: 0,
            sweeps: 0,
            clock: Clock::start(),
        }
    }

    /// Whether to send a signal about a destination now.
    pub fn should_send(&mut self, dest_addr: &NodeAddr) -> (r: bool)
        requires
            old(self).wf(),
            old(self)@.sweeps < u64::MAX,
        ensures
            final(self).wf(),
            exists|now_ns: u128|
                #![trigger old(self)@.checked(*dest_addr, now_ns)]
                now_ns < MAX_READING_NS && final(self)@ == old(self)@.checked(
                    *dest_addr,
                    now_ns,
                ).0 && r == (old(self)@.checked(*dest_addr, now_ns).1 != LimitVerdict::Suppress),
    {
        let now_ns = self.clock.now_ns();
        self.check(dest_addr, now_ns) != LimitVerdict::Suppress
    }

    /// Decides about a signal at the given clock reading.
    pub fn check(&mut self, dest_addr: &NodeAddr, now_ns: u128) -> (r: LimitVerdict)
        requires
            old(self).wf(),
            old(self)@.sweeps < u64::MAX,
        ensures
            final(self).wf(),
            (final(self)@, r) == old(self)@.checked(*dest_addr, now_ns),
    {
        if let Some(last) = self.last_sent.get(&dest_addr.value) {
            if elapsed_since(now_ns, *last) < self.min_interval_ns {
                return LimitVerdict::Suppress;
            }
        }
        if self.last_sent.len() >= MAX_ENTRIES && !self.last_sent.contains_key(&dest_addr.value) {
            self.maybe_cleanup(now_ns);
            if self.last_sent.len() >= MAX_ENTRIES {
                return LimitVerdict::AdmitAtCapacity;
            }
        }
        self.last_sent.insert(dest_addr.value, now_ns);
        self.maybe_cleanup(now_ns);
        LimitVerdict::Admit
    }

    /// Sweeps if a sweep is due.
    fn maybe_cleanup(&mut self, now_ns: u128)
        requires
            since(now_ns, old(self)@.last_sweep_ns) >= SWEEP_INTERVAL_NS ==> old(self)@.sweeps
                < u64::MAX,
        ensures
            final(self)@ == old(self)@.maybe_swept(now_ns),
            final(self)@.last_sent.len() <= old(self)@.last_sent.len(),
    {
        if elapsed_since(now_ns, self.last_sweep_ns) >= SWEEP_INTERVAL_NS {
            self.cleanup(now_ns);
        }
    }

    /// Forgets the destinations that have reached the maximum age.
    pub fn cleanup(&mut self, now_ns: u128)
        requires
            old(self)@.sweeps < u64::MAX,
        ensures
            final(self)@ == old(self)@.swept(now_ns),
            final(self)@.last_sent.len() <= old(self)@.last_sent.len(),
            old(self).wf() ==> final(self).wf(),
    {
        self.last_sweep_ns = now_ns;
        self.sweeps = self.sweeps + 1;
        retain_recent(&mut self.last_sent, now_ns, MAX_AGE_NS);
    }

    /// Number of destinations remembered.
    pub fn len(&self) -> (r: usize)
        ensures
            r == self@.last_sent.len(),
            self.wf() ==> r <= MAX_ENTRIES,
    {
        self.last_sent.len()
    }

    /// Number of sweeps so far.
    pub fn sweeps(&self) -> (r: u64)
        ensures
            r == self@.sweeps,
    {
        self.sweeps
    }

    /// The reading of the limiter's clock.
    pub fn now_ns(&self) -> (r: u128)
        ensures
            r < MAX_READING_NS,
    {
        self.clock.now_ns()
    }
}

impl Default for RoutingErrorRateLimiter {
    /// A limiter that lets ten signals a second about one destination through.
    fn default() -> (r: RoutingErrorRateLimiter)
        ensures
            r.wf(),
            r@.last_sent == Map::<u128, u128>::empty(),
            r@.min_interval_ns == DEFAULT_MIN_INTERVAL_NS,
            r@.last_sweep_ns == 0,
            r@.sweeps == 0,
    {
        RoutingErrorRateLimiter::new()
    }
}

/// A recent part of a finite map is finite and no larger.
proof fn recent_is_smaller(m: Map<u128, u128>, now_ns: u128, max_age: u128)
    requires
        m.dom().finite(),
    ensures
        recent(m, now_ns, max_age).dom().finite(),
        recent(m, now_ns, max_age).len() <= m.len(),
{
    vstd::set_lib::lemma_len_subset(recent(m, now_ns, max_age).dom(), m.dom());
}

/// The map never outgrows its bound, whatever destinations a sender makes up.
pub proof fn map_stays_bounded(m: LimiterModel, dest: NodeAddr, now_ns: u128)
    requires
        m.wf(),
    ensures
        m.checked(dest, now_ns).0.wf(),
{
    recent_is_smaller(m.last_sent, now_ns, MAX_AGE_NS);
    let swept = m.maybe_swept(now_ns);
    let a = m.recorded(dest, now_ns);
    let b = swept.recorded(dest, now_ns);
    recent_is_smaller(a.last_sent, now_ns, MAX_AGE_NS);
    recent_is_smaller(b.last_sent, now_ns, MAX_AGE_NS);
}

/// A signal is suppressed only when one about the same destination went out
/// within the interval; a full map never silences the node.
pub proof fn only_the_interval_suppresses(m: LimiterModel, dest: NodeAddr, now_ns: u128)
    ensures
        m.checked(dest, now_ns).1 == LimitVerdict::Suppress <==> m.is_suppressed(dest, now_ns),
        m.checked(dest, now_ns).1 == LimitVerdict::Suppress ==> m.checked(dest, now_ns).0 == m,
{
}

/// After a recorded signal, another about the same destination within the
/// interval is suppressed.
pub proof fn recorded_signal_suppresses(m: LimiterModel, dest: NodeAddr, now_ns: u128, then_ns: u128)
    requires
        m.checked(dest, now_ns).1 == LimitVerdict::Admit,
        now_ns <= then_ns < now_ns + m.min_interval_ns,
    ensures
        m.checked(dest, now_ns).0.checked(dest, then_ns).1 == LimitVerdict::Suppress,
{
    let after = m.checked(dest, now_ns).0;
    assert(since(now_ns, now_ns) == 0);
    assert(after.last_sent.contains_key(dest.value));
    assert(after.last_sent[dest.value] == now_ns);
}

/// A check sweeps at most once, and not at all within the sweep interval of the
/// last sweep.
pub proof fn sweeps_are_amortized(m: LimiterModel, dest: NodeAddr, now_ns: u128)
    requires
        m.sweeps < u64::MAX,
    ensures
        m.checked(dest, now_ns).0.sweeps <= m.sweeps + 1,
        since(now_ns, m.last_sweep_ns) < SWEEP_INTERVAL_NS ==> m.checked(dest, now_ns).0.sweeps
            == m.sweeps,
{
}

/// A check about one destination within the sweep interval changes nothing
/// about another.
pub proof fn destinations_are_independent(
    m: LimiterModel,
    dest: NodeAddr,
    other: NodeAddr,
    now_ns: u128,
    then_ns: u128,
)
    requires
        dest != other,
        since(now_ns, m.last_sweep_ns) < SWEEP_INTERVAL_NS,
    ensures
        m.checked(dest, now_ns).0.is_suppressed(other, then_ns) == m.is_suppressed(
            other,
            then_ns,
        ),
{
}

} // verus!
