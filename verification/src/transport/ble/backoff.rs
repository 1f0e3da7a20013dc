//! Per-address exponential backoff for BLE connection failures.
//!
//! After `max_failures` consecutive failures an address is denied for a while.

use crate::clock::{Clock, MAX_READING_NS};
use crate::transport::ble::addr::BleAddr;
use crate::transport::ble::table::{AddrKey, AddrTable};
use vstd::prelude::*;

verus! {

/// Backoff base in production, in seconds.
pub const DEFAULT_BASE_SECS: u64 = 5;

/// Longest backoff in production, in seconds.
pub const DEFAULT_MAX_SECS: u64 = 300;

/// Failures until an address is denied in production.
pub const DEFAULT_MAX_FAILURES: u32 = 5;

/// Time an address is denied in production, in seconds.
pub const DEFAULT_DENY_DURATION_SECS: u64 = 3600;

/// Nanoseconds in a second.
pub const NS_PER_SEC: u128 = 1_000_000_000;

/// Consecutive failures of an address.
#[derive(Clone, Copy, Debug)]
pub struct FailureEntry {
    /// How many.
    pub failures: u32,
    /// Clock reading before which the address is not probed.
    pub next_allowed_ns: u128,
}

/// Per-address exponential backoff tracker.
pub struct PeerBackoff {
    entries: AddrTable<FailureEntry>,
    denied: AddrTable<u128>,
    base_secs: u64,
    max_secs: u64,
    max_failures: u32,
    deny_secs: u64,
    clock: Clock,
}

/// The tracker's state, without its clock.
pub ghost struct BackoffModel {
    pub entries: Map<AddrKey, FailureEntry>,
    pub denied: Map<AddrKey, u128>,
    pub base_secs: u64,
    pub max_secs: u64,
    pub max_failures: u32,
    pub deny_secs: u64,
}

/// A larger of two numbers.
pub open spec fn larger(a: int, b: int) -> int {
    if a < b {
        b
    } else {
        a
    }
}

/// A smaller of two numbers.
pub open spec fn smaller(a: int, b: int) -> int {
    if a < b {
        a
    } else {
        b
    }
}

/// Two to the given power, up to the tenth.
pub open spec fn doubling(failures: u32) -> int {
    vstd::arithmetic::power2::pow2(smaller(failures as int, 10) as nat) as int
}

/// Mixes the bytes of a device address into a number.
pub open spec fn mix(device: Seq<u8>) -> u64
    decreases device.len(),
{
    if device.len() == 0 {
        0x9e37_79b9_7f4a_7c15
    } else {
        ((mix(device.drop_last()) as int * 0x517c_c1b7_2722_0a95 + device.last() as int)
            % 0x1_0000_0000_0000_0000) as u64
    }
}

/// The jitter seed of an address after some failures.
pub open spec fn jitter_seed(device: Seq<u8>, failures: u32) -> u64 {
    let h = ((mix(device) as int + failures as int) % 0x1_0000_0000_0000_0000) as u64;
    h ^ (h >> 33)
}

impl BackoffModel {
    /// Backoff in seconds after some failures, without jitter: doubled with
    /// every failure, up to the maximum.
    pub open spec fn delay_secs(self, failures: u32) -> int {
        smaller(doubling(failures) * self.base_secs, self.max_secs as int)
    }

    /// Backoff in seconds with jitter of up to a fifth.
    pub open spec fn jittered_secs(self, device: Seq<u8>, failures: u32) -> int {
        let capped = self.delay_secs(failures);
        capped + jitter_seed(device, failures) as int % (capped / 5 + 1)
    }

    /// Whether an address is denied.
    pub open spec fn is_denied(self, k: AddrKey, now_ns: u128) -> bool {
        self.denied.contains_key(k) && now_ns < self.denied[k]
    }

    /// Whether an address is in backoff.
    pub open spec fn is_in_backoff(self, k: AddrKey, now_ns: u128) -> bool {
        self.entries.contains_key(k) && now_ns < self.entries[k].next_allowed_ns
    }

    /// Consecutive failures of an address.
    pub open spec fn failure_count(self, k: AddrKey) -> u32 {
        if self.entries.contains_key(k) {
            self.entries[k].failures
        } else {
            0
        }
    }

    /// The state after an expired denial has been dropped.
    pub open spec fn refreshed(self, k: AddrKey, now_ns: u128) -> BackoffModel {
        if self.is_denied(k, now_ns) {
            self
        } else {
            BackoffModel { denied: self.denied.remove(k), ..self }
        }
    }

    /// The state after a failure, and whether the address is denied for it.
    pub open spec fn failed(self, k: AddrKey, now_ns: u128) -> (BackoffModel, bool) {
        let failures = (self.failure_count(k) + 1) as u32;
        if failures >= self.max_failures {
            (
                BackoffModel {
                    entries: self.entries.remove(k),
                    denied: self.denied.insert(
                        k,
                        (now_ns + self.deny_secs * NS_PER_SEC) as u128,
                    ),
                    ..self
                },
                true,
            )
        } else {
            (
                BackoffModel {
                    entries: self.entries.insert(
                        k,
                        FailureEntry {
                            failures,
                            next_allowed_ns: (now_ns + self.jittered_secs(k.device, failures)
                                * NS_PER_SEC) as u128,
                        },
                    ),
                    ..self
                },
                false,
            )
        }
    }

    /// The state without anything about an address.
    pub open spec fn cleared(self, k: AddrKey) -> BackoffModel {
        BackoffModel { entries: self.entries.remove(k), denied: self.denied.remove(k), ..self }
    }

    /// Whether the parameters have ordinary size.
    pub open spec fn is_ordinary(self) -> bool {
        self.base_secs * 1024 <= u64::MAX && self.max_secs + self.max_secs / 5 <= u64::MAX
    }

    /// Whether one more failure of an address can be recorded: with parameters of
    /// ordinary size every one can, and else where its backoff can be expressed in
    /// seconds.
    pub open spec fn can_fail(self, k: AddrKey) -> bool {
        self.is_ordinary() || self.can_express(k)
    }

    /// Whether the backoff after one more failure of an address can be expressed
    /// in seconds.
    pub open spec fn can_express(self, k: AddrKey) -> bool {
        let failures = (self.failure_count(k) + 1) as u32;
        failures < self.max_failures ==> doubling(failures) * self.base_secs <= u64::MAX
            && self.jittered_secs(k.device, failures) <= u64::MAX
    }

    /// Parameters are in range, and every counted failure is below the number
    /// that denies.
    pub open spec fn wf(self) -> bool {
        &&& self.base_secs >= 1
        &&& self.max_failures >= 1
        &&& forall|k: AddrKey| #[trigger]
            self.entries.contains_key(k) ==> self.entries[k].failures < self.max_failures
    }
}

/// The jitter seed of an address after some failures.
fn simple_hash_jitter(addr: &BleAddr, failures: u32) -> (h: u64)
    ensures
        h == jitter_seed(addr.device@, failures),
{
    let mut h: u64 = 0x9e37_79b9_7f4a_7c15;
    let mut i: usize = 0;
    assert(addr.device@.take(0) =~= seq![]);
    while i < 6
        invariant
            i <= 6,
            h == mix(addr.device@.take(i as int)),
        decreases 6 - i,
    {
        assert(addr.device@.take(i + 1).drop_last() =~= addr.device@.take(i as int));
        let ghost h0 = h;
        h = h.wrapping_mul(0x517c_c1b7_2722_0a95);
        h = h.wrapping_add(addr.device[i] as u64);
        i += 1;
        proof {
            let m = 0x1_0000_0000_0000_0000int;
            let x = h0 as int * 0x517c_c1b7_2722_0a95;
            let b = addr.device@[i - 1] as int;
            vstd::arithmetic::div_mod::lemma_add_mod_noop(x, b, m);
            vstd::arithmetic::div_mod::lemma_small_mod(b as nat, m as nat);
        }
    }
    assert(addr.device@.take(6) =~= addr.device@);
    h = h.wrapping_add(failures as u64);
    h ^ (h >> 33)
}

impl View for PeerBackoff {
    type V = BackoffModel;

    closed spec fn view(&self) -> BackoffModel {
        BackoffModel {
            entries: self.entries@,
            denied: self.denied@,
            base_secs: self.base_secs,
            max_secs: self.max_secs,
            max_failures: self.max_failures,
            deny_secs: self.deny_secs,
        }
    }
}

impl PeerBackoff {
    /// The tracker is consistent.
    pub closed spec fn wf(self) -> bool {
        self.entries.wf() && self.denied.wf() && self@.wf()
    }

    /// What a consistent tracker holds is valid.
    pub proof fn model_is_valid(&self)
        requires
            self.wf(),
        ensures
            self@.wf(),
    {
    }

    /// A tracker with explicit parameters, each raised to its minimum.
    pub fn new(base_secs: u64, max_secs: u64, max_failures: u32, deny_duration_secs: u64) -> (r:
        PeerBackoff)
        ensures
            r.wf(),
            r@ == (BackoffModel {
                entries: Map::empty(),
                denied: Map::empty(),
                base_secs: larger(base_secs as int, 1) as u64,
                max_secs: larger(max_secs as int, base_secs as int) as u64,
                max_failures: larger(max_failures as int, 1) as u32,
                deny_secs: larger(deny_duration_secs as int, 60) as u64,
            }),
    {
        PeerBackoff {
            entries: AddrTable::new(),
            denied: AddrTable::new(),
            base_secs: if base_secs < 1 { 1 } else { base_secs },
            max_secs: if max_secs < base_secs { base_secs } else { max_secs },
            max_failures: if max_failures < 1 { 1 } else { max_failures },
            deny_secs: if deny_duration_secs < 60 { 60 } else { deny_duration_secs },
            clock: Clock::start(),
        }
    }

    /// A tracker with production parameters.
    pub fn with_defaults() -> (r: PeerBackoff)
        ensures
            r.wf(),
            r@ == (BackoffModel {
                entries: Map::empty(),
                denied: Map::empty(),
                base_secs: 5,
                max_secs: 300,
                max_failures: 5,
                deny_secs: 3600,
            }),
    {
        PeerBackoff::new(
            DEFAULT_BASE_SECS,
            DEFAULT_MAX_SECS,
            DEFAULT_MAX_FAILURES,
            DEFAULT_DENY_DURATION_SECS,
        )
    }

    /// Whether the address is denied at this clock reading. A denial that has
    /// run out is dropped.
    pub fn is_denied_at(&mut self, addr: &BleAddr, now_ns: u128) -> (r: bool)
        requires
            old(self).wf(),
        ensures
            final(self).wf(),
            r == old(self)@.is_denied(addr.key(), now_ns),
            final(self)@ == old(self)@.refreshed(addr.key(), now_ns),
    {
        if let Some(until) = self.denied.get(addr) {
            if now_ns < until {
                return true;
            }
        }
        self.denied.remove(addr);
        assert(old(self)@.entries == old(self).entries@);
        assert(self@.entries == self.entries@);
        false
    }

    /// Whether the address is denied now.
    pub fn is_denied(&mut self, addr: &BleAddr) -> (r: bool)
        requires
            old(self).wf(),
        ensures
            final(self).wf(),
            exists|now_ns: u128|
                #![trigger old(self)@.is_denied(addr.key(), now_ns)]
                now_ns < MAX_READING_NS && r == old(self)@.is_denied(addr.key(), now_ns)
                    && final(self)@ == old(self)@.refreshed(addr.key(), now_ns),
    {
        let now_ns = self.clock.now_ns();
        self.is_denied_at(addr, now_ns)
    }

    /// Whether the address is in backoff at this clock reading.
    pub fn is_in_backoff_at(&self, addr: &BleAddr, now_ns: u128) -> (r: bool)
        requires
            self.wf(),
        ensures
            r == self@.is_in_backoff(addr.key(), now_ns),
    {
        match self.entries.get(addr) {
            Some(e) => now_ns < e.next_allowed_ns,
            None => false,
        }
    }

    /// Whether the address is in backoff now.
    pub fn is_in_backoff(&self, addr: &BleAddr) -> (r: bool)
        requires
            self.wf(),
        ensures
            exists|now_ns: u128|
                now_ns < MAX_READING_NS && r == #[trigger] self@.is_in_backoff(
                    addr.key(),
                    now_ns,
                ),
    {
        let now_ns = self.clock.now_ns();
        self.is_in_backoff_at(addr, now_ns)
    }

    /// Records a connection failure at this clock reading. Returns whether the
    /// address is denied for it.
    pub fn record_failure_at(&mut self, addr: &BleAddr, now_ns: u128) -> (r: bool)
        requires
            old(self).wf(),
            old(self)@.can_fail(addr.key()),
            now_ns < MAX_READING_NS,
        ensures
            final(self).wf(),
            (final(self)@, r) == old(self)@.failed(addr.key(), now_ns),
    {
        assert(self@.entries == self.entries@);
        proof {
            if self@.is_ordinary() {
                ordinary_backoff_can_be_expressed(self@, addr.key());
            }
        }
        let failures: u32 = match self.entries.get(addr) {
            Some(e) => e.failures + 1,
            None => 1,
        };
        if failures >= self.max_failures {
            self.denied.insert(addr, now_ns + (self.deny_secs as u128) * NS_PER_SEC);
            self.entries.remove(addr);
            assert(self@.entries == self.entries@);
            return true;
        }
        let shift: u32 = if failures < 10 {
            failures
        } else {
            10
        };
        let factor: u64 = power_of_two(shift);
        let delay_secs: u64 = factor * self.base_secs;
        let capped: u64 = if delay_secs < self.max_secs {
            delay_secs
        } else {
            self.max_secs
        };
        let jitter: u64 = simple_hash_jitter(addr, failures) % (capped / 5 + 1);
        let next_allowed_ns: u128 = now_ns + ((capped + jitter) as u128) * NS_PER_SEC;
        self.entries.insert(addr, FailureEntry { failures, next_allowed_ns });
        assert(self@.entries == self.entries@);
        false
    }

    /// Records a connection failure now. Returns whether the address is denied
    /// for it.
    pub fn record_failure(&mut self, addr: &BleAddr) -> (r: bool)
        requires
            old(self).wf(),
            old(self)@.can_fail(addr.key()),
        ensures
            final(self).wf(),
            exists|now_ns: u128|
                now_ns < MAX_READING_NS && (final(self)@, r) == #[trigger] old(self)@.failed(
                    addr.key(),
                    now_ns,
                ),
    {
        let now_ns = self.clock.now_ns();
        self.record_failure_at(addr, now_ns)
    }

    /// Forgets all about an address, after a successful connection.
    pub fn clear(&mut self, addr: &BleAddr)
        requires
            old(self).wf(),
        ensures
            final(self).wf(),
            final(self)@ == old(self)@.cleared(addr.key()),
    {
        self.entries.remove(addr);
        self.denied.remove(addr);
        assert(old(self)@.entries == old(self).entries@);
        assert(self@.entries == self.entries@);
    }

    /// Consecutive failures of an address.
    pub fn failure_count(&self, addr: &BleAddr) -> (r: u32)
        requires
            self.wf(),
        ensures
            r == self@.failure_count(addr.key()),
    {
        match self.entries.get(addr) {
            Some(e) => e.failures,
            None => 0,
        }
    }
}

/// Two to the given power.
fn power_of_two(k: u32) -> (r: u64)
    requires
        k <= 10,
    ensures
        r == vstd::arithmetic::power2::pow2(k as nat),
        1 <= r <= 1024,
{
    proof {
        vstd::arithmetic::power2::lemma2_to64();
    }
    let mut r: u64 = 1;
    let mut i: u32 = 0;
    while i < k
        invariant
            i <= k <= 10,
            r == vstd::arithmetic::power2::pow2(i as nat),
            vstd::arithmetic::power2::pow2(10) == 1024,
        decreases k - i,
    {
        proof {
            vstd::arithmetic::power2::lemma_pow2_unfold((i + 1) as nat);
            if i + 1 < 10 {
                vstd::arithmetic::power2::lemma_pow2_strictly_increases((i + 1) as nat, 10);
            }
        }
        r = r * 2;
        i += 1;
    }
    proof {
        if k < 10 {
            vstd::arithmetic::power2::lemma_pow2_strictly_increases(k as nat, 10);
        }
        vstd::arithmetic::power2::lemma_pow2_pos(k as nat);
    }
    r
}

/// The doubling stays within a factor of 1024.
proof fn doubling_bound(failures: u32)
    ensures
        1 <= doubling(failures) <= 1024,
{
    vstd::arithmetic::power2::lemma2_to64();
    let k = smaller(failures as int, 10) as nat;
    vstd::arithmetic::power2::lemma_pow2_pos(k);
    if k < 10 {
        vstd::arithmetic::power2::lemma_pow2_strictly_increases(k, 10);
    }
}

/// With parameters of ordinary size the backoff of every failure can be expressed.
pub proof fn ordinary_backoff_can_be_expressed(m: BackoffModel, k: AddrKey)
    requires
        m.is_ordinary(),
    ensures
        m.can_express(k),
{
    let failures = (m.failure_count(k) + 1) as u32;
    doubling_bound(failures);
    let d = doubling(failures);
    let b = m.base_secs as int;
    assert(0 <= d * b <= 1024 * b) by (nonlinear_arith)
        requires
            0 <= d <= 1024,
            b >= 0,
    ;
    let capped = m.delay_secs(failures);
    let j = jitter_seed(k.device, failures) as int % (capped / 5 + 1);
    assert(0 <= j <= capped / 5);
}

/// Clearing an address ends both its denial and its backoff.
pub proof fn cleared_address_is_free(m: BackoffModel, k: AddrKey, now_ns: u128)
    ensures
        !m.cleared(k).is_denied(k, now_ns),
        !m.cleared(k).is_in_backoff(k, now_ns),
        m.cleared(k).failure_count(k) == 0,
{
}

/// An address is denied for the whole deny duration once enough consecutive
/// failures have been recorded, and not before.
pub proof fn denial_follows_the_last_failure(m: BackoffModel, k: AddrKey, now_ns: u128, then_ns: u128)
    requires
        m.wf(),
        now_ns < MAX_READING_NS,
    ensures
        m.failed(k, now_ns).1 <==> m.failure_count(k) + 1 >= m.max_failures,
        m.failed(k, now_ns).1 ==> (m.failed(k, now_ns).0.is_denied(k, then_ns) <==> then_ns < now_ns
            + m.deny_secs * NS_PER_SEC),
        !m.failed(k, now_ns).1 ==> m.failed(k, now_ns).0.failure_count(k) == m.failure_count(k) + 1,
{
}

/// A failure keeps an address in backoff for at least the base, or the maximum
/// where that is less, and for at most the maximum and a fifth.
pub proof fn backoff_stays_in_range(m: BackoffModel, k: AddrKey, now_ns: u128, then_ns: u128)
    requires
        m.wf(),
        m.can_fail(k),
        now_ns < MAX_READING_NS,
        !m.failed(k, now_ns).1,
    ensures
        then_ns < now_ns + smaller(m.base_secs as int, m.max_secs as int) * NS_PER_SEC
            ==> m.failed(k, now_ns).0.is_in_backoff(k, then_ns),
        then_ns >= now_ns + (m.max_secs + m.max_secs / 5) * NS_PER_SEC ==> !m.failed(
            k,
            now_ns,
        ).0.is_in_backoff(k, then_ns),
{
    let failures = (m.failure_count(k) + 1) as u32;
    doubling_bound(failures);
    let d = doubling(failures);
    let b = m.base_secs as int;
    assert(d * b >= b) by (nonlinear_arith)
        requires
            d >= 1,
            b >= 1,
    ;
    let capped = m.delay_secs(failures);
    let j = jitter_seed(k.device, failures) as int % (capped / 5 + 1);
    assert(0 <= j <= capped / 5);
}

/// A failure of one address leaves every other as it was.
pub proof fn failures_are_independent(m: BackoffModel, k: AddrKey, other: AddrKey, now_ns: u128)
    requires
        k != other,
    ensures
        m.failed(k, now_ns).0.failure_count(other) == m.failure_count(other),
        forall|t: u128| m.failed(k, now_ns).0.is_denied(other, t) == m.is_denied(other, t),
        forall|t: u128| m.failed(k, now_ns).0.is_in_backoff(other, t) == m.is_in_backoff(other, t),
{
}

/// The backoff doubles with each failure until the maximum or the tenth.
pub proof fn backoff_doubles(m: BackoffModel, failures: u32)
    requires
        failures < 10,
        doubling((failures + 1) as u32) * m.base_secs <= m.max_secs,
    ensures
        m.delay_secs((failures + 1) as u32) == 2 * m.delay_secs(failures),
{
    vstd::arithmetic::power2::lemma_pow2_unfold((failures + 1) as nat);
    let d = doubling(failures);
    let b = m.base_secs as int;
    assert(doubling((failures + 1) as u32) == 2 * d);
    assert((2 * d) * b == 2 * (d * b)) by (nonlinear_arith);
    assert(d * b >= 0) by (nonlinear_arith)
        requires
            d >= 0,
            b >= 0,
    ;
}

} // verus!
