//! Limiting of routing error signals.

use crate::identity::NodeAddr;
use crate::node::routing_error_rate_limit::{
    LimitVerdict, LimiterModel, DEFAULT_MIN_INTERVAL_NS,
};
use vstd::prelude::*;

verus! {

/// After a signal that was recorded, another about the same destination is
/// suppressed exactly while the interval since lasts: the time between the two
/// decides, not the time itself.
pub proof fn signals_are_spaced(m: LimiterModel, dest: NodeAddr, t: u128, later: u128)
    requires
        m.checked(dest, t).1 == LimitVerdict::Admit,
        t <= later,
    ensures
        m.checked(dest, t).0.checked(dest, later).1 == LimitVerdict::Suppress <==> later - t
            < m.min_interval_ns,
        DEFAULT_MIN_INTERVAL_NS == 100_000_000,
{
    let after = m.checked(dest, t).0;
    assert(after.last_sent.contains_key(dest.value));
    assert(after.last_sent[dest.value] == t);
}

/// A destination that is not remembered is always signalled. With fewer than 4096
/// remembered it is recorded; with 4096, and the last sweep less than a second and
/// a quarter ago, nothing changes.
pub proof fn new_destinations_are_signalled(m: LimiterModel, dest: NodeAddr, now_ns: u128)
    requires
        !m.last_sent.contains_key(dest.value),
        m.last_sweep_ns <= now_ns,
    ensures
        m.checked(dest, now_ns).1 != LimitVerdict::Suppress,
        m.last_sent.len() < 4096 ==> {
            let (after, verdict) = m.checked(dest, now_ns);
            &&& verdict == LimitVerdict::Admit
            &&& after.last_sent.contains_key(dest.value) && after.last_sent[dest.value] == now_ns
        },
        m.last_sent.len() >= 4096 && now_ns - m.last_sweep_ns < 1_250_000_000 ==> m.checked(
            dest,
            now_ns,
        ) == (m, LimitVerdict::AdmitAtCapacity),
{
}

/// A sweep forgets what is ten seconds old or older and nothing else, and happens
/// with a recorded signal exactly when the last one is at least a second and a
/// quarter ago.
pub proof fn old_destinations_are_forgotten(
    m: LimiterModel,
    dest: NodeAddr,
    other: u128,
    now_ns: u128,
)
    requires
        m.last_sent.len() < 4096,
        !m.last_sent.contains_key(dest.value),
        m.last_sent.contains_key(other),
        m.last_sent[other] <= now_ns,
        m.last_sweep_ns <= now_ns,
        m.sweeps < u64::MAX,
    ensures
        ({
            let after = m.checked(dest, now_ns).0;
            let due = now_ns - m.last_sweep_ns >= 1_250_000_000;
            let old_one = now_ns - m.last_sent[other] >= 10_000_000_000;
            &&& after.last_sent.contains_key(other) <==> !(due && old_one)
            &&& after.last_sent.contains_key(other) ==> after.last_sent[other]
                == m.last_sent[other]
            &&& after.sweeps == m.sweeps + if due {
                1int
            } else {
                0int
            }
            &&& after.last_sweep_ns == if due {
                now_ns
            } else {
                m.last_sweep_ns
            }
        }),
{
    assert(other != dest.value);
}

/// A full map in which all is old makes room when a sweep is due: the new
/// destination is recorded, and is then the only one.
pub proof fn full_map_of_old_entries_makes_room(m: LimiterModel, dest: NodeAddr, now_ns: u128)
    requires
        m.last_sent.len() >= 4096,
        !m.last_sent.contains_key(dest.value),
        forall|k: u128| #[trigger]
            m.last_sent.contains_key(k) ==> m.last_sent[k] + 10_000_000_000 <= now_ns,
        m.last_sweep_ns + 1_250_000_000 <= now_ns,
    ensures
        m.checked(dest, now_ns).1 == LimitVerdict::Admit,
        forall|k: u128| #[trigger]
            m.checked(dest, now_ns).0.last_sent.contains_key(k) <==> k == dest.value,
{
    let swept = m.swept(now_ns);
    assert(swept.last_sent =~= Map::empty());
    assert(swept.last_sent.dom() =~= Set::empty());
}

} // verus!
