//! Timestamps by key, and forgetting the old ones.

use std::collections::HashMap;
use vstd::prelude::*;
use vstd::std_specs::iter::IteratorSpec;

verus! {

broadcast use vstd::std_specs::hash::group_hash_axioms;

/// Time from `at` to `now`; zero where `at` lies ahead.
pub open spec fn since(now: u128, at: u128) -> int {
    if now >= at {
        now - at
    } else {
        0
    }
}

/// The entries younger than `max_age`.
pub open spec fn recent(m: Map<u128, u128>, now: u128, max_age: u128) -> Map<u128, u128> {
    m.restrict(Set::new(|k: u128| m.contains_key(k) && since(now, m[k]) < max_age))
}

/// Time from `at` to `now`, or zero.
pub fn elapsed_since(now: u128, at: u128) -> (d: u128)
    ensures
        d == since(now, at),
{
    if now >= at {
        now - at
    } else {
        0
    }
}

/// Keeps the entries younger than `max_age`.
pub fn retain_recent(m: &mut HashMap<u128, u128>, now: u128, max_age: u128)
    ensures
        final(m)@ == recent(old(m)@, now, max_age),
        final(m)@.len() <= old(m)@.len(),
{
    let ghost m0 = m@;
    let mut stale: Vec<u128> = Vec::new();
    for key in it: m.keys()
        invariant
            m@ == m0,
            it.seq() == m.keys().remaining(),
            forall|j: int|
                0 <= j < stale.len() ==> m0.contains_key(#[trigger] stale[j]) && since(
                    now,
                    m0[stale[j]],
                ) >= max_age,
            forall|j: int|
                0 <= j < it.index() && since(now, m0[*#[trigger] it.seq()[j]]) >= max_age
                    ==> stale@.contains(*it.seq()[j]),
    {
        let ghost before = stale@;
        if let Some(at) = m.get(key) {
            if elapsed_since(now, *at) >= max_age {
                stale.push(*key);
                assert(stale@[before.len() as int] == *key);
                assert forall|x: u128| before.contains(x) implies stale@.contains(x) by {
                    let j = choose|j: int| 0 <= j < before.len() && before[j] == x;
                    assert(stale@[j] == x);
                }
            }
        }
    }
    assert forall|k: u128|
        m0.contains_key(k) && since(now, m0[k]) >= max_age implies stale@.contains(k) by {
        assert(m.keys().remaining().unref().to_set().contains(k));
    }
    let mut i: usize = 0;
    while i < stale.len()
        invariant
            i <= stale.len(),
            m@ == m0.remove_keys(stale@.take(i as int).to_set()),
        decreases stale.len() - i,
    {
        m.remove(&stale[i]);
        proof {
            assert(stale@.take(i + 1) =~= stale@.take(i as int).push(stale@[i as int]));
            stale@.take(i as int).lemma_push_to_set_commute(stale@[i as int]);
            assert(m@ =~= m0.remove_keys(stale@.take(i + 1).to_set()));
        }
        i += 1;
    }
    proof {
        assert(stale@.take(i as int) =~= stale@);
        assert(m@ =~= recent(m0, now, max_age));
        vstd::set_lib::lemma_len_subset(m@.dom(), m0.dom());
    }
}

} // verus!
