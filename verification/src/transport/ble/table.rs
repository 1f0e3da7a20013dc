//! Values by BLE address.

use crate::transport::ble::addr::{BleAddr, BleAddrKind};
use vstd::prelude::*;

verus! {

/// What tells one address from another: adapter, device and kind.
pub ghost struct AddrKey {
    pub adapter: Seq<char>,
    pub device: Seq<u8>,
    pub kind: BleAddrKind,
}

impl BleAddr {
    /// The address as a key.
    pub open spec fn key(self) -> AddrKey {
        AddrKey { adapter: self.adapter@, device: self.device@, kind: self.kind }
    }
}

/// A map from addresses to small values.
pub struct AddrTable<V> {
    items: Vec<(BleAddr, V)>,
}

/// Whether an item has this key.
pub closed spec fn has_key<V>(items: Seq<(BleAddr, V)>, i: int, k: AddrKey) -> bool {
    0 <= i < items.len() && items[i].0.key() == k
}

impl<V> View for AddrTable<V> {
    type V = Map<AddrKey, V>;

    closed spec fn view(&self) -> Map<AddrKey, V> {
        Map::new(
            |k: AddrKey| exists|i: int| has_key(self.items@, i, k),
            |k: AddrKey| self.items@[choose|i: int| has_key(self.items@, i, k)].1,
        )
    }
}

impl<V: Copy> AddrTable<V> {
    /// No address is there twice.
    pub closed spec fn wf(self) -> bool {
        forall|i: int, j: int|
            0 <= i < self.items@.len() && 0 <= j < self.items@.len() && i != j ==> (
            #[trigger] self.items@[i]).0.key() != (#[trigger] self.items@[j]).0.key()
    }

    /// An empty table.
    pub fn new() -> (t: AddrTable<V>)
        ensures
            t.wf(),
            t@ == Map::<AddrKey, V>::empty(),
    {
        let t = AddrTable { items: Vec::new() };
        assert(t@ =~= Map::<AddrKey, V>::empty());
        t
    }

    /// Where an address stands.
    fn position(&self, addr: &BleAddr) -> (r: Option<usize>)
        requires
            self.wf(),
        ensures
            match r {
                Some(i) => {
                    &&& i < self.items.len()
                    &&& self.items@[i as int].0.key() == addr.key()
                    &&& self@.contains_key(addr.key())
                    &&& self@[addr.key()] == self.items@[i as int].1
                },
                None => {
                    &&& !self@.contains_key(addr.key())
                    &&& forall|j: int|
                        0 <= j < self.items.len() ==> self.items@[j].0.key() != addr.key()
                },
            },
    {
        let mut i: usize = 0;
        while i < self.items.len()
            invariant
                i <= self.items.len(),
                self.wf(),
                forall|j: int| 0 <= j < i ==> self.items@[j].0.key() != addr.key(),
            decreases self.items.len() - i,
        {
            if self.items[i].0.same(addr) {
                assert(has_key(self.items@, i as int, addr.key()));
                return Some(i);
            }
            i += 1;
        }
        None
    }

    /// The value of an address.
    pub fn get(&self, addr: &BleAddr) -> (r: Option<V>)
        requires
            self.wf(),
        ensures
            match r {
                Some(v) => self@.contains_key(addr.key()) && self@[addr.key()] == v,
                None => !self@.contains_key(addr.key()),
            },
    {
        match self.position(addr) {
            Some(i) => Some(self.items[i].1),
            None => None,
        }
    }

    /// Forgets an address.
    pub fn remove(&mut self, addr: &BleAddr)
        requires
            old(self).wf(),
        ensures
            final(self).wf(),
            final(self)@ == old(self)@.remove(addr.key()),
    {
        let ghost before = self.items@;
        match self.position(addr) {
            Some(i) => {
                self.items.remove(i);
                proof {
                    let after = self.items@;
                    assert(after =~= before.remove(i as int));
                    assert forall|k: AddrKey, j: int|
                        has_key(after, j, k) implies has_key(
                        before,
                        if j < i {
                            j
                        } else {
                            j + 1
                        },
                        k,
                    ) by {}
                    assert forall|k: AddrKey, j: int|
                        has_key(before, j, k) && j != i implies has_key(
                        after,
                        if j < i {
                            j
                        } else {
                            j - 1
                        },
                        k,
                    ) by {}
                    assert(self.wf());
                    table_ext(*old(self), *self, addr.key(), i as int);
                }
            },
            None => {
                assert(self@ =~= old(self)@.remove(addr.key()));
            },
        }
    }

    /// Sets the value of an address.
    pub fn insert(&mut self, addr: &BleAddr, v: V)
        requires
            old(self).wf(),
        ensures
            final(self).wf(),
            final(self)@ == old(self)@.insert(addr.key(), v),
    {
        self.remove(addr);
        let ghost before = self.items@;
        let ghost mid = *self;
        assert(self.position_free(addr.key())) by {
            assert forall|j: int| 0 <= j < before.len() implies (#[trigger] before[j]).0.key()
                != addr.key() by {
                if before[j].0.key() == addr.key() {
                    assert(has_key(before, j, addr.key()));
                    assert(mid@.contains_key(addr.key()));
                }
            }
        }
        self.items.push((addr.copied(), v));
        proof {
            let after = self.items@;
            let n = before.len() as int;
            assert(has_key(after, n, addr.key()));
            assert forall|k: AddrKey, j: int| has_key(before, j, k) implies has_key(
                after,
                j,
                k,
            ) by {}
            assert forall|k: AddrKey, j: int|
                has_key(after, j, k) && j < n implies has_key(before, j, k) by {}
            assert(self.wf());
            assert forall|k: AddrKey| self@.contains_key(k) <==> mid@.insert(
                addr.key(),
                v,
            ).contains_key(k) by {
                if mid@.contains_key(k) {
                    let j = choose|j: int| has_key(before, j, k);
                    assert(has_key(after, j, k));
                }
            }
            assert forall|k: AddrKey| #[trigger] self@.contains_key(k) implies self@[k]
                == mid@.insert(addr.key(), v)[k] by {
                let j = choose|j: int| has_key(after, j, k);
                if k == addr.key() {
                    assert(j == n);
                } else {
                    assert(has_key(before, j, k));
                    let m = choose|m: int| has_key(before, m, k);
                    assert(after[m].0.key() == after[j].0.key());
                    assert(m == j);
                }
            }
            assert(self@ =~= mid@.insert(addr.key(), v));
            assert(self@ =~= old(self)@.insert(addr.key(), v));
        }
    }

    /// Whether no item has this key.
    closed spec fn position_free(self, k: AddrKey) -> bool {
        forall|j: int| 0 <= j < self.items@.len() ==> (#[trigger] self.items@[j]).0.key() != k
    }
}

/// The view after the item at `i` has gone.
proof fn table_ext<V: Copy>(a: AddrTable<V>, b: AddrTable<V>, k: AddrKey, i: int)
    requires
        a.wf(),
        b.wf(),
        0 <= i < a.items@.len(),
        a.items@[i].0.key() == k,
        b.items@ == a.items@.remove(i),
    ensures
        b@ == a@.remove(k),
{
    let x = a.items@;
    let y = b.items@;
    assert forall|q: AddrKey| b@.contains_key(q) <==> a@.remove(k).contains_key(q) by {
        if b@.contains_key(q) {
            let j = choose|j: int| has_key(y, j, q);
            let m = if j < i {
                j
            } else {
                j + 1
            };
            assert(has_key(x, m, q));
            assert(x[m].0.key() != x[i].0.key());
        }
        if a@.remove(k).contains_key(q) {
            let j = choose|j: int| has_key(x, j, q);
            let m = if j < i {
                j
            } else {
                j - 1
            };
            assert(has_key(y, m, q));
        }
    }
    assert forall|q: AddrKey| #[trigger] b@.contains_key(q) implies b@[q] == a@.remove(k)[q] by {
        let j = choose|j: int| has_key(y, j, q);
        let m = if j < i {
            j
        } else {
            j + 1
        };
        assert(has_key(x, m, q));
        let n = choose|n: int| has_key(x, n, q);
        assert(x[n].0.key() == x[m].0.key());
        assert(n == m);
    }
    assert(b@ =~= a@.remove(k));
}

} // verus!
