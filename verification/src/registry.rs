//! The session registry: the live mapping from peer address to that peer's
//! connection write half. At most one entry per address; all mutation happens
//! under one lock held by the caller.

use vstd::prelude::*;

verus! {

/// The registry, generic over the connection handle it stores.
pub struct Registry<T> {
    addrs: Vec<u64>,
    conns: Vec<T>,
}

impl<T> Registry<T> {
    /// The registered addresses, in iteration order.
    pub closed spec fn addrs(&self) -> Seq<u64> {
        self.addrs@
    }

    /// The connection halves, positionally matching `addrs`.
    pub closed spec fn conns(&self) -> Seq<T> {
        self.conns@
    }

    /// The registry invariant: one connection per address, each address at
    /// most once.
    pub open spec fn wf(&self) -> bool {
        &&& self.addrs().len() == self.conns().len()
        &&& forall|i: int, j: int|
            0 <= i < j < self.addrs().len() ==> self.addrs()[i] != self.addrs()[j]
    }

    /// Whether `addr` is registered.
    pub open spec fn spec_contains(&self, addr: u64) -> bool {
        self.addrs().contains(addr)
    }

    /// An empty registry.
    pub fn new() -> (r: Self)
        ensures
            r.wf(),
            r.addrs() == Seq::<u64>::empty(),
    {
        Registry { addrs: Vec::new(), conns: Vec::new() }
    }

    /// How many sessions are registered.
    pub fn len(&self) -> (r: usize)
        requires
            self.wf(),
        ensures
            r == self.addrs().len(),
    {
        self.addrs.len()
    }

    /// Whether `addr` is registered.
    pub fn contains(&self, addr: u64) -> (r: bool)
        ensures
            r == self.spec_contains(addr),
    {
        let n = self.addrs.len();
        let mut i: usize = 0;
        while i < n
            invariant
                n == self.addrs@.len(),
                i <= n,
                forall|j: int| 0 <= j < i ==> self.addrs@[j] != addr,
            decreases n - i,
        {
            if self.addrs[i] == addr {
                return true;
            }
            i += 1;
        }
        false
    }

    /// Registers a fresh address with its connection half.
    pub fn insert(&mut self, addr: u64, conn: T)
        requires
            old(self).wf(),
            !old(self).spec_contains(addr),
        ensures
            final(self).wf(),
            final(self).addrs() == old(self).addrs().push(addr),
            final(self).conns() == old(self).conns().push(conn),
    {
        self.addrs.push(addr);
        self.conns.push(conn);
        proof {
            assert forall|i: int, j: int|
                0 <= i < j < self.addrs@.len() implies self.addrs@[i] != self.addrs@[j] by {
                if j == self.addrs@.len() - 1 {
                    assert(old(self).addrs().contains(old(self).addrs()[i]));
                }
            }
        }
    }

    /// Removes `addr`, handing back its connection half; `None` when the
    /// address was not registered.
    pub fn remove(&mut self, addr: u64) -> (r: Option<T>)
        requires
            old(self).wf(),
        ensures
            final(self).wf(),
            !final(self).spec_contains(addr),
            match r {
                Some(_) => {
                    &&& old(self).spec_contains(addr)
                    &&& exists|k: int|
                        0 <= k < old(self).addrs().len() && old(self).addrs()[k] == addr
                            && final(self).addrs() == old(self).addrs().remove(k)
                            && final(self).conns() == old(self).conns().remove(k)
                },
                None => !old(self).spec_contains(addr) && *final(self) == *old(self),
            },
            final(self).addrs().len() == old(self).addrs().len() - (
            if old(self).spec_contains(addr) {
                1int
            } else {
                0int
            }),
    {
        let n = self.addrs.len();
        let mut i: usize = 0;
        while i < n
            invariant
                n == self.addrs@.len(),
                i <= n,
                forall|j: int| 0 <= j < i ==> self.addrs@[j] != addr,
                *self == *old(self),
                old(self).wf(),
            decreases n - i,
        {
            if self.addrs[i] == addr {
                self.addrs.remove(i);
                let conn = self.conns.remove(i);
                proof {
                    let k = i as int;
                    assert(old(self).addrs()[k] == addr);
                    assert(old(self).addrs().contains(addr));
                    assert forall|a: int, b: int|
                        0 <= a < b < self.addrs@.len() implies self.addrs@[a]
                        != self.addrs@[b] by {
                        let oa = if a < k {
                            a
                        } else {
                            a + 1
                        };
                        let ob = if b < k {
                            b
                        } else {
                            b + 1
                        };
                        assert(self.addrs@[a] == old(self).addrs()[oa]);
                        assert(self.addrs@[b] == old(self).addrs()[ob]);
                    }
                    assert forall|j: int|
                        0 <= j < self.addrs@.len() implies self.addrs@[j] != addr by {
                        let oj = if j < k {
                            j
                        } else {
                            j + 1
                        };
                        assert(self.addrs@[j] == old(self).addrs()[oj]);
                        if oj != k {
                            assert(old(self).addrs()[oj] != old(self).addrs()[k]) by {
                                if oj < k {
                                    assert(old(self).wf());
                                } else {
                                    assert(old(self).wf());
                                }
                            }
                        }
                    }
                    assert(!self.addrs@.contains(addr));
                }
                return Some(conn);
            }
            i += 1;
        }
        proof {
            assert(!old(self).addrs().contains(addr));
        }
        None
    }

    /// The fan-out targets for a tuple from `sender`: every registered
    /// address except the sender's, in registry order.
    pub fn targets(&self, sender: u64) -> (r: Vec<u64>)
        requires
            self.wf(),
        ensures
            r@ == self.addrs().filter(|a: u64| a != sender),
    {
        broadcast use vstd::seq_lib::group_seq_lib_default;

        let ghost pred = |a: u64| a != sender;
        let n = self.addrs.len();
        let mut out: Vec<u64> = Vec::new();
        let mut i: usize = 0;
        while i < n
            invariant
                n == self.addrs@.len(),
                i <= n,
                pred == (|a: u64| a != sender),
                out@ == self.addrs@.take(i as int).filter(pred),
            decreases n - i,
        {
            proof {
                let t1 = self.addrs@.take(i as int);
                let x = self.addrs@[i as int];
                assert(self.addrs@.take(i + 1) =~= t1.push(x));
                t1.lemma_filter_push(x, pred);
            }
            if self.addrs[i] != sender {
                out.push(self.addrs[i]);
            }
            i += 1;
        }
        proof {
            assert(self.addrs@.take(n as int) =~= self.addrs@);
        }
        out
    }
}

} // verus!
