//! The registry of parked dynamic workers.

use crate::ranges::{copy_range, position_of};
use vstd::prelude::*;

verus! {

/// The sequence `s` without the worker `v`, where it holds it.
pub open spec fn without(s: Seq<u64>, v: u64) -> Seq<u64> {
    if s.contains(v) {
        s.remove(s.index_of(v))
    } else {
        s
    }
}

/// Taking a worker out of a registry leaves the others as they were, each
/// still registered once.
pub proof fn lemma_without_is_distinct(parked: Seq<u64>, worker: u64)
    requires
        parked.no_duplicates(),
    ensures
        without(parked, worker).no_duplicates(),
        !without(parked, worker).contains(worker),
        forall|other: u64|
            other != worker ==> (without(parked, worker).contains(other) <==> parked.contains(
                other,
            )),
{
    let rest = without(parked, worker);
    if parked.contains(worker) {
        let i = parked.index_of(worker);
        assert forall|a: int, b: int| 0 <= a < rest.len() && 0 <= b < rest.len() && a != b implies rest[a]
            != rest[b] by {
            let a0 = if a < i { a } else { a + 1 };
            let b0 = if b < i { b } else { b + 1 };
            assert(rest[a] == parked[a0] && rest[b] == parked[b0]);
        }
        if rest.contains(worker) {
            let a = choose|a: int| 0 <= a < rest.len() && rest[a] == worker;
            let a0 = if a < i { a } else { a + 1 };
            assert(parked[a0] == worker);
        }
        assert forall|other: u64| other != worker implies (rest.contains(other) <==> parked.contains(
            other,
        )) by {
            if rest.contains(other) {
                let a = choose|a: int| 0 <= a < rest.len() && rest[a] == other;
                let a0 = if a < i { a } else { a + 1 };
                assert(parked[a0] == other);
            }
            if parked.contains(other) {
                let a0 = choose|a0: int| 0 <= a0 < parked.len() && parked[a0] == other;
                let a = if a0 < i { a0 } else { a0 - 1 };
                assert(rest[a] == other);
            }
        }
    }
}

/// The dynamic workers that are parked, each known by a number that the
/// embedding program chose for it. A worker is registered at most once, and
/// the worker that has been parked longest is woken first.
pub struct ParkRegistry {
    parked: Vec<u64>,
}

impl View for ParkRegistry {
    type V = Seq<u64>;

    closed spec fn view(&self) -> Seq<u64> {
        self.parked@
    }
}

impl ParkRegistry {
    /// No worker is registered twice.
    #[verifier::type_invariant]
    pub open spec fn distinct(self) -> bool {
        self@.no_duplicates()
    }

    /// A registry with no worker in it.
    pub fn new() -> (r: ParkRegistry)
        ensures
            r@ == Seq::<u64>::empty(),
    {
        ParkRegistry { parked: Vec::new() }
    }

    /// The number of parked workers.
    pub fn len(&self) -> (n: usize)
        ensures
            n == self@.len(),
            self@.no_duplicates(),
    {
        proof {
            use_type_invariant(self);
        }
        self.parked.len()
    }

    /// Whether `worker` is registered as parked.
    pub fn contains(&self, worker: u64) -> (b: bool)
        ensures
            b == self@.contains(worker),
    {
        let i = position_of(&self.parked, worker);
        i < self.parked.len()
    }

    /// The parked workers, the one parked longest first.
    pub fn workers(&self) -> (w: Vec<u64>)
        ensures
            w@ == self@,
            self@.no_duplicates(),
    {
        proof {
            use_type_invariant(self);
        }
        self.parked.clone()
    }

    /// Registers `worker` as parked. Returns whether it was added: a worker
    /// that is registered already stays where it is.
    pub fn park(&mut self, worker: u64) -> (added: bool)
        ensures
            added == !old(self)@.contains(worker),
            final(self)@ == if added {
                old(self)@.push(worker)
            } else {
                old(self)@
            },
            final(self)@.no_duplicates(),
    {
        proof {
            use_type_invariant(&*self);
        }
        if self.contains(worker) {
            return false;
        }
        let mut next = self.parked.clone();
        next.push(worker);
        self.parked = next;
        true
    }

    /// Takes the workers that have been parked longest out of the registry,
    /// `n` of them or all where there are fewer, to be woken.
    pub fn wake(&mut self, n: usize) -> (woken: Vec<u64>)
        ensures
            woken@ == old(self)@.take(if n <= old(self)@.len() { n as int } else { old(self)@.len() as int }),
            final(self)@ == old(self)@.skip(woken@.len() as int),
            final(self)@.no_duplicates(),
    {
        proof {
            use_type_invariant(&*self);
        }
        let len = self.parked.len();
        let k = if n <= len {
            n
        } else {
            len
        };
        let woken = copy_range(&self.parked, 0, k);
        let rest = copy_range(&self.parked, k, len);
        self.parked = rest;
        woken
    }

    /// Takes the worker that has been parked longest out of the registry, to
    /// be woken, or `None` where no worker is parked.
    pub fn wake_one(&mut self) -> (woken: Option<u64>)
        ensures
            woken == if old(self)@.len() > 0 {
                Some(old(self)@[0])
            } else {
                None
            },
            final(self)@ == if old(self)@.len() > 0 {
                old(self)@.skip(1)
            } else {
                old(self)@
            },
            final(self)@.no_duplicates(),
    {
        let woken = self.wake(1);
        if woken.len() > 0 {
            Some(woken[0])
        } else {
            None
        }
    }

    /// Takes `worker` out of the registry. Returns whether it was there.
    pub fn remove(&mut self, worker: u64) -> (found: bool)
        ensures
            found == old(self)@.contains(worker),
            final(self)@ == without(old(self)@, worker),
            !final(self)@.contains(worker),
            final(self)@.no_duplicates(),
    {
        proof {
            use_type_invariant(&*self);
        }
        let len = self.parked.len();
        let i = position_of(&self.parked, worker);
        if i == len {
            return false;
        }
        let mut next = copy_range(&self.parked, 0, i);
        let mut tail = copy_range(&self.parked, i + 1, len);
        next.append(&mut tail);
        proof {
            assert(self.parked@.index_of(worker) == i);
            assert(next@ =~= without(self.parked@, worker));
            lemma_without_is_distinct(self.parked@, worker);
        }
        self.parked = next;
        true
    }
}

} // verus!
