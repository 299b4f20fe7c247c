//! Copies of parts of a vector of numbers.

use vstd::prelude::*;

verus! {

/// The items of `w` from place `from` up to, not including, place `to`.
pub(crate) fn copy_range(w: &Vec<u64>, from: usize, to: usize) -> (r: Vec<u64>)
    requires
        from <= to <= w.len(),
    ensures
        r@ == w@.subrange(from as int, to as int),
{
    let mut r: Vec<u64> = Vec::new();
    let mut i: usize = from;
    while i < to
        invariant
            from <= i <= to <= w.len(),
            r@ == w@.subrange(from as int, i as int),
        decreases to - i,
    {
        r.push(w[i]);
        assert(r@ =~= w@.subrange(from as int, i + 1));
        i += 1;
    }
    r
}

/// The place of the first item of `w` that equals `v`, or the length of
/// `w` where none does.
pub(crate) fn position_of(w: &Vec<u64>, v: u64) -> (i: usize)
    ensures
        i <= w.len(),
        i < w.len() ==> w@[i as int] == v,
        forall|j: int| 0 <= j < i ==> w@[j] != v,
{
    let mut i: usize = 0;
    while i < w.len()
        invariant
            i <= w.len(),
            forall|j: int| 0 <= j < i ==> w@[j] != v,
        decreases w.len() - i,
    {
        if w[i] == v {
            return i;
        }
        i += 1;
    }
    i
}

} // verus!
