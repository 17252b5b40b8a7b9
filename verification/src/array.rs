use vstd::prelude::*;
use crate::timing::{elapsed_ns_capped, instant_now};

verus! {

/// A fixed-capacity, randomly indexable store of signed 64-bit values.
///
/// `init` overwrites every slot in index order and reports how long that
/// pass took; `read` and `write` are single-slot accesses, and each write is
/// immediately visible to the next read. An index at or past the length is
/// the caller's error: the contracts rule it out. The capacity is fixed at
/// construction: no method changes the length.
pub trait ArrayStore: Sized {
    /// The values currently held, in index order.
    spec fn contents(&self) -> Seq<i64>;

    /// A short label naming the backing representation.
    fn name(&self) -> &'static str;

    /// Sets every slot to `v` in index order; returns the wall-clock
    /// duration of the pass in nanoseconds.
    fn init(&mut self, v: i64) -> (elapsed_ns: u64)
        ensures
            final(self).contents() == Seq::new(old(self).contents().len(), |_i: int| v),
    ;

    /// The value at slot `i`.
    fn read(&self, i: usize) -> (r: i64)
        requires
            i < self.contents().len(),
        ensures
            r == self.contents()[i as int],
    ;

    /// Sets slot `i` to `v`.
    fn write(&mut self, i: usize, v: i64)
        requires
            i < old(self).contents().len(),
        ensures
            final(self).contents() == old(self).contents().update(i as int, v),
    ;
}

/// The plain contiguous backing store: a `Vec` of signed 64-bit values.
pub struct VecImpl {
    a: Vec<i64>,
}

impl VecImpl {
    /// A fresh store of `n` slots, all zero.
    pub fn new(n: usize) -> (r: VecImpl)
        ensures
            r.contents() == Seq::new(n as nat, |_i: int| 0i64),
    {
        let mut a: Vec<i64> = Vec::new();
        let mut i: usize = 0;
        while i < n
            invariant
                i <= n,
                a@ == Seq::new(i as nat, |_j: int| 0i64),
            decreases n - i,
        {
            a.push(0);
            i = i + 1;
            proof {
                assert(a@ =~= Seq::new(i as nat, |_j: int| 0i64));
            }
        }
        VecImpl { a }
    }
}

impl ArrayStore for VecImpl {
    closed spec fn contents(&self) -> Seq<i64> {
        self.a@
    }

    fn name(&self) -> &'static str {
        "rust_vec_i64"
    }

    fn init(&mut self, v: i64) -> (elapsed_ns: u64) {
        let t0 = instant_now();
        let n = self.a.len();
        let mut i: usize = 0;
        while i < n
            invariant
                i <= n,
                self.a@.len() == n,
                forall|j: int| 0 <= j < i ==> self.a@[j] == v,
            decreases n - i,
        {
            self.a[i] = v;
            i = i + 1;
        }
        proof {
            assert(self.a@ =~= Seq::new(old(self).contents().len(), |_i: int| v));
        }
        elapsed_ns_capped(&t0)
    }

    fn read(&self, i: usize) -> (r: i64) {
        self.a[i]
    }

    fn write(&mut self, i: usize, v: i64) {
        self.a[i] = v;
    }
}

} // verus!
