//! Cutting a range into consecutive slices of one size, produced one at a time.

use crate::range::Range;
use vstd::arithmetic::div_mod::{
    lemma_basic_div, lemma_div_by_self, lemma_div_plus_one, lemma_div_pos_is_pos,
    lemma_fundamental_div_mod, lemma_mod_bound,
};
use vstd::arithmetic::mul::{
    lemma_mul_inequality, lemma_mul_is_commutative, lemma_mul_is_distributive_add_other_way,
    lemma_mul_nonnegative,
};
use vstd::prelude::*;

verus! {

impl Range {
    /// How many whole slices of `size` values fit into the range: the count
    /// of its values divided by `size`, rounded down.
    pub open spec fn spec_slice_count(&self, size: u64) -> nat {
        if self.wf() && size > 0 {
            (self.spec_len() / (size as int)) as nat
        } else {
            0
        }
    }

    /// The slice with index `i`: `size` values, the first of which lies
    /// `i * size` above `self.min`.
    pub open spec fn spec_slice(&self, size: u64, i: int) -> Range {
        Range { min: (self.min + i * size) as u64, max: (self.min + i * size + size - 1) as u64 }
    }

    /// Mathematical meaning of [`Range::each_slice`]: the whole slices of the
    /// range in ascending order. The values that are left over at the upper
    /// end, fewer than `size`, belong to no slice.
    pub open spec fn spec_each_slice(&self, size: u64) -> Seq<Range> {
        Seq::new(self.spec_slice_count(size), |i: int| self.spec_slice(size, i))
    }

    /// Cuts the range into consecutive slices of `size` values each, starting
    /// at `min`, and hands them out one at a time through [`Slices::next`].
    /// A rest of fewer than `size` values at the upper end is dropped.
    ///
    /// Nothing is computed before the first call of `next`, and every call of
    /// `each_slice` starts a sequence of its own.
    pub fn each_slice(&self, size: u64) -> (s: Slices)
        requires
            self.wf(),
            size > 0,
        ensures
            s@ == self.spec_each_slice(size),
    {
        Slices { rest: Some(*self), size }
    }
}

/// The slices of a range that have not been handed out yet.
///
/// Its view is the sequence of the slices still to come, in the order in
/// which [`Slices::next`] returns them. The sequence is finite and only ever
/// gets shorter.
pub struct Slices {
    /// The part of the range that is not cut yet; `None` once it is used up.
    rest: Option<Range>,
    /// The number of values in each slice.
    size: u64,
}

impl View for Slices {
    type V = Seq<Range>;

    closed spec fn view(&self) -> Seq<Range> {
        match self.rest {
            Some(r) => r.spec_each_slice(self.size),
            None => Seq::empty(),
        }
    }
}

impl Slices {
    #[verifier::type_invariant]
    spec fn inv(self) -> bool {
        &&& self.size > 0
        &&& self.rest matches Some(r) ==> r.wf()
    }

    /// Hands out the next slice and drops it from the sequence, or returns
    /// `None` and changes nothing when no slice is left. After a `None` every
    /// further call returns `None` too.
    pub fn next(&mut self) -> (item: Option<Range>)
        ensures
            match item {
                Some(slice) => {
                    &&& old(self)@.len() > 0
                    &&& slice == old(self)@.first()
                    &&& final(self)@ == old(self)@.drop_first()
                },
                None => old(self)@.len() == 0 && final(self)@ == old(self)@,
            },
    {
        proof {
            use_type_invariant(&*self);
        }
        let size: u64 = self.size;
        match self.rest {
            Some(r) => {
                if r.max - r.min >= size - 1 {
                    let hi: u64 = r.min + (size - 1);
                    let slice = Range { min: r.min, max: hi };
                    proof {
                        lemma_slice_count_step(r, size);
                        assert(slice == r.spec_slice(size, 0));
                    }
                    if hi < r.max {
                        let rest = Range { min: hi + 1, max: r.max };
                        self.rest = Some(rest);
                        proof {
                            lemma_slices_shift(r, rest, size);
                        }
                    } else {
                        self.rest = None;
                        proof {
                            lemma_div_by_self(size as int);
                            assert(r.spec_each_slice(size).drop_first() =~= Seq::<Range>::empty());
                        }
                    }
                    Some(slice)
                } else {
                    proof {
                        lemma_basic_div(r.spec_len(), size as int);
                    }
                    None
                }
            },
            None => None,
        }
    }
}

/// A range that holds at least `size` values has one slice more than what is
/// left of it above its first `size` values.
proof fn lemma_slice_count_step(r: Range, size: u64)
    requires
        r.wf(),
        size > 0,
        r.spec_len() >= size,
    ensures
        r.spec_slice_count(size) >= 1,
        r.spec_slice_count(size) == 1 + (r.spec_len() - size) / (size as int),
{
    let d: int = size as int;
    let x: int = r.spec_len() - d;
    assert(d + x == r.spec_len());
    lemma_div_plus_one(x, d);
    lemma_div_pos_is_pos(x, d);
}

/// Cutting the first slice off a range moves every later slice one index down.
proof fn lemma_slices_shift(r: Range, rest: Range, size: u64)
    requires
        r.wf(),
        size > 0,
        r.spec_len() > size,
        rest.min == r.min + size,
        rest.max == r.max,
    ensures
        rest.spec_each_slice(size) == r.spec_each_slice(size).drop_first(),
{
    lemma_slice_count_step(r, size);
    assert(rest.spec_len() == r.spec_len() - size);
    assert forall|i: int| 0 <= i < rest.spec_slice_count(size) implies rest.spec_slice(size, i)
        == r.spec_slice(size, i + 1) by {
        lemma_mul_is_distributive_add_other_way(size as int, i, 1);
    }
    assert(rest.spec_each_slice(size) =~= r.spec_each_slice(size).drop_first());
}

/// The slice with index `i` ends within the range, so neither of its bounds
/// leaves the domain of `u64`.
proof fn lemma_slice_fits(r: Range, size: u64, i: int)
    requires
        r.wf(),
        size > 0,
        0 <= i < r.spec_slice_count(size),
    ensures
        0 <= i * size,
        r.min + i * size + size - 1 <= r.max,
{
    let d: int = size as int;
    let n: int = r.spec_len() / d;
    lemma_fundamental_div_mod(r.spec_len(), d);
    lemma_mod_bound(r.spec_len(), d);
    lemma_mul_is_commutative(d, n);
    lemma_mul_inequality(i + 1, n, d);
    lemma_mul_is_distributive_add_other_way(d, i, 1);
    lemma_mul_nonnegative(i, d);
}

/// The slices of a range are a partition of its lower part. There are as
/// many as `size` goes into the count of its values. Each slice has its
/// bounds in order, covers `size` values and lies within the range. The
/// first begins at `min`, each further one directly after the one before
/// it, and the values above the last one are those left over by the
/// division, fewer than `size`.
pub proof fn lemma_slices_partition(r: Range, size: u64)
    requires
        r.wf(),
        size > 0,
    ensures
        ({
            let slices = r.spec_each_slice(size);
            &&& slices.len() == r.spec_len() / (size as int)
            &&& slices.len() == 0 <==> r.spec_len() < size
            &&& forall|i: int|
                0 <= i < slices.len() ==> {
                    let s = #[trigger] slices[i];
                    &&& s.wf()
                    &&& s.spec_len() == size
                    &&& s.min == r.min + i * size
                    &&& r.min <= s.min
                    &&& s.max <= r.max
                }
            &&& forall|i: int, j: int|
                0 <= i && j == i + 1 && j < slices.len() ==> (#[trigger] slices[j]).min == (
                #[trigger] slices[i]).max + 1
            &&& slices.len() > 0 ==> {
                &&& slices.first().min == r.min
                &&& r.max - slices.last().max == r.spec_len() % (size as int)
                &&& r.max - slices.last().max < size
            }
        }),
{
    let d: int = size as int;
    let slices = r.spec_each_slice(size);
    let n: int = slices.len() as int;
    lemma_fundamental_div_mod(r.spec_len(), d);
    lemma_mod_bound(r.spec_len(), d);
    lemma_div_pos_is_pos(r.spec_len(), d);
    assert forall|i: int| 0 <= i < n implies {
        let s = #[trigger] slices[i];
        &&& s.wf()
        &&& s.spec_len() == size
        &&& s.min == r.min + i * size
        &&& r.min <= s.min
        &&& s.max <= r.max
    } by {
        lemma_slice_fits(r, size, i);
    }
    assert forall|i: int, j: int| 0 <= i && j == i + 1 && j < n implies (#[trigger] slices[j]).min
        == (#[trigger] slices[i]).max + 1 by {
        lemma_slice_fits(r, size, i);
        lemma_slice_fits(r, size, j);
        lemma_mul_is_distributive_add_other_way(d, i, 1);
    }
    if n > 0 {
        assert(slices.first().min == r.min) by {
            lemma_slice_fits(r, size, 0);
        }
        assert(r.max - slices.last().max == r.spec_len() % d) by {
            lemma_slice_fits(r, size, n - 1);
            lemma_mul_is_distributive_add_other_way(d, n - 1, 1);
            lemma_mul_is_commutative(d, n);
        }
    }
    assert(n == 0 <==> r.spec_len() < size) by {
        if r.spec_len() < size {
            lemma_basic_div(r.spec_len(), d);
        } else {
            lemma_slice_count_step(r, size);
        }
    }
}

} // verus!
