//! The total order on ranges, and the comparator that looks a range up by
//! overlap in a sorted collection of disjoint ranges.

use crate::range::Range;
use std::cmp::Ordering;
use vstd::prelude::*;
use vstd::std_specs::cmp::{PartialOrdIs, PartialOrdSpec, PartialOrdSpecImpl};

verus! {

/// The lexicographic order on ranges: by `min` first, and by `max` where the
/// lower bounds are equal.
pub open spec fn lexicographic(a: Range, b: Range) -> Ordering {
    if a.min < b.min {
        Ordering::Less
    } else if a.min > b.min {
        Ordering::Greater
    } else if a.max < b.max {
        Ordering::Less
    } else if a.max > b.max {
        Ordering::Greater
    } else {
        Ordering::Equal
    }
}

impl Range {
    /// Compares two ranges lexicographically: by `min`, and by `max` where
    /// the lower bounds are equal.
    ///
    /// A call `a.cmp(&b)` reaches this function; the derived `Ord`, which
    /// sorting and ordered collections go through, orders in the same way.
    pub fn cmp(&self, other: &Range) -> (o: Ordering)
        ensures
            o == lexicographic(*self, *other),
    {
        let first_cmp = self.min.cmp(&other.min);
        match first_cmp {
            Ordering::Equal => self.max.cmp(&other.max),
            _ => first_cmp,
        }
    }
}

impl PartialOrd for Range {
    /// Compares lexicographically; the answer is never `None`.
    fn partial_cmp(&self, other: &Range) -> (o: Option<Ordering>) {
        Some(self.cmp(other))
    }
}

impl PartialOrdSpecImpl for Range {
    open spec fn obeys_partial_cmp_spec() -> bool {
        true
    }

    open spec fn partial_cmp_spec(&self, other: &Range) -> Option<Ordering> {
        Some(lexicographic(*self, *other))
    }
}

impl Range {
    /// Mathematical meaning of [`Range::intersection_cmp`]: `Equal` for two
    /// ranges that overlap, and their lexicographic order otherwise.
    pub open spec fn intersection_order(&self, b: &Range) -> Ordering {
        if self.spec_intersect(b) {
            Ordering::Equal
        } else {
            lexicographic(*self, *b)
        }
    }

    /// Compares two ranges for a search by overlap: `Equal` if they share a
    /// value, otherwise `Less` or `Greater` as the lexicographic order has it.
    ///
    /// This is no order: `Equal` is not transitive along a chain of
    /// overlapping ranges. It is meant for a binary search in a sorted
    /// collection whose ranges are pairwise disjoint, where it finds a range
    /// that overlaps the key.
    pub fn intersection_cmp(&self, b: &Range) -> (o: Ordering)
        requires
            self.wf(),
            b.wf(),
        ensures
            o == self.intersection_order(b),
            o == Ordering::Equal <==> self.spec_intersect(b),
            o == Ordering::Less <==> self.max < b.min,
            o == Ordering::Greater <==> b.max < self.min,
    {
        if self.intersect(b) {
            return Ordering::Equal;
        }
        if self < b {
            return Ordering::Less;
        }
        Ordering::Greater
    }
}

/// The order that `<`, `<=`, `>` and `>=` compute on ranges is lexicographic:
/// the lower bounds decide, and where they are equal the upper bounds do.
pub proof fn lemma_order_is_lexicographic(a: Range, b: Range)
    ensures
        PartialOrdSpec::partial_cmp_spec(&a, &b) == Some(lexicographic(a, b)),
        a.is_lt(&b) <==> a.min < b.min || (a.min == b.min && a.max < b.max),
        a.is_gt(&b) <==> a.min > b.min || (a.min == b.min && a.max > b.max),
        a.is_le(&b) <==> !a.is_gt(&b),
        a.is_ge(&b) <==> !a.is_lt(&b),
        lexicographic(a, b) == Ordering::Equal <==> a == b,
{
}

/// The lexicographic order is total: swapping the two ranges swaps `Less`
/// and `Greater`, and `Less` is transitive.
pub proof fn lemma_order_is_total(a: Range, b: Range, c: Range)
    ensures
        lexicographic(a, b) == Ordering::Less <==> lexicographic(b, a) == Ordering::Greater,
        lexicographic(a, b) == Ordering::Equal <==> lexicographic(b, a) == Ordering::Equal,
        lexicographic(a, b) == Ordering::Less && lexicographic(b, c) == Ordering::Less
            ==> lexicographic(a, c) == Ordering::Less,
{
}

/// Between two ranges with their bounds in order, the comparison by overlap
/// says `Less` exactly if the first ends before the second begins, `Greater`
/// exactly if it begins after the second ends, and `Equal` otherwise; so
/// swapping the two swaps `Less` and `Greater`.
pub proof fn lemma_intersection_order_sides(a: Range, b: Range)
    requires
        a.wf(),
        b.wf(),
    ensures
        a.intersection_order(&b) == Ordering::Less <==> a.max < b.min,
        a.intersection_order(&b) == Ordering::Greater <==> b.max < a.min,
        a.intersection_order(&b) == Ordering::Equal <==> a.intersect(&b),
        a.intersection_order(&b) == Ordering::Less <==> b.intersection_order(&a)
            == Ordering::Greater,
{
}

/// What makes the search by overlap work. Let `a` end before `b` begins, as
/// two neighbours in a sorted collection of disjoint ranges do. Compared with
/// one key, `a` is `Less` wherever `b` is, and `b` is `Greater` wherever `a`
/// is: along the collection the answers run from `Less` over `Equal` to
/// `Greater` and never back.
pub proof fn lemma_intersection_order_monotonic(a: Range, b: Range, key: Range)
    requires
        a.wf(),
        b.wf(),
        key.wf(),
        a.max < b.min,
    ensures
        b.intersection_order(&key) == Ordering::Less ==> a.intersection_order(&key)
            == Ordering::Less,
        a.intersection_order(&key) == Ordering::Greater ==> b.intersection_order(&key)
            == Ordering::Greater,
        b.intersection_order(&key) == Ordering::Equal ==> a.intersection_order(&key)
            != Ordering::Greater,
        a.intersection_order(&key) == Ordering::Equal ==> b.intersection_order(&key)
            != Ordering::Less,
{
}

/// The comparison by overlap is no order. There are three ranges with their
/// bounds in order of which the first overlaps the second and the second the
/// third, so that both pairs compare `Equal`, while the first lies to the
/// left of the third and compares `Less`.
pub proof fn lemma_intersection_order_not_transitive()
    ensures
        exists|a: Range, b: Range, c: Range|
            {
                &&& a.wf() && b.wf() && c.wf()
                &&& #[trigger] a.intersection_order(&b) == Ordering::Equal
                &&& #[trigger] b.intersection_order(&c) == Ordering::Equal
                &&& a.intersection_order(&c) == Ordering::Less
            },
{
    let a = Range { min: 0, max: 5 };
    let b = Range { min: 5, max: 10 };
    let c = Range { min: 10, max: 15 };
    assert(a.intersection_order(&b) == Ordering::Equal);
    assert(b.intersection_order(&c) == Ordering::Equal);
    assert(a.intersection_order(&c) == Ordering::Less);
}

} // verus!
