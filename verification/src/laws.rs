//! Laws that relate the operations on ranges to each other and to the sets of
//! values that the ranges cover.

use crate::range::Range;
use vstd::math::{max, min};
use vstd::prelude::*;
use vstd::set_lib::{lemma_int_range, set_int_range};

verus! {

/// Overlap does not depend on the order of the two ranges.
pub proof fn lemma_intersect_symmetric(a: Range, b: Range)
    ensures
        a.intersect(&b) == b.intersect(&a),
{
}

/// A range with its bounds in order overlaps itself.
pub proof fn lemma_intersect_reflexive(a: Range)
    requires
        a.wf(),
    ensures
        a.intersect(&a),
{
}

/// Two ranges overlap exactly if both have their bounds in order and some
/// value lies in both.
pub proof fn lemma_intersect_shares_value(a: Range, b: Range)
    ensures
        a.intersect(&b) <==> exists|v: int| a.contains(v) && b.contains(v),
        a.intersect(&b) <==> !a@.disjoint(b@),
        a.intersect(&b) ==> a.wf() && b.wf(),
{
    if a.intersect(&b) {
        let v: int = a.get_intersection(&b).min as int;
        assert(a.contains(v) && b.contains(v));
        assert(a@.contains(v) && b@.contains(v));
    }
    if !a@.disjoint(b@) {
        let v: int = choose|v: int| a@.contains(v) && b@.contains(v);
        assert(a.contains(v) && b.contains(v));
    }
}

/// The intersection of two overlapping ranges has its bounds in order, lies
/// within both of them, and covers exactly the values that both cover.
pub proof fn lemma_intersection_within_both(a: Range, b: Range)
    requires
        a.intersect(&b),
    ensures
        a.get_intersection(&b).wf(),
        a.min <= a.get_intersection(&b).min && a.get_intersection(&b).max <= a.max,
        b.min <= a.get_intersection(&b).min && a.get_intersection(&b).max <= b.max,
        a.get_intersection(&b)@ == a@.intersect(b@),
        a.get_intersection(&b) == b.get_intersection(&a),
{
    assert(a.get_intersection(&b)@ =~= a@.intersect(b@));
}

/// The union of two ranges with their bounds in order runs from the smaller
/// lower bound to the larger upper bound, has its bounds in order, encloses
/// both, and is enclosed by every range that encloses both.
pub proof fn lemma_union_is_hull(a: Range, b: Range)
    requires
        a.wf(),
        b.wf(),
    ensures
        a.get_union(&b).wf(),
        a.get_union(&b).min == min(a.min as int, b.min as int),
        a.get_union(&b).max == max(a.max as int, b.max as int),
        a@.union(b@).subset_of(a.get_union(&b)@),
        a.get_union(&b) == b.get_union(&a),
        forall|c: Range| a@.union(b@).subset_of(c@) ==> #[trigger] a.get_union(&b)@.subset_of(c@),
{
    let u = a.get_union(&b);
    assert forall|c: Range| a@.union(b@).subset_of(c@) implies #[trigger] u@.subset_of(c@) by {
        assert(a@.union(b@).contains(u.min as int));
        assert(a@.union(b@).contains(u.max as int));
        assert(c@.contains(u.min as int) && c@.contains(u.max as int));
    }
}

/// The union of two ranges covers no value beyond theirs exactly if the two
/// are adjacent; otherwise it also covers the gap between them.
pub proof fn lemma_union_exact_iff_adjacent(a: Range, b: Range)
    requires
        a.wf(),
        b.wf(),
    ensures
        a.get_union(&b)@ == a@.union(b@) <==> a.adjacent(&b),
{
    let u = a.get_union(&b);
    if a.adjacent(&b) {
        assert(u@ =~= a@.union(b@));
    } else {
        let gap: int = if a.max < b.min { a.max + 1 } else { b.max + 1 };
        assert(u@.contains(gap));
        assert(!a@.union(b@).contains(gap));
    }
}

/// Adjacency does not depend on the order of the two ranges, and every
/// overlap is an adjacency.
pub proof fn lemma_adjacent_symmetric(a: Range, b: Range)
    ensures
        a.adjacent(&b) == b.adjacent(&a),
        a.intersect(&b) ==> a.adjacent(&b),
{
}

/// Of two ranges with their bounds in order, the first of which ends before
/// the second begins, `b.min - a.max - 1` values lie between the two. They
/// are adjacent exactly if that number is 0.
pub proof fn lemma_adjacent_means_no_gap(a: Range, b: Range)
    requires
        a.wf(),
        b.wf(),
        a.max < b.min,
    ensures
        a.adjacent(&b) <==> b.min - a.max - 1 == 0,
        a.adjacent(&b) <==> forall|v: int| a.min <= v <= b.max ==> a.contains(v) || b.contains(v),
{
    if !a.adjacent(&b) {
        let v: int = a.max + 1;
        assert(a.min <= v <= b.max && !a.contains(v) && !b.contains(v));
    }
}

/// Two ranges with their bounds in order are adjacent exactly if one of them,
/// widened by one value on each side, overlaps the other.
pub proof fn lemma_adjacent_iff_extended_intersects(a: Range, b: Range)
    requires
        a.wf(),
        b.wf(),
    ensures
        a.adjacent(&b) <==> a.get_extended().intersect(&b),
{
}

/// Widening keeps every value of the range and adds at most the value below
/// `min` and the value above `max`.
pub proof fn lemma_extended_encloses(a: Range)
    requires
        a.wf(),
    ensures
        a.get_extended().wf(),
        a@.subset_of(a.get_extended()@),
        forall|v: int| #[trigger]
            a.get_extended().contains(v) ==> a.contains(v) || v == a.min - 1 || v == a.max + 1,
        a.min > 0 ==> a.get_extended().contains(a.min - 1),
        a.max < u64::MAX ==> a.get_extended().contains(a.max + 1),
{
}

/// The values that one part of a difference covers: none where there is no
/// such part.
pub open spec fn part_values(part: Option<Range>) -> Set<int> {
    match part {
        Some(r) => r@,
        None => Set::empty(),
    }
}

/// A part that the difference returns has its bounds in order and begins or
/// ends where `self` does. With an `other` whose bounds are in order it
/// shares exactly one value: the bound of `other` at which the part ends.
pub proof fn lemma_difference_keeps_boundary(a: Range, other: Range)
    requires
        other.wf(),
    ensures
        ({
            let (left, right) = a.get_difference(&other);
            &&& left matches Some(l) ==> {
                &&& l.wf()
                &&& l.min == a.min
                &&& l@.intersect(other@) == set![other.min as int]
            }
            &&& right matches Some(r) ==> {
                &&& r.wf()
                &&& r.max == a.max
                &&& r@.intersect(other@) == set![other.max as int]
            }
        }),
{
    let (left, right) = a.get_difference(&other);
    if let Some(l) = left {
        assert(l@.intersect(other@) =~= set![other.min as int]);
    }
    if let Some(r) = right {
        assert(r@.intersect(other@) =~= set![other.max as int]);
    }
}

/// Where `other` lies within `a`, the parts of the difference lie within `a`
/// too, and together with `other` they cover `a` exactly.
pub proof fn lemma_difference_within(a: Range, other: Range)
    requires
        other.wf(),
        a.min <= other.min,
        other.max <= a.max,
    ensures
        ({
            let (left, right) = a.get_difference(&other);
            &&& part_values(left).subset_of(a@)
            &&& part_values(right).subset_of(a@)
            &&& a@ == part_values(left).union(other@).union(part_values(right))
        }),
{
    let (left, right) = a.get_difference(&other);
    assert(a@ =~= part_values(left).union(other@).union(part_values(right)));
}

/// Where `other` covers `a` and reaches beyond it on both sides, nothing is
/// left of `a`.
pub proof fn lemma_difference_of_covered(a: Range, other: Range)
    requires
        other.min < a.min,
        a.max < other.max,
    ensures
        a.get_difference(&other) == (None::<Range>, None::<Range>),
{
}

/// `spec_len` is the number of values that a range with its bounds in order
/// covers.
pub proof fn lemma_len_counts_values(a: Range)
    requires
        a.wf(),
    ensures
        a@.finite(),
        a@.len() == a.spec_len(),
        a.spec_len() >= 1,
{
    lemma_int_range(a.min as int, a.max + 1);
    assert(a@ =~= set_int_range(a.min as int, a.max + 1));
}

} // verus!
