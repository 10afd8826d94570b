//! The `Range` value type, its mathematical model and its operations.

use vstd::math::{max, min};
use vstd::prelude::*;

verus! {

/// A contiguous span of `u64` values with both ends included.
///
/// The fields are public, so a value can be written down directly; the
/// operations that need `min <= max` ask for [`Range::wf`].
///
/// Two ranges are equal if both bounds are. `<` and its relatives compare
/// `min` first and `max` second, and so does the derived `Ord`, which goes
/// through the fields in the order in which they are declared here.
#[derive(Debug, Copy, Clone, PartialEq, Eq, Ord, Hash, Structural)]
pub struct Range {
    pub min: u64,
    pub max: u64,
}

/// The error of a checked construction: the lower bound lies above the upper one.
#[derive(Debug, Copy, Clone, PartialEq, Eq, Structural)]
pub struct InvalidRange;

impl View for Range {
    type V = Set<int>;

    /// The set of the values that the range covers; empty where the bounds
    /// are out of order.
    open spec fn view(&self) -> Set<int> {
        Set::new(|v: int| self.contains(v))
    }
}

impl Range {
    /// The invariant of a range: its bounds are in order.
    pub open spec fn wf(&self) -> bool {
        self.min <= self.max
    }

    /// Whether `v` is one of the values that the range covers.
    pub open spec fn contains(&self, v: int) -> bool {
        self.min <= v <= self.max
    }

    /// Builds `[min, max]`.
    pub fn new(min: u64, max: u64) -> (r: Range)
        requires
            min <= max,
        ensures
            r == (Range { min, max }),
            r.wf(),
    {
        Range { min, max }
    }

    /// Builds `[min, max]` if the bounds are in order, and reports
    /// [`InvalidRange`] if they are not.
    pub fn try_new(min: u64, max: u64) -> (r: Result<Range, InvalidRange>)
        ensures
            min <= max ==> r == Ok::<Range, InvalidRange>(Range { min, max }),
            min > max ==> r == Err::<Range, InvalidRange>(InvalidRange),
    {
        if min <= max {
            Ok(Range { min, max })
        } else {
            Err(InvalidRange)
        }
    }

    /// Mathematical meaning of [`Range::intersect`]: the larger lower bound
    /// does not pass the smaller upper bound.
    pub open spec fn spec_intersect(&self, other: &Range) -> bool {
        max(self.min as int, other.min as int) <= min(self.max as int, other.max as int)
    }

    /// Whether the two ranges share at least one value.
    #[verifier::when_used_as_spec(spec_intersect)]
    pub fn intersect(&self, other: &Range) -> (b: bool)
        ensures
            b == self.spec_intersect(other),
    {
        u64::max(self.min, other.min) <= u64::min(self.max, other.max)
    }

    /// Mathematical meaning of [`Range::adjacent`]: the ranges overlap, or one
    /// begins directly after the other ends.
    pub open spec fn spec_adjacent(&self, other: &Range) -> bool {
        ||| self.spec_intersect(other)
        ||| self.min == other.max + 1
        ||| self.max + 1 == other.min
    }

    /// Whether the two ranges overlap or touch with no value between them.
    #[verifier::when_used_as_spec(spec_adjacent)]
    pub fn adjacent(&self, other: &Range) -> (b: bool)
        ensures
            b == self.spec_adjacent(other),
    {
        let right_of = self.min > other.max && self.min == other.max + 1;
        let left_of = self.max < other.min && self.max + 1 == other.min;
        self.intersect(other) || right_of || left_of
    }

    /// Mathematical meaning of [`Range::get_intersection`]: from the larger
    /// lower bound to the smaller upper bound.
    pub open spec fn spec_get_intersection(&self, other: &Range) -> Range {
        Range {
            min: if self.min >= other.min { self.min } else { other.min },
            max: if self.max <= other.max { self.max } else { other.max },
        }
    }

    /// The values that both ranges cover. The ranges must overlap: the caller
    /// tests [`Range::intersect`] first.
    #[verifier::when_used_as_spec(spec_get_intersection)]
    pub fn get_intersection(&self, other: &Range) -> (r: Range)
        requires
            self.spec_intersect(other),
        ensures
            r == self.spec_get_intersection(other),
            r.wf(),
            r.min == max(self.min as int, other.min as int),
            r.max == min(self.max as int, other.max as int),
            self.min <= r.min && r.max <= self.max,
            other.min <= r.min && r.max <= other.max,
            r@ == self@.intersect(other@),
    {
        Range::new(u64::max(self.min, other.min), u64::min(self.max, other.max))
    }

    /// Mathematical meaning of [`Range::get_union`]: from the smaller lower
    /// bound to the larger upper bound.
    pub open spec fn spec_get_union(&self, other: &Range) -> Range {
        Range {
            min: if self.min <= other.min { self.min } else { other.min },
            max: if self.max >= other.max { self.max } else { other.max },
        }
    }

    /// The smallest range that encloses both. Where the two neither overlap
    /// nor touch, it also covers the values that lie between them.
    #[verifier::when_used_as_spec(spec_get_union)]
    pub fn get_union(&self, other: &Range) -> (r: Range)
        requires
            self.wf(),
            other.wf(),
        ensures
            r == self.spec_get_union(other),
            r.wf(),
            r.min == min(self.min as int, other.min as int),
            r.max == max(self.max as int, other.max as int),
    {
        Range::new(u64::min(self.min, other.min), u64::max(self.max, other.max))
    }

    /// Mathematical meaning of [`Range::get_difference`].
    ///
    /// The left part runs from `self.min` up to and including `other.min`; it
    /// exists when `self` does not begin after `other` and `other.min` is not 0.
    /// The right part runs from `other.max`, included, up to `self.max`; it
    /// exists when `self` does not end before `other` and `other.max` is not
    /// `u64::MAX`. Each part keeps the bound of `other` that it touches.
    pub open spec fn spec_get_difference(&self, other: &Range) -> (Option<Range>, Option<Range>) {
        (
            if self.min <= other.min && other.min > 0 {
                Some(Range { min: self.min, max: other.min })
            } else {
                None
            },
            if other.max <= self.max && other.max < u64::MAX {
                Some(Range { min: other.max, max: self.max })
            } else {
                None
            },
        )
    }

    /// What is left of `self` to the left and to the right of `other`.
    ///
    /// A part that is returned includes the bound of `other` next to it, so it
    /// shares exactly that one value with a well-formed `other`.
    #[verifier::when_used_as_spec(spec_get_difference)]
    pub fn get_difference(&self, other: &Range) -> (parts: (Option<Range>, Option<Range>))
        ensures
            parts == self.spec_get_difference(other),
            parts.0 matches Some(left) ==> left.wf(),
            parts.1 matches Some(right) ==> right.wf(),
    {
        let mut first_part = None;
        let mut last_part = None;
        if (self.min <= other.min) && (other.min > 0) {
            first_part = Some(Range::new(self.min, other.min));
        }
        if (other.max <= self.max) && (other.max < u64::MAX) {
            last_part = Some(Range::new(other.max, self.max));
        }
        (first_part, last_part)
    }

    /// The number of values that the range covers, as a mathematical integer.
    /// For `[0, u64::MAX]` it is `u64::MAX + 1`.
    pub open spec fn spec_len(&self) -> int {
        self.max - self.min + 1
    }

    /// The number of values that the range covers.
    ///
    /// `[0, u64::MAX]` covers one value more than a `u64` can count and is
    /// left out; [`Range::checked_len`] accepts it.
    pub fn len(&self) -> (n: u64)
        requires
            self.wf(),
            self.spec_len() <= u64::MAX,
        ensures
            n == self.spec_len(),
    {
        self.max - self.min + 1
    }

    /// The number of values that the range covers, or `None` for
    /// `[0, u64::MAX]`, whose count does not fit.
    pub fn checked_len(&self) -> (n: Option<u64>)
        requires
            self.wf(),
        ensures
            self.spec_len() <= u64::MAX ==> n == Some(self.spec_len() as u64),
            self.spec_len() > u64::MAX ==> n.is_none(),
    {
        (self.max - self.min).checked_add(1)
    }

    /// Mathematical meaning of [`Range::get_extended`]: one more value on each
    /// side, as far as the domain of `u64` has one.
    pub open spec fn spec_get_extended(&self) -> Range {
        Range {
            min: if self.min > 0 { (self.min - 1) as u64 } else { self.min },
            max: if self.max < u64::MAX { (self.max + 1) as u64 } else { self.max },
        }
    }

    /// The range widened by one value on each side, stopping at 0 and at
    /// `u64::MAX`.
    #[verifier::when_used_as_spec(spec_get_extended)]
    pub fn get_extended(&self) -> (r: Range)
        ensures
            r == self.spec_get_extended(),
            self.wf() ==> r.wf(),
    {
        let mut res = *self;
        if res.min > 0 {
            res.min -= 1
        }
        if res.max < u64::MAX {
            res.max += 1
        }
        res
    }
}

/// Shorthand for [`Range::new`].
pub fn range(min: u64, max: u64) -> (r: Range)
    requires
        min <= max,
    ensures
        r == (Range { min, max }),
        r.wf(),
{
    Range::new(min, max)
}

} // verus!
