//! Source ranges.

use vstd::prelude::*;

verus! {

/// A range of source positions, from `start` up to `end`.
#[derive(Clone, Copy, Debug, PartialEq, Eq, Structural)]
pub struct Span {
    pub start: u32,
    pub end: u32,
}

pub open spec fn min_u32(a: u32, b: u32) -> u32 {
    if a <= b {
        a
    } else {
        b
    }
}

pub open spec fn max_u32(a: u32, b: u32) -> u32 {
    if a >= b {
        a
    } else {
        b
    }
}

impl Span {
    /// Whether `other` lies within `self`.
    pub open spec fn contains_spec(self, other: Span) -> bool {
        self.start <= other.start && other.end <= self.end
    }

    pub open spec fn merge_spec(self, other: Span) -> Span {
        Span { start: min_u32(self.start, other.start), end: max_u32(self.end, other.end) }
    }

    pub fn new(start: u32, end: u32) -> (r: Span)
        ensures
            r == (Span { start, end }),
    {
        Span { start, end }
    }

    pub fn contains(&self, other: Span) -> (r: bool)
        ensures
            r == self.contains_spec(other),
    {
        self.start <= other.start && other.end <= self.end
    }

    /// The smallest span that contains both `self` and `other`.
    pub fn merge(&self, other: Span) -> (r: Span)
        ensures
            r == self.merge_spec(other),
    {
        let start: u32 = if self.start <= other.start {
            self.start
        } else {
            other.start
        };
        let end: u32 = if self.end >= other.end {
            self.end
        } else {
            other.end
        };
        Span { start, end }
    }
}

/// A merged span contains both of its parts, and every span that contains
/// both parts contains the merged span.
pub proof fn lemma_merge_is_smallest(a: Span, b: Span, c: Span)
    ensures
        a.merge_spec(b).contains_spec(a),
        a.merge_spec(b).contains_spec(b),
        c.contains_spec(a) && c.contains_spec(b) ==> c.contains_spec(a.merge_spec(b)),
{
}

} // verus!
