//! Heading levels.

use core::cmp::Ordering;
use vstd::prelude::*;
use vstd::std_specs::cmp::PartialOrdSpecImpl;

verus! {

/// The level of a heading: `H1` is the top level, `H6` the deepest one.
#[derive(Clone, Copy, Debug, PartialEq, Eq, Ord, Hash, Structural)]
pub enum HeadingLevel {
    H1,
    H2,
    H3,
    H4,
    H5,
    H6,
}

impl HeadingLevel {
    /// The number of the level, from 1 for `H1` to 6 for `H6`.
    pub open spec fn spec_rank(self) -> usize {
        match self {
            HeadingLevel::H1 => 1,
            HeadingLevel::H2 => 2,
            HeadingLevel::H3 => 3,
            HeadingLevel::H4 => 4,
            HeadingLevel::H5 => 5,
            HeadingLevel::H6 => 6,
        }
    }

    /// The number of the level, from 1 for `H1` to 6 for `H6`.
    #[verifier::when_used_as_spec(spec_rank)]
    pub fn rank(self) -> (n: usize)
        ensures
            n == self.spec_rank(),
            1 <= n <= 6,
    {
        match self {
            HeadingLevel::H1 => 1,
            HeadingLevel::H2 => 2,
            HeadingLevel::H3 => 3,
            HeadingLevel::H4 => 4,
            HeadingLevel::H5 => 5,
            HeadingLevel::H6 => 6,
        }
    }

    /// The level with the given number, if there is one.
    pub fn from_rank(n: usize) -> (level: Option<HeadingLevel>)
        ensures
            match level {
                Some(l) => l.rank() == n,
                None => n < 1 || n > 6,
            },
    {
        if n == 1 {
            Some(HeadingLevel::H1)
        } else if n == 2 {
            Some(HeadingLevel::H2)
        } else if n == 3 {
            Some(HeadingLevel::H3)
        } else if n == 4 {
            Some(HeadingLevel::H4)
        } else if n == 5 {
            Some(HeadingLevel::H5)
        } else if n == 6 {
            Some(HeadingLevel::H6)
        } else {
            None
        }
    }
}

impl PartialOrd for HeadingLevel {
    fn partial_cmp(&self, other: &Self) -> (r: Option<Ordering>) {
        let a = self.rank();
        let b = other.rank();
        if a < b {
            Some(Ordering::Less)
        } else if a > b {
            Some(Ordering::Greater)
        } else {
            Some(Ordering::Equal)
        }
    }
}

impl PartialOrdSpecImpl for HeadingLevel {
    open spec fn obeys_partial_cmp_spec() -> bool {
        true
    }

    /// Levels are ordered by their numbers.
    open spec fn partial_cmp_spec(&self, other: &Self) -> Option<Ordering> {
        if self.rank() < other.rank() {
            Some(Ordering::Less)
        } else if self.rank() > other.rank() {
            Some(Ordering::Greater)
        } else {
            Some(Ordering::Equal)
        }
    }
}

/// Two levels with the same number are the same level, and the order of
/// levels is total: of two different levels one is below the other.
pub proof fn lemma_rank_determines_level(a: HeadingLevel, b: HeadingLevel)
    ensures
        a.rank() == b.rank() <==> a == b,
        a.rank() < b.rank() || a == b || b.rank() < a.rank(),
{
}

} // verus!
