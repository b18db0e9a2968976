//! How many items a caller asks for.

use vstd::prelude::*;

verus! {

/// A range of acceptable amounts; a missing bound is no bound.
#[derive(Debug, Clone, Copy, PartialEq, Eq, Structural)]
pub struct Demand {
    min: Option<usize>,
    max: Option<usize>,
}

/// The larger of two amounts.
pub open spec fn larger(a: usize, b: usize) -> usize {
    if a >= b {
        a
    } else {
        b
    }
}

/// The smaller of two amounts.
pub open spec fn smaller(a: usize, b: usize) -> usize {
    if a <= b {
        a
    } else {
        b
    }
}

impl Demand {
    /// The lower bound.
    pub closed spec fn lower(&self) -> Option<usize> {
        self.min
    }

    /// The upper bound.
    pub closed spec fn upper(&self) -> Option<usize> {
        self.max
    }

    /// The least acceptable amount.
    pub open spec fn at_least_len(&self) -> usize {
        match self.lower() {
            Some(n) => n,
            None => 0,
        }
    }

    /// The largest acceptable amount.
    pub open spec fn at_most_len(&self) -> usize {
        match self.upper() {
            Some(n) => n,
            None => usize::MAX,
        }
    }

    /// The amount `n` is acceptable.
    pub open spec fn accepts(&self, n: usize) -> bool {
        self.at_least_len() <= n <= self.at_most_len()
    }

    /// `n` or more.
    pub fn at_least(n: usize) -> (demand: Self)
        ensures
            demand.lower() == Some(n),
            demand.upper() is None,
    {
        Demand { min: Some(n), max: None }
    }

    /// No more than `n`.
    pub fn less_than(n: usize) -> (demand: Self)
        ensures
            demand.lower() is None,
            demand.upper() == Some(n),
    {
        Demand { min: None, max: Some(n) }
    }

    /// From `low` to `high`.
    pub fn between(low: usize, high: usize) -> (demand: Self)
        ensures
            demand.lower() == Some(low),
            demand.upper() == Some(high),
    {
        Demand { min: Some(low), max: Some(high) }
    }

    /// The lower bound, if any.
    pub fn min(&self) -> (bound: Option<usize>)
        ensures
            bound == self.lower(),
    {
        self.min
    }

    /// The upper bound, if any.
    pub fn max(&self) -> (bound: Option<usize>)
        ensures
            bound == self.upper(),
    {
        self.max
    }

    /// The lower bound, or zero.
    pub fn min_len(&self) -> (len: usize)
        ensures
            len == self.at_least_len(),
    {
        match self.min {
            Some(n) => n,
            None => 0,
        }
    }

    /// The upper bound, or the largest amount.
    pub fn max_len(&self) -> (len: usize)
        ensures
            len == self.at_most_len(),
    {
        match self.max {
            Some(n) => n,
            None => usize::MAX,
        }
    }

    /// What both sides accept; `None` if they accept nothing in common.
    pub fn compromise(&self, other: &Demand) -> (agreement: Option<Demand>)
        ensures
            match agreement {
                Some(common) => {
                    &&& common.at_least_len() == larger(self.at_least_len(), other.at_least_len())
                    &&& common.at_most_len() == smaller(self.at_most_len(), other.at_most_len())
                    &&& common.at_least_len() <= common.at_most_len()
                    &&& common.lower() is None <==> self.lower() is None && other.lower() is None
                    &&& common.upper() is None <==> self.upper() is None && other.upper() is None
                },
                None => larger(self.at_least_len(), other.at_least_len()) > smaller(
                    self.at_most_len(),
                    other.at_most_len(),
                ),
            },
    {
        let min = match (self.min, other.min) {
            (Some(a), Some(b)) => Some(
                if a >= b {
                    a
                } else {
                    b
                },
            ),
            (Some(a), None) => Some(a),
            (None, b) => b,
        };
        let max = match (self.max, other.max) {
            (Some(a), Some(b)) => Some(
                if a <= b {
                    a
                } else {
                    b
                },
            ),
            (Some(a), None) => Some(a),
            (None, b) => b,
        };
        let common = Demand { min, max };
        if common.min_len() <= common.max_len() {
            Some(common)
        } else {
            None
        }
    }
}

} // verus!
