//! Parser and context-sensitive validator for a descriptor expression
//! language that encodes spending policies as structured scripts.
//!
//! The crate has two halves: [`expression`] turns a delimiter-checked textual
//! descriptor into a borrowed n-ary syntax tree, and [`miniscript::context`]
//! checks a compiled script node against the resource limits, malleability
//! rules and key-type constraints of a fixed set of execution contexts.

use vstd::prelude::*;

pub mod expression;
pub mod miniscript;
mod sealed;

verus! {

/// Maximum allowed nesting depth of a descriptor expression.
///
/// The structural pre-scan measures the depth of the whole input before any
/// recursive construction begins, so the recursive-descent step never runs
/// deeper than this bound.
pub const MAX_RECURSION_DEPTH: u32 = 402;

/// Errors produced while turning a descriptor string into a tree or while
/// running the top-level context checks.
#[derive(Debug, Clone, PartialEq, Eq)]
pub enum Error {
    /// Failure of the structural pre-scan over the raw input.
    ParseTree(crate::expression::error::ParseTreeError),
    /// A fragment did not have the expected shape; carries a description of
    /// the offending token.
    Unexpected(String),
    /// The root of the syntax tree is not a complete locking condition.
    NonTopLevel,
    /// Two multipath keys in one descriptor expand to different numbers of
    /// derivation paths.
    MultipathDescLenMismatch,
    /// A bare script whose root shape is outside the standard whitelist.
    NonStandardBareScript,
}

/// Why a threshold could not be built from a `k` and a list of elements.
#[derive(Debug, Clone, Copy, PartialEq, Eq, Structural)]
pub enum ThresholdError {
    /// The threshold value `k` was zero.
    ZeroThreshold,
    /// The threshold value `k` exceeded the number of elements `n`.
    OverThreshold(usize, usize),
    /// The number of elements exceeded the compile-time bound.
    TooManyElements(usize, usize),
}

/// A `k`-of-`n` threshold over at most `MAX` elements.
///
/// The elements themselves are kept in order; the well-formedness invariant
/// `1 <= k <= n <= MAX` is established by [`Threshold::new`] and never
/// broken afterwards, since the fields are private.
#[derive(Debug, Clone, PartialEq, Eq)]
pub struct Threshold<T, const MAX: usize> {
    k: usize,
    inner: Vec<T>,
}

impl<T, const MAX: usize> Threshold<T, MAX> {
    /// Whether a threshold value and element count form a valid threshold.
    pub open spec fn spec_valid(k: usize, n: nat) -> bool {
        1 <= k <= n <= MAX
    }

    /// The spec-level threshold value.
    pub closed spec fn spec_k(self) -> usize {
        self.k
    }

    /// The spec-level element sequence.
    pub closed spec fn spec_inner(self) -> Seq<T> {
        self.inner@
    }

    /// Well-formedness of a built threshold.
    pub open spec fn wf(self) -> bool {
        Self::spec_valid(self.spec_k(), self.spec_inner().len())
    }

    /// Builds a `k`-of-`n` threshold, validating `1 <= k <= n <= MAX`.
    pub fn new(k: usize, inner: Vec<T>) -> (r: Result<Self, ThresholdError>)
        ensures
            match r {
                Ok(t) => {
                    &&& Self::spec_valid(k, inner@.len())
                    &&& t.spec_k() == k
                    &&& t.spec_inner() == inner@
                },
                Err(e) => {
                    &&& !Self::spec_valid(k, inner@.len())
                    &&& (e matches ThresholdError::ZeroThreshold <==> k == 0)
                    &&& (e matches ThresholdError::TooManyElements(n, m)
                        ==> n == inner@.len() && m == MAX)
                    &&& (e matches ThresholdError::OverThreshold(kk, n)
                        ==> kk == k && n == inner@.len())
                },
            },
    {
        if k == 0 {
            Err(ThresholdError::ZeroThreshold)
        } else if inner.len() > MAX {
            Err(ThresholdError::TooManyElements(inner.len(), MAX))
        } else if k > inner.len() {
            Err(ThresholdError::OverThreshold(k, inner.len()))
        } else {
            Ok(Threshold { k, inner })
        }
    }

    /// The threshold value `k`.
    pub fn k(&self) -> (r: usize)
        ensures
            r == self.spec_k(),
    {
        self.k
    }

    /// The number of elements `n`.
    pub fn n(&self) -> (r: usize)
        ensures
            r == self.spec_inner().len(),
    {
        self.inner.len()
    }
}

} // verus!
