//! The general-purpose comparison gadget.
//!
//! The circuit enforces an ordering between two witness cells `lhs` and
//! `rhs` by range-checking an adjusted difference: for `GreaterEqual` the
//! gate range-checks `max_value - (lhs - rhs)`, so the row is satisfiable
//! exactly when the true difference lies in `[0, max_value]`.  A negative
//! difference wraps around the field to a huge value, which the range
//! check rejects; that wraparound is the mechanism by which `lhs < rhs`
//! is detected.  The strict operators subtract one from the difference
//! first, excluding equality.

use vstd::prelude::*;

verus! {

/// The ordering a comparison gate enforces between its two operands.
#[derive(Clone, Copy, Debug)]
pub enum Comparison {
    Equal,
    GreaterThan,
    GreaterEqual,
    LessThan,
    LessEqual,
}

impl Default for Comparison {
    /// The comparison used when none is chosen explicitly.
    fn default() -> (c: Comparison)
        ensures
            c is Equal,
    {
        Comparison::Equal
    }
}

/// A range check over `[0, max)`: satisfied exactly by the integers
/// `0 <= v < max`.
pub open spec fn in_range(v: int, max: int) -> bool {
    0 <= v < max
}

/// When the comparison gate for `cmp` with bound `max_value` is satisfied
/// on operands whose true integer values are `lhs` and `rhs`.
///
/// `Equal` constrains the difference to zero directly; the ordering
/// operators accept exactly the differences that the adjusted range check
/// accepts, which bounds the difference by `max_value` as well.
pub open spec fn comparison_holds(cmp: Comparison, lhs: int, rhs: int, max_value: int) -> bool {
    match cmp {
        Comparison::Equal => lhs == rhs,
        Comparison::GreaterEqual => 0 <= lhs - rhs <= max_value,
        Comparison::LessEqual => 0 <= rhs - lhs <= max_value,
        Comparison::GreaterThan => 0 <= lhs - rhs - 1 <= max_value,
        Comparison::LessThan => 0 <= rhs - lhs - 1 <= max_value,
    }
}

/// Decide whether the comparison gate for `cmp` accepts the row
/// `(lhs, rhs)` under the bound `max_value`.
pub fn comparison_check(cmp: Comparison, lhs: u64, rhs: u64, max_value: u64) -> (ok: bool)
    ensures
        ok == comparison_holds(cmp, lhs as int, rhs as int, max_value as int),
{
    match cmp {
        Comparison::Equal => lhs == rhs,
        Comparison::GreaterEqual => rhs <= lhs && lhs - rhs <= max_value,
        Comparison::LessEqual => lhs <= rhs && rhs - lhs <= max_value,
        Comparison::GreaterThan => rhs < lhs && lhs - rhs - 1 <= max_value,
        Comparison::LessThan => lhs < rhs && rhs - lhs - 1 <= max_value,
    }
}

/// For operands strictly below the bound, each operator accepts exactly
/// the rows its name promises, and on equal operands the inclusive
/// operators accept while the strict ones reject.
pub proof fn lemma_comparison_matches_ordering(lhs: int, rhs: int, max_value: int)
    requires
        0 <= lhs < max_value,
        0 <= rhs < max_value,
    ensures
        comparison_holds(Comparison::GreaterEqual, lhs, rhs, max_value) <==> lhs >= rhs,
        comparison_holds(Comparison::GreaterThan, lhs, rhs, max_value) <==> lhs > rhs,
        comparison_holds(Comparison::LessEqual, lhs, rhs, max_value) <==> lhs <= rhs,
        comparison_holds(Comparison::LessThan, lhs, rhs, max_value) <==> lhs < rhs,
        comparison_holds(Comparison::Equal, lhs, rhs, max_value) <==> lhs == rhs,
{
}

} // verus!
