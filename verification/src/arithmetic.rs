//! Small arithmetic demonstration gates.
//!
//! The addition chip registers a single gate `a + b - sum`, with the sum
//! read from a public instance cell.  The multiplication chain circuit
//! registers one multiplication gate and enables it on three rows,
//! chaining products of private inputs.

use vstd::prelude::*;

verus! {

/// When the addition gate is satisfied: the public sum equals the sum
/// of the two private inputs.
pub open spec fn add_gate_holds(a: int, b: int, sum: int) -> bool {
    a + b == sum
}

/// Decide whether the addition gate accepts the row.
pub fn add_check(a: u64, b: u64, sum: u64) -> (ok: bool)
    ensures
        ok == add_gate_holds(a as int, b as int, sum as int),
{
    a as u128 + b as u128 == sum as u128
}

/// When the three rows of the multiplication chain are satisfied:
/// `c1 * c2 == c7`, `c7 * (c3 + c4) == c8` and
/// `(c3 + c4) * (c5 + c6) == c9`.
pub open spec fn multiply_chain_holds(
    c1: int,
    c2: int,
    c3: int,
    c4: int,
    c5: int,
    c6: int,
    c7: int,
    c8: int,
    c9: int,
) -> bool {
    &&& c1 * c2 == c7
    &&& c7 * (c3 + c4) == c8
    &&& (c3 + c4) * (c5 + c6) == c9
}

/// Whether the product of two non-negative integers equals a third,
/// decided without leaving 128-bit arithmetic: once a factor exceeds the
/// 64-bit expected value, a nonzero co-factor already pushes the product
/// past it.
fn mul_matches(a: u128, b: u128, expected: u64) -> (ok: bool)
    requires
        a <= 0x2_0000_0000_0000_0000,
        b <= 0x2_0000_0000_0000_0000,
    ensures
        ok == (a * b == expected),
{
    if a == 0 || b == 0 {
        return expected == 0;
    }
    if a > u64::MAX as u128 || b > u64::MAX as u128 {
        assert(a * b > u64::MAX) by (nonlinear_arith)
            requires
                a >= 1,
                b >= 1,
                a > u64::MAX || b > u64::MAX,
        ;
        return false;
    }
    assert(a * b <= u64::MAX * u64::MAX) by (nonlinear_arith)
        requires
            0 <= a <= u64::MAX,
            0 <= b <= u64::MAX,
    ;
    a * b == expected as u128
}

/// Decide whether all three gates of the multiplication chain accept
/// their rows.
pub fn multiply_chain_check(
    c1: u64,
    c2: u64,
    c3: u64,
    c4: u64,
    c5: u64,
    c6: u64,
    c7: u64,
    c8: u64,
    c9: u64,
) -> (ok: bool)
    ensures
        ok == multiply_chain_holds(
            c1 as int,
            c2 as int,
            c3 as int,
            c4 as int,
            c5 as int,
            c6 as int,
            c7 as int,
            c8 as int,
            c9 as int,
        ),
{
    let s34: u128 = c3 as u128 + c4 as u128;
    let s56: u128 = c5 as u128 + c6 as u128;
    let first = mul_matches(c1 as u128, c2 as u128, c7);
    let second = mul_matches(c7 as u128, s34, c8);
    let third = mul_matches(s34, s56, c9);
    first && second && third
}

} // verus!
