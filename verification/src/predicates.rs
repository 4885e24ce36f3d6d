//! The three predicate sub-circuits of the access-control policy.
//!
//! Each predicate wraps a gadget behind a public enable flag: its gate
//! polynomial is multiplied by the flag cell, so a clear flag makes the
//! row's constraint vacuous whatever the private input holds.

use vstd::prelude::*;

use crate::comparison::{comparison_check, comparison_holds, Comparison};
use crate::membership::{member_of, pad_zero, padded_member_check};

verus! {

/// The bound of the age comparison's range check: an age difference is
/// accepted only while it stays within `[0, MAX_AGE]`.
pub const MAX_AGE: u64 = 200;

/// How many allowed-country cells the nationality gate reads; shorter
/// lists are padded with zeros up to this size.
pub const MAX_COUNTRY_NUMBER: usize = 5;

/// When the age gate is satisfied: the flag is clear, or the prover's age
/// reaches the required age (a range-bounded `GreaterEqual` comparison).
pub open spec fn age_check_holds(age: int, flag: int, required: int) -> bool {
    flag == 0 || comparison_holds(Comparison::GreaterEqual, age, required, MAX_AGE as int)
}

/// Decide whether the age gate accepts the row.
pub fn age_check(age: u64, flag: u64, required: u64) -> (ok: bool)
    ensures
        ok == age_check_holds(age as int, flag as int, required as int),
{
    flag == 0 || comparison_check(Comparison::GreaterEqual, age, required, MAX_AGE)
}

/// When the plain gender gate is satisfied: the flag is clear, or the
/// prover's gender equals the required one (`flag * (gender - required)`).
pub open spec fn gender_check_holds(gender: int, flag: int, required: int) -> bool {
    flag == 0 || gender == required
}

/// Decide whether the plain gender gate accepts the row.
pub fn gender_check(gender: u64, flag: u64, required: u64) -> (ok: bool)
    ensures
        ok == gender_check_holds(gender as int, flag as int, required as int),
{
    flag == 0 || gender == required
}

/// When the gated gender gate is satisfied.  This variant multiplies the
/// constraint by the required value as well
/// (`flag * required * (gender - required)`), so a required value of
/// zero marks the slot unused and every gender is accepted.
pub open spec fn gender_check_gated_holds(gender: int, flag: int, required: int) -> bool {
    flag == 0 || required == 0 || gender == required
}

/// Decide whether the gated gender gate accepts the row.
pub fn gender_check_gated(gender: u64, flag: u64, required: u64) -> (ok: bool)
    ensures
        ok == gender_check_gated_holds(gender as int, flag as int, required as int),
{
    flag == 0 || required == 0 || gender == required
}

/// When the nationality gate is satisfied: the flag is clear, or the
/// prover's country code appears among the `MAX_COUNTRY_NUMBER` allowed
/// cells (the allowed list, padded with zeros).
pub open spec fn nationality_check_holds(code: u64, flag: u64, allowed: Seq<u64>) -> bool {
    flag == 0 || member_of(code, pad_zero(allowed, MAX_COUNTRY_NUMBER as nat))
}

/// Decide whether the nationality gate accepts the row.
pub fn nationality_check(code: u64, flag: u64, allowed: &Vec<u64>) -> (ok: bool)
    requires
        allowed@.len() <= MAX_COUNTRY_NUMBER,
    ensures
        ok == nationality_check_holds(code, flag, allowed@),
{
    if flag == 0 {
        return true;
    }
    padded_member_check(code, allowed, MAX_COUNTRY_NUMBER)
}

} // verus!
