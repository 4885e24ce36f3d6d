//! The set-membership gadget.
//!
//! The circuit enforces that a witness value equals one of a fixed-size
//! list of candidates through the zero-product identity
//! `flag * (value - set[0]) * ... * (value - set[N-1]) == 0`: the product
//! vanishes exactly when the flag is zero or the value meets some
//! candidate.  The candidate column always holds `MAX_MEMBERSHIP_NUMBER`
//! cells; a shorter list is padded with zeros, so a zero value is
//! accepted whenever the list leaves unused slots.

use vstd::prelude::*;

verus! {

/// How many candidate cells the gadget reads; shorter lists are padded
/// with zeros up to this size.
pub const MAX_MEMBERSHIP_NUMBER: usize = 5;

/// Whether `value` appears in `set`.
pub open spec fn member_of(value: u64, set: Seq<u64>) -> bool {
    exists|i: int| 0 <= i < set.len() && set[i] == value
}

/// `set` extended with zeros up to `n` entries (unchanged when already
/// that long).
pub open spec fn pad_zero(set: Seq<u64>, n: nat) -> Seq<u64> {
    if set.len() >= n {
        set
    } else {
        set + Seq::new((n - set.len()) as nat, |i: int| 0u64)
    }
}

/// When the zero-product membership gate is satisfied on a row holding
/// `flag`, `value` and the candidate cells `set`.
pub open spec fn set_membership_holds(flag: u64, value: u64, set: Seq<u64>) -> bool {
    flag == 0 || member_of(value, set)
}

/// Decide whether `value` appears among the first `n` candidate cells,
/// where the cells hold `set` padded with zeros.
pub fn padded_member_check(value: u64, set: &Vec<u64>, n: usize) -> (ok: bool)
    requires
        set@.len() <= n,
    ensures
        ok == member_of(value, pad_zero(set@, n as nat)),
{
    let ghost padded = pad_zero(set@, n as nat);
    let len = set.len();
    for i in 0..len
        invariant
            len == set@.len() <= n,
            padded == pad_zero(set@, n as nat),
            forall|j: int| 0 <= j < i ==> set@[j] != value,
    {
        if set[i] == value {
            assert(padded[i as int] == value);
            return true;
        }
    }
    if value == 0 && len < n {
        assert(padded[len as int] == 0);
        return true;
    }
    assert forall|j: int| 0 <= j < padded.len() implies padded[j] != value by {
        if j >= set@.len() {
            assert(padded[j] == 0);
        }
    }
    false
}

/// Decide whether the membership gate accepts the row: the flag is clear,
/// or `value` meets one of the `MAX_MEMBERSHIP_NUMBER` candidate cells
/// (the given list, padded with zeros).
pub fn set_membership_check(flag: u64, value: u64, set: &Vec<u64>) -> (ok: bool)
    requires
        set@.len() <= MAX_MEMBERSHIP_NUMBER,
    ensures
        ok == set_membership_holds(flag, value, pad_zero(set@, MAX_MEMBERSHIP_NUMBER as nat)),
{
    if flag == 0 {
        return true;
    }
    padded_member_check(value, set, MAX_MEMBERSHIP_NUMBER)
}

/// With the enable flag set, a membership row is accepted exactly for values that
/// appear in the candidate list; with the flag clear it accepts every
/// value.  Zero-padding of a short list can only ever admit the value
/// zero, so the inputs on which padding is observable are excluded.
pub proof fn lemma_set_membership(flag: u64, value: u64, set: Seq<u64>)
    requires
        set.len() <= MAX_MEMBERSHIP_NUMBER,
        value != 0 || member_of(0, set) || set.len() == MAX_MEMBERSHIP_NUMBER,
    ensures
        flag != 0 ==> (set_membership_holds(flag, value, pad_zero(set, MAX_MEMBERSHIP_NUMBER as nat))
            <==> member_of(value, set)),
        flag == 0 ==> set_membership_holds(flag, value, pad_zero(set, MAX_MEMBERSHIP_NUMBER as nat)),
{
    let padded = pad_zero(set, MAX_MEMBERSHIP_NUMBER as nat);
    if member_of(value, set) {
        let i = choose|i: int| 0 <= i < set.len() && set[i] == value;
        assert(padded[i] == value);
    }
    if member_of(value, padded) {
        let i = choose|i: int| 0 <= i < padded.len() && padded[i] == value;
        if i >= set.len() {
            assert(padded[i] == 0);
        }
    }
}

} // verus!
