//! Tests of the comparison, set-membership, predicate and arithmetic
//! gates.

use zk_circuits::arithmetic::{add_check, multiply_chain_check};
use zk_circuits::comparison::{comparison_check, Comparison};
use zk_circuits::membership::set_membership_check;
use zk_circuits::predicates::{age_check, gender_check, gender_check_gated, nationality_check};

#[test]
fn test_greater_equal_pass() {
    assert!(comparison_check(Comparison::GreaterEqual, 30, 10, 256));
}

#[test]
fn test_greater_equal_fail() {
    assert!(!comparison_check(Comparison::GreaterEqual, 5, 10, 256));
}

#[test]
fn comparison_boundary_equal_operands() {
    assert!(comparison_check(Comparison::GreaterEqual, 18, 18, 256));
    assert!(comparison_check(Comparison::LessEqual, 18, 18, 256));
    assert!(comparison_check(Comparison::Equal, 18, 18, 256));
    assert!(!comparison_check(Comparison::GreaterThan, 18, 18, 256));
    assert!(!comparison_check(Comparison::LessThan, 18, 18, 256));
}

#[test]
fn comparison_strict_operators() {
    assert!(comparison_check(Comparison::GreaterThan, 19, 18, 256));
    assert!(comparison_check(Comparison::LessThan, 17, 18, 256));
    assert!(!comparison_check(Comparison::GreaterThan, 17, 18, 256));
    assert!(!comparison_check(Comparison::LessThan, 19, 18, 256));
}

#[test]
fn comparison_rejects_difference_beyond_bound() {
    // The adjusted range check fails once the true difference leaves
    // [0, max_value], the circuit's rejection path.
    assert!(!comparison_check(Comparison::GreaterEqual, 300, 10, 256));
    assert!(comparison_check(Comparison::GreaterEqual, 266, 10, 256));
}

#[test]
fn comparison_default_is_equal() {
    assert!(matches!(Comparison::default(), Comparison::Equal));
}

#[test]
fn test_set_membership_pass() {
    let set = vec![10, 42, 100];
    assert!(set_membership_check(1, 42, &set));
}

#[test]
fn test_set_membership_fail() {
    let set = vec![10, 42, 100];
    assert!(!set_membership_check(1, 77, &set));
}

#[test]
fn set_membership_disabled_flag_accepts_everything() {
    let set = vec![10, 42, 100];
    assert!(set_membership_check(0, 77, &set));
    assert!(set_membership_check(0, 0, &set));
}

#[test]
fn set_membership_zero_padding_admits_zero() {
    // A list shorter than the candidate column is padded with zeros, so
    // a zero value is accepted against the padding slots.
    let short = vec![10, 42, 100];
    assert!(set_membership_check(1, 0, &short));
    // A full-length list leaves no padding slot, so zero is rejected.
    let full = vec![10, 42, 100, 7, 9];
    assert!(!set_membership_check(1, 0, &full));
}

#[test]
fn age_check_test_age_check_pass() {
    assert!(age_check(20, 1, 18));
}

#[test]
fn age_check_test_age_check_fail() {
    assert!(!age_check(16, 1, 18));
}

#[test]
fn age_check_disabled_flag_accepts() {
    assert!(age_check(16, 0, 18));
}

#[test]
fn gender_check_test_gender_check_pass() {
    let gender = 0;
    let flag = 1;
    assert!(gender_check(gender, flag, 0));
    assert!(!gender_check(gender, flag, 1));
    assert!(!gender_check(gender, flag, 2));
}

#[test]
fn nationality_check_test_gender_check_pass() {
    let allowed_pass = vec![410, 840, 0, 0, 0];
    let allowed_fail = vec![826, 840, 0, 0, 0];
    assert!(nationality_check(410, 1, &allowed_pass));
    assert!(!nationality_check(410, 1, &allowed_fail));
}

#[test]
fn test_nationality_check_chip() {
    let required = vec![410, 840];
    assert!(nationality_check(410, 1, &required));
}

#[test]
fn test_age_check_pass_all() {
    // The gated gender chip treats a required value of zero as an
    // unused slot: every gender is accepted.
    assert!(gender_check_gated(1, 1, 0));
}

#[test]
fn gender_check_test_age_check_pass() {
    assert!(gender_check_gated(1, 1, 1));
}

#[test]
fn gender_check_test_age_check_fail() {
    assert!(!gender_check_gated(1, 1, 2));
}

#[test]
fn test_add_chip_pass() {
    let a = 5;
    let b = 3;
    let sum = a + b;
    assert!(add_check(a, b, sum));
}

#[test]
fn test_add_chip_fail() {
    let a = 5;
    let b = 3;
    let incorrect_sum = a + b + 1;
    assert!(!add_check(a, b, incorrect_sum));
}

#[test]
fn add_check_handles_large_operands() {
    assert!(!add_check(u64::MAX, 1, 0));
    assert!(add_check(u64::MAX, 0, u64::MAX));
}

#[test]
fn multiply_chain_accepts_consistent_assignment() {
    // c1 * c2 = c7, c7 * (c3 + c4) = c8, (c3 + c4) * (c5 + c6) = c9.
    assert!(multiply_chain_check(3, 2, 1, 7, 5, 4, 6, 48, 72));
}

#[test]
fn multiply_chain_rejects_wrong_product() {
    assert!(!multiply_chain_check(3, 2, 1, 7, 5, 4, 6, 49, 72));
    assert!(!multiply_chain_check(3, 2, 1, 7, 5, 4, 7, 48, 72));
}

#[test]
fn multiply_chain_handles_large_operands() {
    assert!(!multiply_chain_check(u64::MAX, u64::MAX, u64::MAX, u64::MAX, 1, 1, 1, 1, 1));
    assert!(multiply_chain_check(0, 5, 0, 0, 1, 1, 0, 0, 0));
}
