//! Tests of the composed access-control policy circuit.

use zk_circuits::access_control::{
    access_control_check, AccessControlCircuit, AccessControlPublicInputs, Input,
};

fn run_test(
    age: u64,
    required_age: u64,
    age_flag: u64,
    gender: u64,
    required_gender: u64,
    gender_flag: u64,
    country_code: u64,
    allowed_countries: Vec<u64>,
    nationality_flag: u64,
    should_succeed: bool,
) {
    let witness = AccessControlCircuit {
        prover_age: Input::Present(age),
        prover_gender: Input::Present(gender),
        prover_country_code: Input::Present(country_code),
    };
    let publics = AccessControlPublicInputs {
        age_check_flag: age_flag,
        required_age,
        gender_check_flag: gender_flag,
        required_gender,
        nationality_check_flag: nationality_flag,
        allowed_country_codes: allowed_countries,
    };
    assert_eq!(access_control_check(&witness, &publics), should_succeed);
}

#[test]
fn test_access_control_pass_all() {
    run_test(20, 18, 1, 1, 1, 1, 410, vec![410, 840, 0, 0, 0], 1, true);
}

#[test]
fn test_access_control_fail_on_age() {
    run_test(16, 18, 1, 1, 1, 1, 410, vec![410, 840, 0, 0, 0], 1, false);
}

#[test]
fn test_access_control_disabled_checks() {
    run_test(1, 18, 0, 0, 1, 0, 999, vec![410, 840, 0, 0, 0], 0, true);
}

#[test]
fn test_all_pass() {
    run_test(25, 18, 1, 1, 1, 1, 410, vec![410, 840], 1, true);
}

#[test]
fn test_fail_on_age_only() {
    run_test(16, 18, 1, 1, 1, 1, 410, vec![410, 840], 1, false);
}

#[test]
fn test_fail_on_gender_only() {
    run_test(20, 18, 1, 0, 1, 1, 410, vec![410, 840], 1, false);
}

#[test]
fn test_fail_on_nationality_only() {
    run_test(20, 18, 1, 1, 1, 1, 999, vec![410, 840], 1, false);
}

#[test]
fn test_disabled_checks_all_pass() {
    run_test(10, 100, 0, 0, 1, 0, 999, vec![], 0, true);
}

#[test]
fn test_mixed_flags() {
    run_test(30, 18, 1, 1, 1, 1, 999, vec![123], 0, true);
}

fn absent_witness() -> AccessControlCircuit {
    AccessControlCircuit {
        prover_age: Input::Absent,
        prover_gender: Input::Absent,
        prover_country_code: Input::Absent,
    }
}

fn publics_with_flags(age_flag: u64, gender_flag: u64, nationality_flag: u64) -> AccessControlPublicInputs {
    AccessControlPublicInputs {
        age_check_flag: age_flag,
        required_age: 18,
        gender_check_flag: gender_flag,
        required_gender: 1,
        nationality_check_flag: nationality_flag,
        allowed_country_codes: vec![410, 0, 0, 0, 0],
    }
}

#[test]
fn test_absent_input_with_flag_off_should_pass() {
    let witness = absent_witness();
    let publics = publics_with_flags(0, 0, 0);
    assert!(access_control_check(&witness, &publics));
}

#[test]
fn test_absent_input_with_flag_on_should_fail() {
    let witness = absent_witness();
    let publics = publics_with_flags(1, 1, 1);
    assert!(
        !access_control_check(&witness, &publics),
        "Expected failure due to Absent inputs with flags ON"
    );
}

#[test]
fn test_mixed_input_with_some_flags_off_should_pass() {
    let witness = AccessControlCircuit {
        prover_age: Input::Present(25),
        prover_gender: Input::Absent,
        prover_country_code: Input::Absent,
    };
    let publics = publics_with_flags(1, 0, 0);
    assert!(access_control_check(&witness, &publics));
}

#[test]
fn access_control_concrete_scenarios() {
    // Age 20 against a threshold of 18 with the check enabled passes;
    // age 16 fails; disabling the check admits age 16.
    run_test(20, 18, 1, 1, 1, 0, 0, vec![], 0, true);
    run_test(16, 18, 1, 1, 1, 0, 0, vec![], 0, false);
    run_test(16, 18, 0, 1, 1, 0, 0, vec![], 0, true);
    // Country code 410 is allowed, 999 is not.
    run_test(20, 18, 0, 1, 1, 0, 410, vec![410, 840, 0, 0, 0], 1, true);
    run_test(20, 18, 0, 1, 1, 0, 999, vec![410, 840, 0, 0, 0], 1, false);
}

#[test]
fn resolve_or_dummy_substitutes_only_when_absent() {
    assert_eq!(Input::Present(7).resolve_or_dummy(u64::MAX), 7);
    assert_eq!(Input::Absent.resolve_or_dummy(u64::MAX), u64::MAX);
}

#[test]
fn default_witness_is_all_absent() {
    let w = AccessControlCircuit::default();
    assert!(matches!(w.prover_age, Input::Absent));
    assert!(matches!(w.prover_gender, Input::Absent));
    assert!(matches!(w.prover_country_code, Input::Absent));
}
