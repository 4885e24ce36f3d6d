//! The access-control policy circuit.
//!
//! Three predicate sub-circuits — age at least a threshold, gender equal
//! to a required value, nationality within an allowed list — are
//! composed behind one public input vector.  Each predicate has its own
//! enable flag; overall satisfaction is the conjunction of the three
//! gates, and a clear flag makes its gate vacuous.
//!
//! A prover may leave a private input out.  An absent input is assigned
//! a reserved dummy field value at synthesis time; that is only sound
//! when the matching flag is clear, and with the flag set the dummy
//! value is expected to fail the predicate — a consumer must not be able
//! to claim a predicate it never supplied an input for.

use vstd::prelude::*;

use crate::comparison::{comparison_holds, Comparison};
use crate::membership::{member_of, pad_zero};
use crate::predicates::{
    age_check, age_check_holds, gender_check_gated, gender_check_gated_holds, nationality_check,
    nationality_check_holds, MAX_AGE, MAX_COUNTRY_NUMBER,
};

verus! {

/// The reserved field value assigned in place of an absent private
/// input: the field image of -1, far outside every legitimate domain.
pub const DUMMY_VALUE: u64 = u64::MAX;

/// A private input that the prover either supplies or leaves out.
#[derive(Clone, Copy, Debug, PartialEq, Eq, Structural)]
pub enum Input {
    Present(u64),
    Absent,
}

impl Input {
    /// The value this input resolves to when `dummy` stands in for an
    /// absent one.
    pub open spec fn spec_resolve(self, dummy: u64) -> u64 {
        match self {
            Input::Present(value) => value,
            Input::Absent => dummy,
        }
    }

    /// The supplied value, or `dummy` when the input is absent.
    pub fn resolve_or_dummy(&self, dummy: u64) -> (v: u64)
        ensures
            v == self.spec_resolve(dummy),
    {
        match self {
            Input::Present(value) => *value,
            Input::Absent => dummy,
        }
    }
}

/// The private witness of the access-control circuit.
#[derive(Clone, Copy, Debug)]
pub struct AccessControlCircuit {
    pub prover_age: Input,
    pub prover_gender: Input,
    pub prover_country_code: Input,
}

impl Default for AccessControlCircuit {
    /// The witness used for constraint-shape extraction: every private
    /// input absent.
    fn default() -> (w: AccessControlCircuit)
        ensures
            w.prover_age is Absent,
            w.prover_gender is Absent,
            w.prover_country_code is Absent,
    {
        AccessControlCircuit {
            prover_age: Input::Absent,
            prover_gender: Input::Absent,
            prover_country_code: Input::Absent,
        }
    }
}

/// The public input vector of the access-control circuit, one slot group
/// per declared instance column.
#[derive(Clone, Debug)]
pub struct AccessControlPublicInputs {
    pub age_check_flag: u64,
    pub required_age: u64,
    pub gender_check_flag: u64,
    pub required_gender: u64,
    pub nationality_check_flag: u64,
    pub allowed_country_codes: Vec<u64>,
}

/// When every gate of the access-control circuit is satisfied for the
/// witness `w` under the public inputs `p`, with absent inputs resolved
/// to the reserved dummy value.
pub open spec fn access_control_holds(w: AccessControlCircuit, p: AccessControlPublicInputs) -> bool {
    age_check_holds(
        w.prover_age.spec_resolve(DUMMY_VALUE) as int,
        p.age_check_flag as int,
        p.required_age as int,
    ) && gender_check_gated_holds(
        w.prover_gender.spec_resolve(DUMMY_VALUE) as int,
        p.gender_check_flag as int,
        p.required_gender as int,
    ) && nationality_check_holds(
        w.prover_country_code.spec_resolve(DUMMY_VALUE),
        p.nationality_check_flag,
        p.allowed_country_codes@,
    )
}

/// Decide whether the access-control circuit accepts the witness under
/// the given public inputs.
pub fn access_control_check(w: &AccessControlCircuit, p: &AccessControlPublicInputs) -> (ok: bool)
    requires
        p.allowed_country_codes@.len() <= MAX_COUNTRY_NUMBER,
    ensures
        ok == access_control_holds(*w, *p),
{
    let age = w.prover_age.resolve_or_dummy(DUMMY_VALUE);
    let gender = w.prover_gender.resolve_or_dummy(DUMMY_VALUE);
    let code = w.prover_country_code.resolve_or_dummy(DUMMY_VALUE);
    let age_ok = age_check(age, p.age_check_flag, p.required_age);
    let gender_ok = gender_check_gated(gender, p.gender_check_flag, p.required_gender);
    let nationality_ok = nationality_check(code, p.nationality_check_flag, &p.allowed_country_codes);
    age_ok && gender_ok && nationality_ok
}

/// A predicate whose flag is clear is not load-bearing: varying its
/// private input — supplied, invalid or absent — cannot change overall
/// satisfaction.
pub proof fn lemma_disabled_age_ignores_input(
    w1: AccessControlCircuit,
    w2: AccessControlCircuit,
    p: AccessControlPublicInputs,
)
    requires
        p.age_check_flag == 0,
        w1.prover_gender == w2.prover_gender,
        w1.prover_country_code == w2.prover_country_code,
    ensures
        access_control_holds(w1, p) == access_control_holds(w2, p),
{
}

/// The gender analogue of `lemma_disabled_age_ignores_input`.
pub proof fn lemma_disabled_gender_ignores_input(
    w1: AccessControlCircuit,
    w2: AccessControlCircuit,
    p: AccessControlPublicInputs,
)
    requires
        p.gender_check_flag == 0,
        w1.prover_age == w2.prover_age,
        w1.prover_country_code == w2.prover_country_code,
    ensures
        access_control_holds(w1, p) == access_control_holds(w2, p),
{
}

/// The nationality analogue of `lemma_disabled_age_ignores_input`.
pub proof fn lemma_disabled_nationality_ignores_input(
    w1: AccessControlCircuit,
    w2: AccessControlCircuit,
    p: AccessControlPublicInputs,
)
    requires
        p.nationality_check_flag == 0,
        w1.prover_age == w2.prover_age,
        w1.prover_gender == w2.prover_gender,
    ensures
        access_control_holds(w1, p) == access_control_holds(w2, p),
{
}

/// With every flag clear the circuit is satisfied for any private input,
/// including out-of-domain dummy values.
pub proof fn lemma_all_flags_off_accepts(w: AccessControlCircuit, p: AccessControlPublicInputs)
    requires
        p.age_check_flag == 0,
        p.gender_check_flag == 0,
        p.nationality_check_flag == 0,
    ensures
        access_control_holds(w, p),
{
}

/// With every flag set, the circuit is satisfied exactly when each
/// predicate passes on its own resolved input: the predicates are
/// evaluated in isolated scopes, so making any single one fail — while
/// the others still pass — makes the whole circuit fail.
pub proof fn lemma_predicate_isolation(w: AccessControlCircuit, p: AccessControlPublicInputs)
    requires
        p.age_check_flag != 0,
        p.gender_check_flag != 0,
        p.nationality_check_flag != 0,
    ensures
        access_control_holds(w, p) <==> (comparison_holds(
            Comparison::GreaterEqual,
            w.prover_age.spec_resolve(DUMMY_VALUE) as int,
            p.required_age as int,
            MAX_AGE as int,
        ) && (p.required_gender == 0 || w.prover_gender.spec_resolve(DUMMY_VALUE)
            == p.required_gender) && member_of(
            w.prover_country_code.spec_resolve(DUMMY_VALUE),
            pad_zero(p.allowed_country_codes@, MAX_COUNTRY_NUMBER as nat),
        )),
{
}

/// An absent age with its flag set is rejected: the reserved dummy value
/// stands so far above any required age below the bound that the range
/// check cannot pass.
pub proof fn lemma_absent_age_with_flag_on_fails(w: AccessControlCircuit, p: AccessControlPublicInputs)
    requires
        p.age_check_flag != 0,
        w.prover_age is Absent,
        p.required_age < u64::MAX - MAX_AGE,
    ensures
        !access_control_holds(w, p),
{
}

} // verus!
