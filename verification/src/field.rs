//! Field elements and the Poseidon compression interface.
//!
//! Every value that a circuit manipulates is an element of the Pallas base
//! field, a prime field of about 2^254 elements.  The circuits here only
//! ever inject small integers into the field and compare or hash the
//! results, so the library carries a field element as its canonical
//! little-endian 64-bit limbs and reasons about the integer those limbs
//! encode.  The compression function itself — a Poseidon permutation over
//! the field — is an external collaborator: its output is named by an
//! uninterpreted function and obtained through a trusted wrapper.

use vstd::prelude::*;

use group::ff::PrimeField;
use halo2_gadgets::poseidon::primitives::{ConstantLength, Hash as PoseidonHash, P128Pow5T3};
use halo2_proofs::pasta::Fp;

verus! {

/// A field element, held as the four little-endian 64-bit limbs of its
/// canonical (fully reduced) representation.
#[derive(Clone, Copy, Debug, PartialEq, Eq, Structural)]
pub struct Fe {
    pub w0: u64,
    pub w1: u64,
    pub w2: u64,
    pub w3: u64,
}

/// The base in which limbs are read.
pub open spec fn limb_base() -> int {
    0x1_0000_0000_0000_0000
}

/// The order of the Pallas base field,
/// `0x40000000000000000000000000000000224698fc094cf91b992d30ed00000001`,
/// assembled from its little-endian 64-bit limbs.
pub open spec fn field_modulus() -> int {
    0x992d30ed00000001
        + 0x224698fc094cf91b * limb_base()
        + 0x4000000000000000 * (limb_base() * limb_base() * limb_base())
}

/// The digest of the two-input Poseidon compression function, as the
/// integer value of its canonical representation.  The function is
/// deterministic, so naming its result is sound; nothing more is assumed
/// of it — in particular no algebraic structure and no injectivity.
pub uninterp spec fn compress_of(a: int, b: int) -> int;

impl Fe {
    /// The integer encoded by the limbs, read little-endian in base 2^64.
    pub open spec fn as_int(self) -> int {
        self.w0
            + self.w1 * limb_base()
            + self.w2 * (limb_base() * limb_base())
            + self.w3 * (limb_base() * limb_base() * limb_base())
    }

    /// A limb vector is canonical when it encodes an integer below the
    /// field order; every well-formed `Fe` satisfies this.
    pub open spec fn valid(self) -> bool {
        self.as_int() < field_modulus()
    }

    /// The field element for a small non-negative integer.
    pub fn from_u64(x: u64) -> (r: Fe)
        ensures
            r.valid(),
            r.as_int() == x,
    {
        Fe { w0: x, w1: 0, w2: 0, w3: 0 }
    }

    /// The zero element, used as the canonical padding digest.
    pub fn zero() -> (r: Fe)
        ensures
            r == fe_zero(),
            r.valid(),
            r.as_int() == 0,
    {
        Fe { w0: 0, w1: 0, w2: 0, w3: 0 }
    }
}

/// The zero element, as a specification value.
pub open spec fn fe_zero() -> Fe {
    Fe { w0: 0, w1: 0, w2: 0, w3: 0 }
}

/// The zero element is canonical and encodes the integer zero.
pub proof fn lemma_fe_zero_valid()
    ensures
        fe_zero().valid(),
        fe_zero().as_int() == 0,
{
}

/// Positional notation in base 2^64 is unique: two limb vectors encode
/// the same integer exactly when they are equal limb for limb.
pub proof fn lemma_as_int_injective(a: Fe, b: Fe)
    ensures
        (a.as_int() == b.as_int()) <==> (a == b),
{
    if a.as_int() == b.as_int() {
        let base: int = 0x1_0000_0000_0000_0000;
        let a_hi = a.w1 + a.w2 * base + a.w3 * base * base;
        let b_hi = b.w1 + b.w2 * base + b.w3 * base * base;
        assert(a.w0 - b.w0 + base * (a_hi - b_hi) == 0) by (nonlinear_arith)
            requires
                a.as_int() == b.as_int(),
                a_hi == a.w1 + a.w2 * base + a.w3 * base * base,
                b_hi == b.w1 + b.w2 * base + b.w3 * base * base,
                base == 0x1_0000_0000_0000_0000,
                a.as_int() == a.w0 + a.w1 * base + a.w2 * (base * base) + a.w3 * (base * base * base),
                b.as_int() == b.w0 + b.w1 * base + b.w2 * (base * base) + b.w3 * (base * base * base),
        ;
        assert(a.w0 == b.w0 && a_hi == b_hi);
        let a_hi2 = a.w2 + a.w3 * base;
        let b_hi2 = b.w2 + b.w3 * base;
        assert(a.w1 - b.w1 + base * (a_hi2 - b_hi2) == 0) by (nonlinear_arith)
            requires
                a_hi == b_hi,
                a_hi == a.w1 + a.w2 * base + a.w3 * base * base,
                b_hi == b.w1 + b.w2 * base + b.w3 * base * base,
                a_hi2 == a.w2 + a.w3 * base,
                b_hi2 == b.w2 + b.w3 * base,
        ;
        assert(a.w1 == b.w1 && a_hi2 == b_hi2);
        assert(a.w2 == b.w2 && a.w3 == b.w3);
    }
}

/// Relies on `halo2_gadgets::poseidon::primitives::Hash` (the
/// `halo2_poseidon` crate) with the `P128Pow5T3` specification over the
/// Pallas base field: hashing a two-element message is a deterministic
/// function of the two field elements alone, and `to_repr` returns the
/// canonical little-endian representation of the digest.
#[verifier::external_body]
pub fn poseidon_hash(a: &Fe, b: &Fe) -> (r: Fe)
    requires
        a.valid(),
        b.valid(),
    ensures
        r.valid(),
        r.as_int() == compress_of(a.as_int(), b.as_int()),
{
    let fa = Fp::from_raw([a.w0, a.w1, a.w2, a.w3]);
    let fb = Fp::from_raw([b.w0, b.w1, b.w2, b.w3]);
    let h = PoseidonHash::<Fp, P128Pow5T3, ConstantLength<2>, 3, 2>::init().hash([fa, fb]);
    let r = h.to_repr();
    Fe {
        w0: u64::from_le_bytes(r[0..8].try_into().unwrap()),
        w1: u64::from_le_bytes(r[8..16].try_into().unwrap()),
        w2: u64::from_le_bytes(r[16..24].try_into().unwrap()),
        w3: u64::from_le_bytes(r[24..32].try_into().unwrap()),
    }
}

} // verus!
