//! Elements of the two BN254 prime fields, held as canonical limbs.
//!
//! `Scalar` stands for an element of the scalar field `Fr` (integers modulo the
//! group order r) and `BaseField` for an element of the base field `Fq` in which
//! the G1 coordinates live. Each keeps the canonical little-endian limbs of its
//! value, so two elements are equal exactly when their limbs are.
use vstd::prelude::*;
use ark_bn254::Fr;
use ark_ff::{BigInt, BigInteger, PrimeField};
use ark_std::UniformRand;
use crate::limbs::{limbs_value, limbs_lt, limbs_eq};

verus! {

/// The order r of the BN254 G1 group: the modulus of the scalar field.
pub open spec fn fr_modulus() -> nat {
    21888242871839275222246405745257275088548364400416034343698204186575808495617nat
}

/// The modulus q of the BN254 base field.
pub open spec fn fq_modulus() -> nat {
    21888242871839275222246405745257275088696311157297823662689037894645226208583nat
}

fn fr_modulus_limbs() -> (l: [u64; 4])
    ensures
        limbs_value(l) == fr_modulus(),
{
    [0x43e1f593f0000001u64, 0x2833e84879b97091u64, 0xb85045b68181585du64, 0x30644e72e131a029u64]
}

fn fq_modulus_limbs() -> (l: [u64; 4])
    ensures
        limbs_value(l) == fq_modulus(),
{
    [0x3c208c16d87cfd47u64, 0x97816a916871ca8du64, 0xb85045b68181585du64, 0x30644e72e131a029u64]
}

/// An element of the scalar field `Fr`, a number below `fr_modulus()`.
#[derive(Clone, Copy, Debug)]
pub struct Scalar {
    pub(crate) limbs: [u64; 4],
}

impl View for Scalar {
    type V = nat;

    closed spec fn view(&self) -> nat {
        limbs_value(self.limbs)
    }
}

impl Scalar {
    /// Every scalar is reduced modulo r.
    #[verifier::type_invariant]
    pub open spec fn reduced(self) -> bool {
        self@ < fr_modulus()
    }

    /// The scalar with the value of a 64-bit integer.
    pub fn from_u64(v: u64) -> (res: Scalar)
        ensures
            res@ == v,
    {
        let s = Scalar { limbs: [v, 0, 0, 0] };
        assert(s@ == v);
        s
    }

    /// The scalar whose canonical little-endian limbs are `limbs`, if they
    /// stand for a number below r.
    pub fn from_limbs(limbs: [u64; 4]) -> (res: Option<Scalar>)
        ensures
            res is Some <==> limbs_value(limbs) < fr_modulus(),
            res matches Some(s) ==> s@ == limbs_value(limbs),
    {
        let m = fr_modulus_limbs();
        if limbs_lt(&limbs, &m) {
            Some(Scalar { limbs })
        } else {
            None
        }
    }

    /// The canonical little-endian limbs of the scalar.
    pub fn to_limbs(&self) -> (res: [u64; 4])
        ensures
            limbs_value(res) == self@,
    {
        self.limbs
    }

    /// Field equality.
    pub fn equals(&self, other: &Scalar) -> (res: bool)
        ensures
            res == (self@ == other@),
    {
        limbs_eq(&self.limbs, &other.limbs)
    }
}

/// An element of the base field `Fq`, a number below `fq_modulus()`.
#[derive(Clone, Copy, Debug)]
pub struct BaseField {
    pub(crate) limbs: [u64; 4],
}

impl View for BaseField {
    type V = nat;

    closed spec fn view(&self) -> nat {
        limbs_value(self.limbs)
    }
}

impl BaseField {
    /// Every base field element is reduced modulo q.
    #[verifier::type_invariant]
    pub open spec fn reduced(self) -> bool {
        self@ < fq_modulus()
    }

    /// The element with the value of a 64-bit integer.
    pub fn from_u64(v: u64) -> (res: BaseField)
        ensures
            res@ == v,
    {
        let f = BaseField { limbs: [v, 0, 0, 0] };
        assert(f@ == v);
        f
    }

    /// The element whose canonical little-endian limbs are `limbs`, if they
    /// stand for a number below q.
    pub fn from_limbs(limbs: [u64; 4]) -> (res: Option<BaseField>)
        ensures
            res is Some <==> limbs_value(limbs) < fq_modulus(),
            res matches Some(f) ==> f@ == limbs_value(limbs),
    {
        let m = fq_modulus_limbs();
        if limbs_lt(&limbs, &m) {
            Some(BaseField { limbs })
        } else {
            None
        }
    }

    /// The canonical little-endian limbs of the element.
    pub fn to_limbs(&self) -> (res: [u64; 4])
        ensures
            limbs_value(res) == self@,
    {
        self.limbs
    }

    /// Field equality.
    pub fn equals(&self, other: &BaseField) -> (res: bool)
        ensures
            res == (self@ == other@),
    {
        limbs_eq(&self.limbs, &other.limbs)
    }
}

/// Draws a scalar with `Fr::rand` from the thread-local generator of `rand`.
/// Nothing is claimed of the value beyond its being a scalar.
#[verifier::external_body]
pub(crate) fn random_scalar() -> (res: Scalar) {
    let f = Fr::rand(&mut rand::thread_rng());
    Scalar { limbs: f.into_bigint().0 }
}

/// `Fr` addition (`Add for Fp`): the sum modulo r.
#[verifier::external_body]
pub(crate) fn scalar_add(a: &Scalar, b: &Scalar) -> (res: Scalar)
    ensures
        res@ == (a@ + b@) % fr_modulus(),
{
    let fa = Fr::new(BigInt(a.limbs));
    let fb = Fr::new(BigInt(b.limbs));
    Scalar { limbs: (fa + fb).into_bigint().0 }
}

/// `Fr` multiplication (`Mul for Fp`): the product modulo r.
#[verifier::external_body]
pub(crate) fn scalar_mul(a: &Scalar, b: &Scalar) -> (res: Scalar)
    ensures
        res@ == (a@ * b@) % fr_modulus(),
{
    let fa = Fr::new(BigInt(a.limbs));
    let fb = Fr::new(BigInt(b.limbs));
    Scalar { limbs: (fa * fb).into_bigint().0 }
}

/// `Fr::from_le_bytes_mod_order` on the little-endian bytes of a base field
/// element: the element's value reduced modulo r.
#[verifier::external_body]
pub(crate) fn base_to_scalar(x: &BaseField) -> (res: Scalar)
    ensures
        res@ == x@ % fr_modulus(),
{
    let bytes = BigInt::new(x.limbs).to_bytes_le();
    Scalar { limbs: Fr::from_le_bytes_mod_order(&bytes).into_bigint().0 }
}

} // verus!
