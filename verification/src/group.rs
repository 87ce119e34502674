//! Points of the BN254 G1 group in affine coordinates.
use vstd::prelude::*;
use ark_bn254::{Fq, Fr, G1Affine, G1Projective};
use ark_ec::{CurveGroup, PrimeGroup};
use ark_ff::{BigInt, PrimeField};
use vstd::arithmetic::div_mod::{lemma_mul_mod_noop_left, lemma_mul_mod_noop_right, lemma_sub_mod_noop};
use vstd::arithmetic::mul::{lemma_mul_is_associative, lemma_mul_is_distributive_sub};
use crate::field::{BaseField, Scalar, fr_modulus, fq_modulus};

verus! {

/// A G1 point as affine coordinates `(x, y, infinity)`.
pub type G1View = (nat, nat, bool);

/// An affine point of the BN254 G1 curve. The point at infinity, as the curve
/// library gives it, has both coordinates zero and `infinity` set.
///
/// Coordinates given by hand need not lie on the curve. The group laws
/// (`generates_prime_order_group`) are known of the generator, of every
/// multiple of it (`lemma_multiple_generates`), and of every point that
/// `G1Point::is_on_curve` accepts.
#[derive(Clone, Copy, Debug)]
pub struct G1Point {
    pub x: BaseField,
    pub y: BaseField,
    pub infinity: bool,
}

impl View for G1Point {
    type V = G1View;

    open spec fn view(&self) -> G1View {
        (self.x@, self.y@, self.infinity)
    }
}

/// The affine form of `s · p`, the point `p` multiplied by the scalar field
/// element `s`, as the curve library's scalar multiplication and
/// normalisation compute it.
pub uninterp spec fn g1_mul_spec(p: G1View, s: nat) -> G1View;

/// The affine form of `a - b` as the curve library computes it.
pub uninterp spec fn g1_sub_spec(a: G1View, b: G1View) -> G1View;

/// `g` lies in a cyclic group of prime order r, so that its multiples follow
/// the rules of scalar multiplication: `b · (a · g) = (a b mod r) · g` and
/// `a · g - b · g = ((a - b) mod r) · g`.
pub open spec fn generates_prime_order_group(g: G1View) -> bool {
    let r = fr_modulus();
    &&& forall|a: nat, b: nat|
        a < r && b < r ==> #[trigger] g1_mul_spec(g1_mul_spec(g, a), b) == g1_mul_spec(
            g,
            (a * b) % r,
        )
    &&& forall|a: nat, b: nat|
        a < r && b < r ==> #[trigger] g1_sub_spec(g1_mul_spec(g, a), g1_mul_spec(g, b))
            == g1_mul_spec(g, ((a - b) % (r as int)) as nat)
}

/// Every multiple `a · g` of a point `g` of the prime-order group lies in that
/// group too, so its own multiples follow the same rules.
pub proof fn lemma_multiple_generates(g: G1View, a: nat)
    requires
        generates_prime_order_group(g),
        a < fr_modulus(),
    ensures
        generates_prime_order_group(g1_mul_spec(g, a)),
{
    let r = fr_modulus();
    let h = g1_mul_spec(g, a);
    assert forall|b: nat, c: nat| b < r && c < r implies #[trigger] g1_mul_spec(
        g1_mul_spec(h, b),
        c,
    ) == g1_mul_spec(h, (b * c) % r) by {
        let ab = (a * b) % r;
        let bc = (b * c) % r;
        assert(ab < r && bc < r) by (nonlinear_arith)
            requires
                ab == (a * b) % r,
                bc == (b * c) % r,
                r > 0,
        ;
        assert(g1_mul_spec(h, b) == g1_mul_spec(g, ab));
        assert(g1_mul_spec(h, bc) == g1_mul_spec(g, (a * bc) % r));
        lemma_mul_mod_noop_left((a * b) as int, c as int, r as int);
        lemma_mul_mod_noop_right(a as int, (b * c) as int, r as int);
        lemma_mul_is_associative(a as int, b as int, c as int);
        assert((ab * c) % r == (a * bc) % r);
    }
    assert forall|b: nat, c: nat| b < r && c < r implies #[trigger] g1_sub_spec(
        g1_mul_spec(h, b),
        g1_mul_spec(h, c),
    ) == g1_mul_spec(h, ((b - c) % (r as int)) as nat) by {
        let ab = (a * b) % r;
        let ac = (a * c) % r;
        let d = ((b - c) % (r as int)) as nat;
        assert(ab < r && ac < r && d < r) by (nonlinear_arith)
            requires
                ab == (a * b) % r,
                ac == (a * c) % r,
                d == ((b - c) % (r as int)) as nat,
                r > 0,
        ;
        assert(g1_mul_spec(h, b) == g1_mul_spec(g, ab));
        assert(g1_mul_spec(h, c) == g1_mul_spec(g, ac));
        assert(g1_mul_spec(h, d) == g1_mul_spec(g, (a * d) % r));
        lemma_sub_mod_noop((a * b) as int, (a * c) as int, r as int);
        lemma_mul_is_distributive_sub(a as int, b as int, c as int);
        lemma_mul_mod_noop_right(a as int, b - c, r as int);
        assert(((ab - ac) % (r as int)) as nat == (a * d) % r);
    }
}

/// The affine generator of BN254 G1.
pub open spec fn g1_generator_spec() -> G1View {
    (1nat, 2nat, false)
}

/// `G1Projective::generator()` in affine form. The curve library defines it
/// as the point (1, 2); G1 of BN254 has cofactor 1, so the curve is the
/// prime-order group of `PrimeGroup`, whose order is the modulus of `Fr`.
#[verifier::external_body]
pub(crate) fn bn254_generator() -> (res: G1Point)
    ensures
        res@ == g1_generator_spec(),
        generates_prime_order_group(res@),
{
    let a = G1Projective::generator().into_affine();
    G1Point {
        x: BaseField { limbs: a.x.into_bigint().0 },
        y: BaseField { limbs: a.y.into_bigint().0 },
        infinity: a.infinity,
    }
}

/// Scalar multiplication `p * s` on `G1Projective`, normalised to affine form.
#[verifier::external_body]
pub(crate) fn g1_mul(p: &G1Point, s: &Scalar) -> (res: G1Point)
    ensures
        res@ == g1_mul_spec(p@, s@),
{
    let x = Fq::new(BigInt(p.x.limbs));
    let y = Fq::new(BigInt(p.y.limbs));
    let proj: G1Projective = G1Affine { x, y, infinity: p.infinity }.into();
    let a = (proj * Fr::new(BigInt(s.limbs))).into_affine();
    G1Point {
        x: BaseField { limbs: a.x.into_bigint().0 },
        y: BaseField { limbs: a.y.into_bigint().0 },
        infinity: a.infinity,
    }
}

/// Subtraction `a - b` on `G1Projective`, normalised to affine form.
#[verifier::external_body]
pub(crate) fn g1_sub(a: &G1Point, b: &G1Point) -> (res: G1Point)
    ensures
        res@ == g1_sub_spec(a@, b@),
{
    let pa: G1Projective =
        G1Affine { x: Fq::new(BigInt(a.x.limbs)), y: Fq::new(BigInt(a.y.limbs)), infinity: a.infinity }.into();
    let pb: G1Projective =
        G1Affine { x: Fq::new(BigInt(b.x.limbs)), y: Fq::new(BigInt(b.y.limbs)), infinity: b.infinity }.into();
    let d = (pa - pb).into_affine();
    G1Point {
        x: BaseField { limbs: d.x.into_bigint().0 },
        y: BaseField { limbs: d.y.into_bigint().0 },
        infinity: d.infinity,
    }
}

/// The point is the point at infinity or satisfies the BN254 G1 curve
/// equation `y^2 = x^3 + 3` over `Fq`.
pub open spec fn on_curve(p: G1View) -> bool {
    p.2 || (p.1 * p.1) % fq_modulus() == (p.0 * p.0 * p.0 + 3) % fq_modulus()
}

/// `Affine::is_on_curve` on the point: true for the point at infinity and
/// otherwise exactly when `y^2 = x^3 + 3` in `Fq`. BN254 G1 has cofactor 1,
/// so every point of the curve lies in the group of prime order r that
/// `PrimeGroup` describes.
#[verifier::external_body]
pub(crate) fn g1_is_on_curve(p: &G1Point) -> (res: bool)
    ensures
        res == on_curve(p@),
        res ==> generates_prime_order_group(p@),
{
    G1Affine { x: Fq::new(BigInt(p.x.limbs)), y: Fq::new(BigInt(p.y.limbs)), infinity: p.infinity }
        .is_on_curve()
}

impl G1Point {
    /// The generator (1, 2) of BN254 G1.
    pub fn generator() -> (res: G1Point)
        ensures
            res@ == g1_generator_spec(),
            generates_prime_order_group(res@),
    {
        bn254_generator()
    }

    /// Tells whether the point lies on the curve. Every point that does lies
    /// in the prime-order group, so the signature laws hold with it as base.
    pub fn is_on_curve(&self) -> (res: bool)
        ensures
            res == on_curve(self@),
            res ==> generates_prime_order_group(self@),
    {
        g1_is_on_curve(self)
    }
}

} // verus!
