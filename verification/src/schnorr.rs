//! Schnorr signatures over BN254 G1 whose challenge is a Poseidon hash of the
//! message and of the nonce commitment's coordinates.
use vstd::prelude::*;
use vstd::arithmetic::div_mod::{lemma_small_mod, lemma_add_mod_noop_right};
use crate::field::{Scalar, fr_modulus, random_scalar, scalar_add, scalar_mul, base_to_scalar};
use crate::group::{G1Point, G1View, g1_mul, g1_sub, g1_mul_spec, g1_sub_spec, generates_prime_order_group, lemma_multiple_generates};
use crate::utils::{get_poseidon_config, poseidon_hash, poseidon_squeeze, schnorr_poseidon_config};

verus! {

/// A signing key: the discrete logarithm `x` of the public key.
pub struct SecretKey {
    x: Scalar,
}

impl View for SecretKey {
    type V = nat;

    closed spec fn view(&self) -> nat {
        self.x@
    }
}

/// A verification key: the point `x · g`.
pub struct PublicKey {
    pub pk: G1Point,
}

/// A Schnorr signature: the challenge `c` and the response `z`.
pub struct Signature {
    pub c: Scalar,
    pub z: Scalar,
}

/// The Schnorr signature scheme.
pub struct Schnorr;

/// The challenge for message `m` and nonce commitment `R`: the Poseidon hash of
/// `m` and of `R`'s affine coordinates reduced modulo r, as an element of `Fr`.
pub open spec fn challenge(m: nat, R: G1View) -> nat {
    poseidon_squeeze(schnorr_poseidon_config(), seq![m, R.0 % fr_modulus(), R.1 % fr_modulus()])
        % fr_modulus()
}

/// The signature `(c, z)` on `m` by secret `x` with nonce `r` and base `g`:
/// `c` is the challenge for `r · g` and `z = r + c x mod r`.
pub open spec fn sign_spec(g: G1View, m: nat, x: nat, r: nat) -> (nat, nat) {
    let c = challenge(m, g1_mul_spec(g, r));
    (c, (r + (c * x) % fr_modulus()) % fr_modulus())
}

/// The nonce commitment that a verifier recomputes: `z · g - c · pk`.
pub open spec fn recovered_commitment(g: G1View, pk: G1View, c: nat, z: nat) -> G1View {
    g1_sub_spec(g1_mul_spec(g, z), g1_mul_spec(pk, c))
}

/// `(c, z)` is a valid signature on `m` under `pk` with base `g`: the challenge
/// recomputed from the recovered commitment is `c`.
pub open spec fn schnorr_accepts(g: G1View, pk: G1View, m: nat, c: nat, z: nat) -> bool {
    c == challenge(m, recovered_commitment(g, pk, c, z))
}

impl Schnorr {
    /// The key pair with secret `x`: the public key is `x · g`.
    pub fn keygen_from_secret(g: G1Point, x: Scalar) -> (res: (SecretKey, PublicKey))
        ensures
            res.0@ == x@,
            res.1.pk@ == g1_mul_spec(g@, x@),
            generates_prime_order_group(g@) ==> generates_prime_order_group(res.1.pk@),
    {
        let pk = g1_mul(&g, &x);
        proof {
            use_type_invariant(&x);
            if generates_prime_order_group(g@) {
                lemma_multiple_generates(g@, x@);
            }
        }
        (SecretKey { x }, PublicKey { pk })
    }

    /// A fresh key pair: a random secret `x` and the public key `x · g`.
    pub fn keyGen(g: G1Point) -> (res: (SecretKey, PublicKey))
        ensures
            res.0@ < fr_modulus(),
            res.1.pk@ == g1_mul_spec(g@, res.0@),
            generates_prime_order_group(g@) ==> generates_prime_order_group(res.1.pk@),
    {
        let x = random_scalar();
        proof {
            use_type_invariant(&x);
        }
        Self::keygen_from_secret(g, x)
    }

    /// The signature on `m` with nonce `r`: `R = r · g`, `c` the Poseidon hash
    /// of `m` and `R`'s coordinates reduced modulo r, `z = r + c x`.
    pub fn sign_with_nonce(g: G1Point, m: Scalar, sk: &SecretKey, r: Scalar) -> (res: Signature)
        ensures
            (res.c@, res.z@) == sign_spec(g@, m@, sk@, r@),
            res.c@ == poseidon_squeeze(
                schnorr_poseidon_config(),
                seq![
                    m@,
                    g1_mul_spec(g@, r@).0 % fr_modulus(),
                    g1_mul_spec(g@, r@).1 % fr_modulus(),
                ],
            ) % fr_modulus(),
            res.z@ == (r@ + res.c@ * sk@) % fr_modulus(),
    {
        let config = get_poseidon_config();
        let R = g1_mul(&g, &r);
        let Rx = base_to_scalar(&R.x);
        let Ry = base_to_scalar(&R.y);
        let c = poseidon_hash(m, Rx, Ry, &config);
        proof {
            use_type_invariant(&c);
            lemma_small_mod(c@, fr_modulus());
        }
        let cx = scalar_mul(&c, &sk.x);
        let z = scalar_add(&r, &cx);
        proof {
            lemma_add_mod_noop_right(r@ as int, (c@ * sk.x@) as int, fr_modulus() as int);
        }
        Signature { c, z }
    }

    /// Signs `m` with a fresh random nonce.
    pub fn Sign(g: G1Point, m: Scalar, sk: &SecretKey) -> (res: Signature)
        ensures
            exists|r: nat| r < fr_modulus() && (res.c@, res.z@) == sign_spec(g@, m@, sk@, r),
    {
        let r = random_scalar();
        proof {
            use_type_invariant(&r);
        }
        Self::sign_with_nonce(g, m, sk, r)
    }

    /// Checks a signature: recomputes `R' = z · g - c · pk` and accepts when
    /// the challenge for `m` and `R'` is `c`.
    pub fn verify(g: G1Point, pk: &PublicKey, sig: &Signature, m: Scalar) -> (res: bool)
        ensures
            res == schnorr_accepts(g@, pk.pk@, m@, sig.c@, sig.z@),
            res == (sig.c@ == poseidon_squeeze(
                schnorr_poseidon_config(),
                seq![
                    m@,
                    g1_sub_spec(g1_mul_spec(g@, sig.z@), g1_mul_spec(pk.pk@, sig.c@)).0
                        % fr_modulus(),
                    g1_sub_spec(g1_mul_spec(g@, sig.z@), g1_mul_spec(pk.pk@, sig.c@)).1
                        % fr_modulus(),
                ],
            ) % fr_modulus()),
    {
        let config = get_poseidon_config();
        let zg = g1_mul(&g, &sig.z);
        let cpk = g1_mul(&pk.pk, &sig.c);
        let Rp = g1_sub(&zg, &cpk);
        let Rpx = base_to_scalar(&Rp.x);
        let Rpy = base_to_scalar(&Rp.y);
        let cp = poseidon_hash(m, Rpx, Rpy, &config);
        proof {
            use_type_invariant(&cp);
            lemma_small_mod(cp@, fr_modulus());
        }
        sig.c.equals(&cp)
    }
}

/// `(a + b mod n) - b` is `a` modulo `n` for `a < n`.
proof fn lemma_add_mod_sub(a: nat, b: nat, n: nat)
    requires
        a < n,
        b < n,
    ensures
        ((((a + b) % n) as int - b) % (n as int)) as nat == a,
{
    if a + b < n {
        assert((a + b) % n == a + b) by (nonlinear_arith)
            requires
                a + b < n,
        ;
        assert((a as int) % (n as int) == a) by (nonlinear_arith)
            requires
                a < n,
        ;
        assert(((a + b) % n) as int - b == a as int);
    } else {
        assert((a + b) % n == a + b - n) by (nonlinear_arith)
            requires
                n <= a + b < 2 * n,
        ;
        assert((a as int - n) % (n as int) == a) by (nonlinear_arith)
            requires
                a < n,
        ;
        assert(((a + b) % n) as int - b == a as int - n);
    }
}

/// The response `z = r + c x` that the secret `x` gives for nonce `r` and any
/// challenge `c` below r makes the recovered commitment `z · g - c · (x · g)`
/// the nonce commitment `r · g`.
pub proof fn lemma_response_recovers_nonce_commitment(g: G1View, x: nat, r: nat, c: nat)
    requires
        generates_prime_order_group(g),
        x < fr_modulus(),
        r < fr_modulus(),
        c < fr_modulus(),
    ensures
        g1_sub_spec(
            g1_mul_spec(g, (r + (c * x) % fr_modulus()) % fr_modulus()),
            g1_mul_spec(g1_mul_spec(g, x), c),
        ) == g1_mul_spec(g, r),
{
    let n = fr_modulus();
    let k = (c * x) % n;
    let z = (r + k) % n;
    assert(c * x == x * c) by (nonlinear_arith);
    assert(k < n && z < n) by (nonlinear_arith)
        requires
            k == (c * x) % n,
            z == (r + k) % n,
            n > 0,
    ;
    assert(g1_mul_spec(g1_mul_spec(g, x), c) == g1_mul_spec(g, k));
    assert(g1_sub_spec(g1_mul_spec(g, z), g1_mul_spec(g, k)) == g1_mul_spec(
        g,
        ((z - k) % (n as int)) as nat,
    ));
    lemma_add_mod_sub(r, k, n);
}

/// Correctness: a signature made with secret `x` verifies under the public
/// key `x · g`, whatever the message and the nonce, for any base `g` of the
/// prime-order group: the generator, every multiple of it
/// (`lemma_multiple_generates`), public keys among them, and every point that
/// `G1Point::is_on_curve` accepts.
pub proof fn lemma_signature_verifies(g: G1View, x: nat, r: nat, m: nat)
    requires
        generates_prime_order_group(g),
        x < fr_modulus(),
        r < fr_modulus(),
    ensures
        schnorr_accepts(g, g1_mul_spec(g, x), m, sign_spec(g, m, x, r).0, sign_spec(g, m, x, r).1),
{
    let n = fr_modulus();
    let (c, z) = sign_spec(g, m, x, r);
    lemma_challenge_hashes_message(g, m, x, r);
    assert(c < n) by (nonlinear_arith)
        requires
            c == poseidon_squeeze(
                schnorr_poseidon_config(),
                seq![m, g1_mul_spec(g, r).0 % n, g1_mul_spec(g, r).1 % n],
            ) % n,
            n > 0,
    ;
    lemma_response_recovers_nonce_commitment(g, x, r, c);
    assert(recovered_commitment(g, g1_mul_spec(g, x), c, z) == g1_mul_spec(g, r));
}

/// What a signature is, in terms of its inputs: the challenge is the Poseidon
/// hash of the whole message `m` and of the coordinates of `r · g` reduced
/// modulo r, and the response is `r + c x` modulo r.
pub proof fn lemma_challenge_hashes_message(g: G1View, m: nat, x: nat, r: nat)
    ensures
        sign_spec(g, m, x, r).0 == poseidon_squeeze(
            schnorr_poseidon_config(),
            seq![m, g1_mul_spec(g, r).0 % fr_modulus(), g1_mul_spec(g, r).1 % fr_modulus()],
        ) % fr_modulus(),
        sign_spec(g, m, x, r).1 == (r + sign_spec(g, m, x, r).0 * x) % fr_modulus(),
{
    let n = fr_modulus();
    let c = sign_spec(g, m, x, r).0;
    lemma_add_mod_noop_right(r as int, (c * x) as int, n as int);
}

/// What verification decides, for every base, key, message and signature:
/// it accepts exactly when `c` is the Poseidon hash of `m` and of the
/// coordinates of `z · g - c · pk` reduced modulo r, taken modulo r.
pub proof fn lemma_verify_decides(g: G1View, pk: G1View, m: nat, c: nat, z: nat)
    ensures
        schnorr_accepts(g, pk, m, c, z) <==> c == poseidon_squeeze(
            schnorr_poseidon_config(),
            seq![
                m,
                g1_sub_spec(g1_mul_spec(g, z), g1_mul_spec(pk, c)).0 % fr_modulus(),
                g1_sub_spec(g1_mul_spec(g, z), g1_mul_spec(pk, c)).1 % fr_modulus(),
            ],
        ) % fr_modulus(),
{
}

/// A signature is bound to its message: if the signature made on `m` with
/// secret `x` and nonce `r` is accepted under `x · g` for a message `m2`, then
/// the Poseidon hashes of `m` and `m2` with the nonce commitment `r · g` agree
/// modulo r, a collision of the hash whenever `m2 != m`.
pub proof fn lemma_signature_bound_to_message(g: G1View, x: nat, r: nat, m: nat, m2: nat)
    requires
        generates_prime_order_group(g),
        x < fr_modulus(),
        r < fr_modulus(),
        schnorr_accepts(
            g,
            g1_mul_spec(g, x),
            m2,
            sign_spec(g, m, x, r).0,
            sign_spec(g, m, x, r).1,
        ),
    ensures
        poseidon_squeeze(
            schnorr_poseidon_config(),
            seq![m2, g1_mul_spec(g, r).0 % fr_modulus(), g1_mul_spec(g, r).1 % fr_modulus()],
        ) % fr_modulus() == poseidon_squeeze(
            schnorr_poseidon_config(),
            seq![m, g1_mul_spec(g, r).0 % fr_modulus(), g1_mul_spec(g, r).1 % fr_modulus()],
        ) % fr_modulus(),
{
    let n = fr_modulus();
    let c = sign_spec(g, m, x, r).0;
    let z = sign_spec(g, m, x, r).1;
    lemma_challenge_hashes_message(g, m, x, r);
    assert(c < n) by (nonlinear_arith)
        requires
            c == poseidon_squeeze(
                schnorr_poseidon_config(),
                seq![m, g1_mul_spec(g, r).0 % n, g1_mul_spec(g, r).1 % n],
            ) % n,
            n > 0,
    ;
    lemma_response_recovers_nonce_commitment(g, x, r, c);
    lemma_verify_decides(g, g1_mul_spec(g, x), m2, c, z);
}

} // verus!
