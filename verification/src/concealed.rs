//! Concealed signatures: a Poseidon commitment to a Schnorr challenge, and its
//! opening against the signature.
use vstd::prelude::*;
use vstd::arithmetic::div_mod::lemma_small_mod;
use crate::circuit::ConcealedSignatureCircuit;
use crate::field::{Scalar, fr_modulus, random_scalar, base_to_scalar};
use crate::group::{G1Point, G1View, g1_mul, g1_sub, g1_mul_spec, g1_sub_spec, g1_generator_spec, generates_prime_order_group};
use crate::schnorr::{PublicKey, Signature, challenge, recovered_commitment, schnorr_accepts, sign_spec, lemma_signature_verifies};
use crate::utils::{get_poseidon_config, poseidon_hash, poseidon_hash2, poseidon_squeeze, schnorr_poseidon_config};

verus! {

/// A commitment to a signature's challenge.
pub struct Commitment {
    pub com: Scalar,
}

/// The commitment to challenge `c` with blinding `t`: the Poseidon hash of `c`
/// and `t`.
pub open spec fn commitment_of(c: nat, t: nat) -> nat {
    poseidon_squeeze(schnorr_poseidon_config(), seq![c, t])
}

/// `com` opens to the signature `(c, z)` on `m` under `pk` with blinding `t`:
/// the challenge recomputed with the generator as base, committed with `t`,
/// is `com`.
pub open spec fn decommit_accepts(m: nat, c: nat, z: nat, t: nat, com: nat, pk: G1View) -> bool {
    com == commitment_of(challenge(m, recovered_commitment(g1_generator_spec(), pk, c, z)), t)
}

/// The commitment to a signature's challenge with blinding `t`.
pub fn commit_with(sig: &Signature, t: Scalar) -> (res: Commitment)
    ensures
        res.com@ == commitment_of(sig.c@, t@),
        res.com@ == poseidon_squeeze(schnorr_poseidon_config(), seq![sig.c@, t@]),
{
    let config = get_poseidon_config();
    let com = poseidon_hash2(sig.c, t, &config);
    Commitment { com }
}

/// Commits to a signature's challenge with a fresh random blinding, which it
/// returns beside the commitment.
fn commit(m: Scalar, sig: &Signature) -> (res: (Commitment, Scalar))
    ensures
        res.0.com@ == commitment_of(sig.c@, res.1@),
{
    let t = random_scalar();
    (commit_with(sig, t), t)
}

/// What a concealed signature is made of: a fresh commitment to the
/// signature's challenge, its blinding, and the circuit assignment with the
/// commitment and the public key's coordinates as public values and the
/// message, blinding, challenge and response as witnesses.
pub fn concealment_witness(sig: &Signature, m: Scalar, pk: &PublicKey) -> (res: (
    Commitment,
    Scalar,
    ConcealedSignatureCircuit,
))
    ensures
        res.0.com@ == commitment_of(sig.c@, res.1@),
        res.0.com@ == poseidon_squeeze(schnorr_poseidon_config(), seq![sig.c@, res.1@]),
        res.2.commitment == Some(res.0.com),
        res.2.pkx == Some(pk.pk.x),
        res.2.pky == Some(pk.pk.y),
        res.2.m == Some(m),
        res.2.t == Some(res.1),
        res.2.c == Some(sig.c),
        res.2.z == Some(sig.z),
{
    let (C, t) = commit(m, sig);
    let circuit = ConcealedSignatureCircuit {
        commitment: Some(C.com),
        pkx: Some(pk.pk.x),
        pky: Some(pk.pk.y),
        m: Some(m),
        t: Some(t),
        c: Some(sig.c),
        z: Some(sig.z),
    };
    (C, t, circuit)
}

/// Opens a commitment: recomputes the signature's challenge from `m`, the
/// response and the public key with the generator as base, commits to it with
/// `t`, and compares with `C`.
pub fn cs_decommit(m: Scalar, sig: &Signature, t: Scalar, C: &Commitment, pk: &PublicKey) -> (res:
    bool)
    ensures
        res == decommit_accepts(m@, sig.c@, sig.z@, t@, C.com@, pk.pk@),
        res == (C.com@ == poseidon_squeeze(
            schnorr_poseidon_config(),
            seq![
                poseidon_squeeze(
                    schnorr_poseidon_config(),
                    seq![
                        m@,
                        g1_sub_spec(g1_mul_spec((1nat, 2nat, false), sig.z@), g1_mul_spec(pk.pk@, sig.c@)).0
                            % fr_modulus(),
                        g1_sub_spec(g1_mul_spec((1nat, 2nat, false), sig.z@), g1_mul_spec(pk.pk@, sig.c@)).1
                            % fr_modulus(),
                    ],
                ) % fr_modulus(),
                t@,
            ],
        )),
{
    let g = G1Point::generator();
    let config = get_poseidon_config();
    let zg = g1_mul(&g, &sig.z);
    let cpk = g1_mul(&pk.pk, &sig.c);
    let R = g1_sub(&zg, &cpk);
    let Rx = base_to_scalar(&R.x);
    let Ry = base_to_scalar(&R.y);
    let cp = poseidon_hash(m, Rx, Ry, &config);
    proof {
        use_type_invariant(&cp);
        lemma_small_mod(cp@, crate::field::fr_modulus());
    }
    let comp = poseidon_hash2(cp, t, &config);
    C.com.equals(&comp)
}

/// A commitment to the challenge of a signature that verifies under the
/// generator opens with its blinding.
pub proof fn lemma_decommit_opens(m: nat, c: nat, z: nat, t: nat, pk: G1View)
    requires
        schnorr_accepts(g1_generator_spec(), pk, m, c, z),
    ensures
        decommit_accepts(m, c, z, t, commitment_of(c, t), pk),
{
}

/// A commitment to the challenge of a signature made with secret `x` and the
/// generator as base opens under the public key `x · g` with its blinding.
pub proof fn lemma_signed_commitment_opens(x: nat, r: nat, m: nat, t: nat)
    requires
        generates_prime_order_group(g1_generator_spec()),
        x < crate::field::fr_modulus(),
        r < crate::field::fr_modulus(),
    ensures
        ({
            let g = g1_generator_spec();
            let (c, z) = sign_spec(g, m, x, r);
            decommit_accepts(m, c, z, t, commitment_of(c, t), g1_mul_spec(g, x))
        }),
{
    let g = g1_generator_spec();
    lemma_signature_verifies(g, x, r, m);
}

/// What opening decides, for every message, signature, blinding, commitment
/// and key: it accepts exactly when the commitment is the Poseidon hash of the
/// challenge recomputed from `m` and `z · G - c · pk` (G the generator (1, 2))
/// and of the whole blinding `t`.
pub proof fn lemma_decommit_decides(m: nat, c: nat, z: nat, t: nat, com: nat, pk: G1View)
    ensures
        decommit_accepts(m, c, z, t, com, pk) <==> com == poseidon_squeeze(
            schnorr_poseidon_config(),
            seq![
                poseidon_squeeze(
                    schnorr_poseidon_config(),
                    seq![
                        m,
                        g1_sub_spec(g1_mul_spec((1nat, 2nat, false), z), g1_mul_spec(pk, c)).0
                            % fr_modulus(),
                        g1_sub_spec(g1_mul_spec((1nat, 2nat, false), z), g1_mul_spec(pk, c)).1
                            % fr_modulus(),
                    ],
                ) % fr_modulus(),
                t,
            ],
        ),
{
}

/// A commitment that opens for a signature valid under the generator is the
/// Poseidon hash of that signature's challenge and the whole blinding `t`.
pub proof fn lemma_opening_fixes_commitment(m: nat, c: nat, z: nat, t: nat, com: nat, pk: G1View)
    requires
        schnorr_accepts(g1_generator_spec(), pk, m, c, z),
        decommit_accepts(m, c, z, t, com, pk),
    ensures
        com == poseidon_squeeze(schnorr_poseidon_config(), seq![c, t]),
{
}

/// An honest commitment `Poseidon(c, t)` opens only when the challenge that
/// opening recomputes from `m`, `z` and `pk` hashes with `t` to the same value
/// as `c` does: a signature that does not verify under `pk` is refused unless
/// the hash collides.
pub proof fn lemma_decommit_needs_valid_signature(m: nat, c: nat, z: nat, t: nat, pk: G1View)
    requires
        decommit_accepts(
            m,
            c,
            z,
            t,
            poseidon_squeeze(schnorr_poseidon_config(), seq![c, t]),
            pk,
        ),
    ensures
        poseidon_squeeze(
            schnorr_poseidon_config(),
            seq![
                poseidon_squeeze(
                    schnorr_poseidon_config(),
                    seq![
                        m,
                        g1_sub_spec(g1_mul_spec((1nat, 2nat, false), z), g1_mul_spec(pk, c)).0
                            % fr_modulus(),
                        g1_sub_spec(g1_mul_spec((1nat, 2nat, false), z), g1_mul_spec(pk, c)).1
                            % fr_modulus(),
                    ],
                ) % fr_modulus(),
                t,
            ],
        ) == poseidon_squeeze(schnorr_poseidon_config(), seq![c, t]),
{
    lemma_decommit_decides(m, c, z, t, poseidon_squeeze(schnorr_poseidon_config(), seq![c, t]), pk);
}

} // verus!
