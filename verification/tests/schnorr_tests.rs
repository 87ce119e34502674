use ark_bn254::{Fr, G1Affine, G1Projective};
use ark_crypto_primitives::sponge::poseidon::PoseidonSponge;
use ark_crypto_primitives::sponge::CryptographicSponge;
use ark_ec::{CurveGroup, PrimeGroup};
use ark_ff::{BigInt, BigInteger, PrimeField};
use concealed_schnorr::concealed::{commit_with, concealment_witness};
use concealed_schnorr::utils::{get_poseidon_config, poseidon_hash, poseidon_hash2};
use concealed_schnorr::{cs_decommit, BaseField, G1Point, Scalar, Schnorr, Signature};

fn to_fr(s: &Scalar) -> Fr {
    Fr::from_bigint(BigInt::new(s.to_limbs())).unwrap()
}

fn from_fr(f: Fr) -> Scalar {
    Scalar::from_limbs(f.into_bigint().0).unwrap()
}

fn ark_config() -> ark_crypto_primitives::sponge::poseidon::PoseidonConfig<Fr> {
    let c = get_poseidon_config();
    let conv = |rows: &Vec<Vec<Scalar>>| -> Vec<Vec<Fr>> {
        rows.iter().map(|r| r.iter().map(to_fr).collect()).collect()
    };
    ark_crypto_primitives::sponge::poseidon::PoseidonConfig::<Fr> {
        full_rounds: c.full_rounds,
        partial_rounds: c.partial_rounds,
        alpha: c.alpha,
        ark: conv(&c.ark),
        mds: conv(&c.mds),
        rate: c.rate,
        capacity: c.capacity,
    }
}

fn ark_hash(inputs: &[Fr]) -> Fr {
    let mut sponge = PoseidonSponge::new(&ark_config());
    for x in inputs {
        sponge.absorb(x);
    }
    sponge.squeeze_field_elements::<Fr>(1)[0]
}

fn coordinate_to_fr(x: ark_bn254::Fq) -> Fr {
    Fr::from_le_bytes_mod_order(&x.into_bigint().to_bytes_le())
}

#[test]
fn test_generator_is_one_two() {
    let g = G1Point::generator();
    assert_eq!(g.x.to_limbs(), [1, 0, 0, 0]);
    assert_eq!(g.y.to_limbs(), [2, 0, 0, 0]);
    assert!(!g.infinity);
    let a = G1Projective::generator().into_affine();
    assert_eq!(a.x.into_bigint().0, g.x.to_limbs());
}

#[test]
fn test_scalar_from_limbs_bounds() {
    let r = [0x43e1f593f0000001u64, 0x2833e84879b97091, 0xb85045b68181585d, 0x30644e72e131a029];
    assert!(Scalar::from_limbs(r).is_none());
    let mut below = r;
    below[0] -= 1;
    assert!(Scalar::from_limbs(below).is_some());
    assert!(Scalar::from_limbs([u64::MAX; 4]).is_none());
    assert_eq!(Scalar::from_u64(911).to_limbs(), [911, 0, 0, 0]);
}

#[test]
fn test_base_field_from_limbs_bounds() {
    let q = [0x3c208c16d87cfd47u64, 0x97816a916871ca8d, 0xb85045b68181585d, 0x30644e72e131a029];
    assert!(BaseField::from_limbs(q).is_none());
    let mut below = q;
    below[0] -= 1;
    assert!(BaseField::from_limbs(below).is_some());
    // q is above r: a base field element may exceed the scalar modulus.
    let r = [0x43e1f593f0000001u64, 0x2833e84879b97091, 0xb85045b68181585d, 0x30644e72e131a029];
    assert!(BaseField::from_limbs(r).is_some());
}

#[test]
fn test_scalar_equality() {
    let a = Scalar::from_u64(5);
    let b = Scalar::from_u64(5);
    let c = Scalar::from_u64(6);
    assert!(a.equals(&b));
    assert!(!a.equals(&c));
}

#[test]
fn test_poseidon_config_shape() {
    let c = get_poseidon_config();
    assert_eq!(c.full_rounds, 8);
    assert_eq!(c.partial_rounds, 57);
    assert_eq!(c.alpha, 5);
    assert_eq!(c.rate, 2);
    assert_eq!(c.capacity, 1);
    assert_eq!(c.ark.len(), 65);
    assert!(c.ark.iter().all(|row| row.len() == 3));
    assert_eq!(c.mds.len(), 3);
    assert!(c.mds.iter().all(|row| row.len() == 3));
    let params = light_poseidon::parameters::bn254_x5::get_poseidon_parameters::<Fr>(3).unwrap();
    assert_eq!(to_fr(&c.ark[1][2]), params.ark[5]);
    assert_eq!(to_fr(&c.ark[64][0]), params.ark[192]);
    let flat: Vec<Fr> = c.ark.iter().flat_map(|row| row.iter().map(to_fr)).collect();
    assert_eq!(flat, params.ark);
    let mds: Vec<Vec<Fr>> = c.mds.iter().map(|row| row.iter().map(to_fr).collect()).collect();
    assert_eq!(mds, params.mds);
}

#[test]
fn test_poseidon_hash_matches_sponge() {
    let config = get_poseidon_config();
    let (a, b, c) = (Scalar::from_u64(1), Scalar::from_u64(2), Scalar::from_u64(3));
    let h = poseidon_hash(a, b, c, &config);
    assert_eq!(to_fr(&h), ark_hash(&[Fr::from(1u64), Fr::from(2u64), Fr::from(3u64)]));
    let h2 = poseidon_hash2(a, b, &config);
    assert_eq!(to_fr(&h2), ark_hash(&[Fr::from(1u64), Fr::from(2u64)]));
    assert!(!h2.equals(&a));
    assert!(!h.equals(&h2));
    let swapped = poseidon_hash2(b, a, &config);
    assert!(!swapped.equals(&h2));
}

#[test]
fn test_keygen_from_secret_multiplies_generator() {
    let g = G1Point::generator();
    let (_, pk) = Schnorr::keygen_from_secret(g, Scalar::from_u64(7));
    let expected = (G1Projective::generator() * Fr::from(7u64)).into_affine();
    assert_eq!(pk.pk.x.to_limbs(), expected.x.into_bigint().0);
    assert_eq!(pk.pk.y.to_limbs(), expected.y.into_bigint().0);
    assert!(!pk.pk.infinity);
}

#[test]
fn test_sign_with_nonce_matches_formula() {
    let g = G1Point::generator();
    let x = Fr::from(123456789u64);
    let r = Fr::from(987654321u64);
    let m = Fr::from(911u64);
    let (sk, _) = Schnorr::keygen_from_secret(g, from_fr(x));
    let sig = Schnorr::sign_with_nonce(g, from_fr(m), &sk, from_fr(r));
    let big_r: G1Affine = (G1Projective::generator() * r).into_affine();
    let c = ark_hash(&[m, coordinate_to_fr(big_r.x), coordinate_to_fr(big_r.y)]);
    let z = r + c * x;
    assert_eq!(to_fr(&sig.c), c);
    assert_eq!(to_fr(&sig.z), z);
}

#[test]
fn test_sign_with_nonce_zero_secret() {
    let g = G1Point::generator();
    let (sk, _) = Schnorr::keygen_from_secret(g, Scalar::from_u64(0));
    let sig = Schnorr::sign_with_nonce(g, Scalar::from_u64(3), &sk, Scalar::from_u64(42));
    assert!(sig.z.equals(&Scalar::from_u64(42)));
}

#[test]
fn test_sign_then_verify() {
    let g = G1Point::generator();
    let m = Scalar::from_u64(911);
    let (sk, pk) = Schnorr::keyGen(g);
    let sig = Schnorr::Sign(g, m, &sk);
    assert!(Schnorr::verify(g, &pk, &sig, m));
}

#[test]
fn test_sign_with_nonce_then_verify() {
    let g = G1Point::generator();
    let m = Scalar::from_u64(55);
    let (sk, pk) = Schnorr::keygen_from_secret(g, Scalar::from_u64(31337));
    let sig = Schnorr::sign_with_nonce(g, m, &sk, Scalar::from_u64(4242));
    assert!(Schnorr::verify(g, &pk, &sig, m));
}

#[test]
fn test_verify_rejects_other_message() {
    let g = G1Point::generator();
    let (sk, pk) = Schnorr::keyGen(g);
    let sig = Schnorr::Sign(g, Scalar::from_u64(911), &sk);
    assert!(!Schnorr::verify(g, &pk, &sig, Scalar::from_u64(912)));
}

#[test]
fn test_verify_rejects_tampered_response() {
    let g = G1Point::generator();
    let m = Scalar::from_u64(911);
    let (sk, pk) = Schnorr::keyGen(g);
    let sig = Schnorr::Sign(g, m, &sk);
    let bad = Signature { c: sig.c, z: from_fr(to_fr(&sig.z) + Fr::from(1u64)) };
    assert!(!Schnorr::verify(g, &pk, &bad, m));
}

#[test]
fn test_verify_rejects_other_key() {
    let g = G1Point::generator();
    let m = Scalar::from_u64(911);
    let (sk, _) = Schnorr::keyGen(g);
    let (_, other) = Schnorr::keyGen(g);
    let sig = Schnorr::Sign(g, m, &sk);
    assert!(!Schnorr::verify(g, &other, &sig, m));
}

#[test]
fn test_commit_with_is_hash_of_challenge() {
    let g = G1Point::generator();
    let (sk, _) = Schnorr::keygen_from_secret(g, Scalar::from_u64(9));
    let sig = Schnorr::sign_with_nonce(g, Scalar::from_u64(1), &sk, Scalar::from_u64(2));
    let t = Scalar::from_u64(77);
    let c = commit_with(&sig, t);
    assert_eq!(to_fr(&c.com), ark_hash(&[to_fr(&sig.c), Fr::from(77u64)]));
}

#[test]
fn test_decommit_opens() {
    let g = G1Point::generator();
    let m = Scalar::from_u64(911);
    let (sk, pk) = Schnorr::keyGen(g);
    let sig = Schnorr::Sign(g, m, &sk);
    let t = Scalar::from_u64(1234);
    let c = commit_with(&sig, t);
    assert!(cs_decommit(m, &sig, t, &c, &pk));
}

#[test]
fn test_decommit_rejects_wrong_blinding() {
    let g = G1Point::generator();
    let m = Scalar::from_u64(911);
    let (sk, pk) = Schnorr::keyGen(g);
    let sig = Schnorr::Sign(g, m, &sk);
    let c = commit_with(&sig, Scalar::from_u64(1234));
    assert!(!cs_decommit(m, &sig, Scalar::from_u64(1235), &c, &pk));
    assert!(!cs_decommit(Scalar::from_u64(912), &sig, Scalar::from_u64(1234), &c, &pk));
}

#[test]
fn test_concealment_witness_assignment() {
    let g = G1Point::generator();
    let m = Scalar::from_u64(55);
    let (sk, pk) = Schnorr::keyGen(g);
    let sig = Schnorr::Sign(g, m, &sk);
    let (c, t, circuit) = concealment_witness(&sig, m, &pk);
    assert!(circuit.commitment.unwrap().equals(&c.com));
    assert!(circuit.t.unwrap().equals(&t));
    assert!(circuit.c.unwrap().equals(&sig.c));
    assert!(circuit.z.unwrap().equals(&sig.z));
    assert!(circuit.m.unwrap().equals(&m));
    assert!(circuit.pkx.unwrap().equals(&pk.pk.x));
    assert!(circuit.pky.unwrap().equals(&pk.pk.y));
    assert!(cs_decommit(m, &sig, t, &c, &pk));
}

#[test]
fn test_sign_then_verify_on_multiple_base() {
    let (_, two_g) = Schnorr::keygen_from_secret(G1Point::generator(), Scalar::from_u64(2));
    let g = two_g.pk;
    let m = Scalar::from_u64(911);
    let (sk, pk) = Schnorr::keyGen(g);
    let sig = Schnorr::Sign(g, m, &sk);
    assert!(Schnorr::verify(g, &pk, &sig, m));
    let sig2 = Schnorr::sign_with_nonce(g, m, &sk, Scalar::from_u64(5));
    assert!(Schnorr::verify(g, &pk, &sig2, m));
}

#[test]
fn test_is_on_curve() {
    assert!(G1Point::generator().is_on_curve());
    let off = G1Point { x: BaseField::from_u64(1), y: BaseField::from_u64(3), infinity: false };
    assert!(!off.is_on_curve());
    let inf = G1Point { x: BaseField::from_u64(0), y: BaseField::from_u64(0), infinity: true };
    assert!(inf.is_on_curve());
}

#[test]
fn test_sign_then_verify_on_curve_point_from_coordinates() {
    let p = (G1Projective::generator() * Fr::from(123u64)).into_affine();
    let g = G1Point {
        x: BaseField::from_limbs(p.x.into_bigint().0).unwrap(),
        y: BaseField::from_limbs(p.y.into_bigint().0).unwrap(),
        infinity: false,
    };
    assert!(g.is_on_curve());
    let m = Scalar::from_u64(42);
    let (sk, pk) = Schnorr::keyGen(g);
    let sig = Schnorr::Sign(g, m, &sk);
    assert!(Schnorr::verify(g, &pk, &sig, m));
}
