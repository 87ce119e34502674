//! Poseidon parameters and hashing over the BN254 scalar field.
use vstd::prelude::*;
use ark_bn254::Fr;
use ark_crypto_primitives::sponge::poseidon::PoseidonSponge;
use ark_crypto_primitives::sponge::CryptographicSponge;
use ark_ff::{BigInt, PrimeField};
use light_poseidon::PoseidonError;
use crate::field::Scalar;

verus! {

/// The view of a Poseidon sponge configuration: every field element by its value.
pub struct PoseidonConfigSpec {
    pub full_rounds: nat,
    pub partial_rounds: nat,
    pub alpha: nat,
    pub ark: Seq<Seq<nat>>,
    pub mds: Seq<Seq<nat>>,
    pub rate: nat,
    pub capacity: nat,
}

/// A Poseidon sponge configuration: round counts, S-box exponent, round
/// constants (one row per round), MDS matrix, rate and capacity.
pub struct PoseidonConfig {
    pub full_rounds: usize,
    pub partial_rounds: usize,
    pub alpha: u64,
    pub ark: Vec<Vec<Scalar>>,
    pub mds: Vec<Vec<Scalar>>,
    pub rate: usize,
    pub capacity: usize,
}

/// The values of a row of field elements.
pub open spec fn row_values(row: Seq<Scalar>) -> Seq<nat> {
    row.map_values(|s: Scalar| s@)
}

/// The values of a matrix of field elements.
pub open spec fn matrix_values(m: Seq<Vec<Scalar>>) -> Seq<Seq<nat>> {
    m.map_values(|row: Vec<Scalar>| row_values(row@))
}

impl View for PoseidonConfig {
    type V = PoseidonConfigSpec;

    open spec fn view(&self) -> PoseidonConfigSpec {
        PoseidonConfigSpec {
            full_rounds: self.full_rounds as nat,
            partial_rounds: self.partial_rounds as nat,
            alpha: self.alpha as nat,
            ark: matrix_values(self.ark@),
            mds: matrix_values(self.mds@),
            rate: self.rate as nat,
            capacity: self.capacity as nat,
        }
    }
}

/// The view of the Poseidon parameters that the `light_poseidon` crate tabulates.
pub struct PoseidonParametersSpec {
    pub ark: Seq<nat>,
    pub mds: Seq<Seq<nat>>,
    pub full_rounds: nat,
    pub partial_rounds: nat,
    pub width: nat,
    pub alpha: nat,
}

/// Poseidon parameters as `light_poseidon` tabulates them: the round constants
/// in one flat list, `width` of them per round.
pub struct PoseidonParameters {
    pub ark: Vec<Scalar>,
    pub mds: Vec<Vec<Scalar>>,
    pub full_rounds: usize,
    pub partial_rounds: usize,
    pub width: usize,
    pub alpha: u64,
}

impl View for PoseidonParameters {
    type V = PoseidonParametersSpec;

    open spec fn view(&self) -> PoseidonParametersSpec {
        PoseidonParametersSpec {
            ark: row_values(self.ark@),
            mds: matrix_values(self.mds@),
            full_rounds: self.full_rounds as nat,
            partial_rounds: self.partial_rounds as nat,
            width: self.width as nat,
            alpha: self.alpha as nat,
        }
    }
}

#[verifier::external_type_specification]
#[verifier::external_body]
pub struct ExPoseidonError(PoseidonError);

/// The BN254 x^5 parameters of `light_poseidon` for a state of `width` elements.
pub uninterp spec fn bn254_x5_parameters(width: nat) -> PoseidonParametersSpec;

/// `light_poseidon::parameters::bn254_x5::get_poseidon_parameters::<Fr>`.
/// Its source answers every width from 2 to 13 with a table and every other
/// width with an error; the table for width 3 has 8 full and 57 partial
/// rounds, exponent 5, 195 round constants and a 3 x 3 MDS matrix.
#[verifier::external_body]
fn light_poseidon_parameters(width: u8) -> (res: Result<PoseidonParameters, PoseidonError>)
    ensures
        res is Ok <==> 2 <= width <= 13,
        res matches Ok(p) ==> p@ == bn254_x5_parameters(width as nat),
        res matches Ok(p) ==> (width == 3 ==> {
            &&& p.full_rounds == 8
            &&& p.partial_rounds == 57
            &&& p.alpha == 5
            &&& p.width == 3
            &&& p.ark@.len() == 195
            &&& p.mds@.len() == 3
            &&& forall|i: int| 0 <= i < 3 ==> (#[trigger] p.mds@[i])@.len() == 3
        }),
{
    let conv = |f: &Fr| Scalar { limbs: f.into_bigint().0 };
    let p = light_poseidon::parameters::bn254_x5::get_poseidon_parameters::<Fr>(width)?;
    Ok(PoseidonParameters {
        ark: p.ark.iter().map(conv).collect(),
        mds: p.mds.iter().map(|row| row.iter().map(conv).collect()).collect(),
        full_rounds: p.full_rounds,
        partial_rounds: p.partial_rounds,
        width: p.width,
        alpha: p.alpha,
    })
}

/// The rows of `s`, `n` elements to a row, the last row holding what is left.
pub open spec fn chunks(s: Seq<nat>, n: nat) -> Seq<Seq<nat>>
    decreases s.len(),
{
    if s.len() == 0 || n == 0 {
        Seq::empty()
    } else if s.len() <= n {
        seq![s]
    } else {
        seq![s.take(n as int)] + chunks(s.skip(n as int), n)
    }
}

/// The sponge configuration built from `light_poseidon` parameters: the flat
/// round constants cut into rows of three, rate 2 and capacity 1.
pub open spec fn config_from_parameters(p: PoseidonParametersSpec) -> PoseidonConfigSpec {
    PoseidonConfigSpec {
        full_rounds: p.full_rounds,
        partial_rounds: p.partial_rounds,
        alpha: p.alpha,
        ark: chunks(p.ark, 3),
        mds: p.mds,
        rate: 2,
        capacity: 1,
    }
}

/// The configuration that the Schnorr challenge and the commitment hash with.
pub open spec fn schnorr_poseidon_config() -> PoseidonConfigSpec {
    config_from_parameters(bn254_x5_parameters(3))
}

/// A configuration the Poseidon sponge can run with: a positive rate, a round
/// constant row for every round and an MDS matrix, each as wide as the state.
pub open spec fn poseidon_config_well_formed(c: PoseidonConfigSpec) -> bool {
    let width = c.rate + c.capacity;
    let rounds = c.full_rounds + c.partial_rounds;
    &&& c.rate >= 1
    &&& width <= usize::MAX
    &&& rounds <= usize::MAX
    &&& c.ark.len() >= rounds
    &&& forall|i: int| 0 <= i < rounds ==> (#[trigger] c.ark[i]).len() >= width
    &&& c.mds.len() >= width
    &&& forall|i: int| 0 <= i < width ==> (#[trigger] c.mds[i]).len() >= width
}

proof fn lemma_chunks_step(s: Seq<nat>, n: nat, i: int)
    requires
        n > 0,
        0 <= i < s.len(),
    ensures
        s.len() - i <= n ==> chunks(s.skip(i), n) == seq![s.subrange(i, s.len() as int)],
        s.len() - i > n ==> chunks(s.skip(i), n) == seq![s.subrange(i, i + n)] + chunks(
            s.skip(i + n),
            n,
        ),
{
    let t = s.skip(i);
    if s.len() - i <= n {
        assert(t =~= s.subrange(i, s.len() as int));
    } else {
        assert(t.take(n as int) =~= s.subrange(i, i + n));
        assert(t.skip(n as int) =~= s.skip(i + n));
    }
}

/// Cutting `k * n` elements into rows of `n` gives `k` full rows.
proof fn lemma_chunks_exact(s: Seq<nat>, n: nat, k: nat)
    requires
        n > 0,
        s.len() == k * n,
    ensures
        chunks(s, n).len() == k,
        forall|i: int| 0 <= i < k ==> (#[trigger] chunks(s, n)[i]).len() == n,
    decreases k,
{
    if k == 0 {
        assert(k * n == 0) by (nonlinear_arith)
            requires
                k == 0,
        ;
    } else if k == 1 {
        assert(k * n == n) by (nonlinear_arith)
            requires
                k == 1,
        ;
    } else {
        assert(k * n == (k - 1) * n + n) by (nonlinear_arith);
        assert((k - 1) * n >= n) by (nonlinear_arith)
            requires
                k >= 2,
        ;
        lemma_chunks_exact(s.skip(n as int), n, (k - 1) as nat);
        let rest = chunks(s.skip(n as int), n);
        assert(chunks(s, n) == seq![s.take(n as int)] + rest);
        assert forall|i: int| 0 <= i < k implies (#[trigger] chunks(s, n)[i]).len() == n by {
            if i > 0 {
                assert(chunks(s, n)[i] == rest[i - 1]);
            }
        }
    }
}

/// Cutting into rows loses and reorders nothing: the rows, joined again, are
/// the sequence that was cut.
pub proof fn lemma_chunks_flatten(s: Seq<nat>, n: nat)
    requires
        n > 0,
    ensures
        chunks(s, n).flatten() == s,
    decreases s.len(),
{
    if s.len() == 0 {
    } else if s.len() <= n {
        let c = chunks(s, n);
        assert(c.drop_first() =~= Seq::<Seq<nat>>::empty());
        assert(c.drop_first().flatten() == Seq::<nat>::empty());
        assert(c.flatten() == c.first() + c.drop_first().flatten());
        assert(s + Seq::<nat>::empty() =~= s);
    } else {
        let rest = s.skip(n as int);
        lemma_chunks_flatten(rest, n);
        assert(chunks(s, n).drop_first() =~= chunks(rest, n));
        assert(s.take(n as int) + rest =~= s);
    }
}

/// Cuts `flat` into rows of `n` elements, as `flat.chunks(n)` does.
fn chunk_rows(flat: &Vec<Scalar>, n: usize) -> (res: Vec<Vec<Scalar>>)
    requires
        n > 0,
    ensures
        matrix_values(res@) == chunks(row_values(flat@), n as nat),
{
    let ghost s = row_values(flat@);
    let len = flat.len();
    let mut res: Vec<Vec<Scalar>> = Vec::new();
    let mut i: usize = 0;
    assert(s.skip(0) =~= s);
    while i < len
        invariant
            0 <= i <= len,
            len == flat@.len(),
            n > 0,
            s == row_values(flat@),
            matrix_values(res@) + chunks(s.skip(i as int), n as nat) == chunks(s, n as nat),
        decreases len - i,
    {
        let end = if len - i <= n {
            len
        } else {
            i + n
        };
        let mut row: Vec<Scalar> = Vec::new();
        let mut j: usize = i;
        while j < end
            invariant
                i <= j <= end <= len,
                len == flat@.len(),
                s == row_values(flat@),
                row_values(row@) =~= s.subrange(i as int, j as int),
            decreases end - j,
        {
            let ghost before = row@;
            row.push(flat[j]);
            proof {
                assert(row@ == before.push(flat@[j as int]));
                assert(row_values(row@) =~= row_values(before).push(flat@[j as int]@));
                assert(s[j as int] == flat@[j as int]@);
            }
            j = j + 1;
        }
        proof {
            lemma_chunks_step(s, n as nat, i as int);
            let old_rows = matrix_values(res@);
            assert(matrix_values(res@.push(row)) =~= old_rows.push(row_values(row@)));
            if end == len {
                assert(s.skip(len as int) =~= Seq::<nat>::empty());
            }
        }
        res.push(row);
        i = end;
    }
    assert(s.skip(len as int) =~= Seq::<nat>::empty());
    res
}

/// The Poseidon configuration for BN254 with a state of three elements, built
/// from the `light_poseidon` tables: exponent 5, 8 full and 57 partial rounds,
/// the round constants in 65 rows of three, a 3 x 3 MDS matrix, rate 2,
/// capacity 1.
pub fn get_poseidon_config() -> (res: PoseidonConfig)
    ensures
        res@ == schnorr_poseidon_config(),
        poseidon_config_well_formed(res@),
        res.alpha == 5,
        res.full_rounds == 8,
        res.partial_rounds == 57,
        res.rate == 2,
        res.capacity == 1,
        res.ark@.len() == res.full_rounds + res.partial_rounds,
        forall|i: int| 0 <= i < res.ark@.len() ==> (#[trigger] res.ark@[i])@.len() == 3,
        res.mds@.len() == 3,
        forall|i: int| 0 <= i < 3 ==> (#[trigger] res.mds@[i])@.len() == 3,
{
    let params = match light_poseidon_parameters(3) {
        Ok(p) => p,
        Err(_) => vstd::pervasive::unreached(),
    };
    let ark = chunk_rows(&params.ark, 3);
    proof {
        lemma_chunks_exact(row_values(params.ark@), 3, 65);
    }
    let res = PoseidonConfig {
        full_rounds: params.full_rounds,
        partial_rounds: params.partial_rounds,
        alpha: params.alpha,
        ark,
        mds: params.mds,
        rate: 2,
        capacity: 1,
    };
    proof {
        let c = res@;
        assert forall|i: int| 0 <= i < 3 implies (#[trigger] c.mds[i]).len() >= 3 by {
            assert(c.mds[i] == row_values(params.mds@[i]@));
        }
        assert forall|i: int| 0 <= i < res.ark@.len() implies (#[trigger] res.ark@[i])@.len()
            == 3 by {
            assert(c.ark[i] == row_values(res.ark@[i]@));
        }
    }
    res
}

/// A Poseidon sponge over `Fr` (`ark_crypto_primitives`' `PoseidonSponge<Fr>`).
#[verifier::external_body]
pub struct Sponge {
    inner: PoseidonSponge<Fr>,
}

/// The configuration a sponge was made with.
pub uninterp spec fn sponge_config(s: Sponge) -> PoseidonConfigSpec;

/// The field elements absorbed into a sponge since it was made, in order.
pub uninterp spec fn sponge_absorbed(s: Sponge) -> Seq<nat>;

/// The first element that a fresh Poseidon sponge with configuration `config`
/// squeezes out after absorbing `absorbed`.
pub uninterp spec fn poseidon_squeeze(config: PoseidonConfigSpec, absorbed: Seq<nat>) -> nat;

/// `PoseidonSponge::<Fr>::new` with the configuration converted element by
/// element; the sponge starts with nothing absorbed.
#[verifier::external_body]
fn sponge_new(config: &PoseidonConfig) -> (res: Sponge)
    requires
        poseidon_config_well_formed(config@),
    ensures
        sponge_config(res) == config@,
        sponge_absorbed(res) == Seq::<nat>::empty(),
{
    let conv = |row: &Vec<Scalar>| row.iter().map(|s| Fr::new(BigInt(s.limbs))).collect();
    let cfg = ark_crypto_primitives::sponge::poseidon::PoseidonConfig::<Fr> {
        full_rounds: config.full_rounds,
        partial_rounds: config.partial_rounds,
        alpha: config.alpha,
        ark: config.ark.iter().map(conv).collect(),
        mds: config.mds.iter().map(conv).collect(),
        rate: config.rate,
        capacity: config.capacity,
    };
    Sponge { inner: PoseidonSponge::new(&cfg) }
}

/// `CryptographicSponge::absorb` of one `Fr` element, which the sponge takes
/// in as that single field element.
#[verifier::external_body]
fn sponge_absorb(sponge: &mut Sponge, x: &Scalar)
    requires
        poseidon_config_well_formed(sponge_config(*old(sponge))),
    ensures
        sponge_config(*final(sponge)) == sponge_config(*old(sponge)),
        sponge_absorbed(*final(sponge)) == sponge_absorbed(*old(sponge)).push(x@),
{
    sponge.inner.absorb(&Fr::new(BigInt(x.limbs)));
}

/// `squeeze_field_elements::<Fr>(1)`: one element, as the name
/// `poseidon_squeeze` gives it for the sponge's configuration and input.
#[verifier::external_body]
fn sponge_squeeze_one(sponge: Sponge) -> (res: Vec<Scalar>)
    requires
        poseidon_config_well_formed(sponge_config(sponge)),
    ensures
        res@.len() == 1,
        res@[0]@ == poseidon_squeeze(sponge_config(sponge), sponge_absorbed(sponge)),
{
    let mut inner = sponge.inner;
    let out = inner.squeeze_field_elements::<Fr>(1);
    out.iter().map(|f| Scalar { limbs: f.into_bigint().0 }).collect()
}

/// The Poseidon hash of `m`, `Rx` and `Ry`: a fresh sponge absorbs the three
/// elements in that order and one element is squeezed out.
pub fn poseidon_hash(m: Scalar, Rx: Scalar, Ry: Scalar, config: &PoseidonConfig) -> (res: Scalar)
    requires
        poseidon_config_well_formed(config@),
    ensures
        res@ == poseidon_squeeze(config@, seq![m@, Rx@, Ry@]),
{
    let mut sponge = sponge_new(config);
    sponge_absorb(&mut sponge, &m);
    sponge_absorb(&mut sponge, &Rx);
    sponge_absorb(&mut sponge, &Ry);
    proof {
        assert(sponge_absorbed(sponge) =~= seq![m@, Rx@, Ry@]);
    }
    let out = sponge_squeeze_one(sponge);
    out[0]
}

/// The Poseidon hash of `m` and `t`: a fresh sponge absorbs the two elements
/// in that order and one element is squeezed out.
pub fn poseidon_hash2(m: Scalar, t: Scalar, config: &PoseidonConfig) -> (res: Scalar)
    requires
        poseidon_config_well_formed(config@),
    ensures
        res@ == poseidon_squeeze(config@, seq![m@, t@]),
{
    let mut sponge = sponge_new(config);
    sponge_absorb(&mut sponge, &m);
    sponge_absorb(&mut sponge, &t);
    proof {
        assert(sponge_absorbed(sponge) =~= seq![m@, t@]);
    }
    let out = sponge_squeeze_one(sponge);
    out[0]
}

} // verus!
