# concealed_schnorr

Schnorr signatures over the BN254 G1 group with Poseidon challenges, and
concealed signatures: a Poseidon commitment to a signature's challenge and a
Groth16 proof that the commitment hides the challenge of a valid signature.

- `src/` is the verified library (Verus): field elements and points as plain
  limbs, the Poseidon configuration and hash, key generation, signing,
  verification, commitments and their opening, with the correctness laws
  (`schnorr::lemma_signature_verifies`, `concealed::lemma_decommit_opens`,
  `concealed::lemma_signed_commitment_opens`). The arkworks, light-poseidon and
  rand calls sit behind small trusted wrappers whose contracts are documented
  where they stand.
- `app/` is ordinary Rust: the R1CS circuit, the Groth16 setup, proving and
  verification (`ParamCS`, `ConcealedSignature`).
- `tests/` exercises the library against direct arkworks computations.
