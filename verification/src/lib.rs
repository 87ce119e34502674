//! Schnorr signatures over the BN254 G1 group with Poseidon challenges, and
//! the commitment half of concealed signatures.
#![allow(non_snake_case)]

pub mod limbs;
pub mod field;
pub mod group;
pub mod utils;
pub mod schnorr;
pub mod circuit;
pub mod concealed;

pub use field::{BaseField, Scalar};
pub use group::G1Point;
pub use schnorr::{Schnorr, SecretKey, PublicKey, Signature};
pub use concealed::{Commitment, cs_decommit};
