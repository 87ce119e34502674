//! The assignment of the concealed-signature circuit: the public commitment
//! and public key, and the witnesses message, blinding, challenge and response.
use vstd::prelude::*;
use crate::field::{BaseField, Scalar};

verus! {

/// The values of the concealed-signature circuit. All are absent when the
/// circuit is laid out for key generation; all are present when it is proved.
pub struct ConcealedSignatureCircuit {
    pub commitment: Option<Scalar>,
    pub pkx: Option<BaseField>,
    pub pky: Option<BaseField>,
    pub m: Option<Scalar>,
    pub t: Option<Scalar>,
    pub c: Option<Scalar>,
    pub z: Option<Scalar>,
}

impl ConcealedSignatureCircuit {
    /// The circuit with no values, for the proving and verifying key setup.
    pub fn unassigned() -> (res: ConcealedSignatureCircuit)
        ensures
            res.commitment is None,
            res.pkx is None,
            res.pky is None,
            res.m is None,
            res.t is None,
            res.c is None,
            res.z is None,
    {
        ConcealedSignatureCircuit {
            commitment: None,
            pkx: None,
            pky: None,
            m: None,
            t: None,
            c: None,
            z: None,
        }
    }
}

} // verus!
