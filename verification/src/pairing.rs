//! The bilinear pairing, reduced to the one comparison the protocols need:
//! whether two pairings of encoded points agree.

use vstd::prelude::*;

use crate::g1::G1El;
use crate::g2::G2El;
use ark_bls12_381::{Bls12_381, G1Affine, G2Affine};
use ark_ec::pairing::Pairing;
use ark_serialize::CanonicalDeserialize;

verus! {

/// Whether `e(a, b) == e(c, d)` for the points encoded by the four byte
/// strings, with `e` the bilinear pairing.
pub uninterp spec fn pairing_eq_of(a: Seq<u8>, b: Seq<u8>, c: Seq<u8>, d: Seq<u8>) -> bool;

/// Relies on `ark_ec::pairing::Pairing::pairing`, applied to both pairs, and
/// on equality of the pairing outputs.
#[verifier::external_body]
pub fn pairing_eq(a: &G1El, b: &G2El, c: &G1El, d: &G2El) -> (r: bool)
    ensures
        r == pairing_eq_of(a@, b@, c@, d@),
{
    let pa = G1Affine::deserialize_compressed(&crate::g1::g1_bytes(a)[..]).unwrap();
    let pb = G2Affine::deserialize_compressed(&crate::g2::g2_bytes(b)[..]).unwrap();
    let pc = G1Affine::deserialize_compressed(&crate::g1::g1_bytes(c)[..]).unwrap();
    let pd = G2Affine::deserialize_compressed(&crate::g2::g2_bytes(d)[..]).unwrap();
    Bls12_381::pairing(pa, pb) == Bls12_381::pairing(pc, pd)
}

} // verus!
