//! Schnorr proof of knowledge of a discrete log in the second group, used to
//! prove knowledge of the secret key behind a public key `w = g2 * x`.

use vstd::prelude::*;

use crate::g2::{g2_add, g2_add_of, g2_append, g2_mul, g2_mul_of, G2El};
use crate::scalar::{fr_add, fr_mul, Scalar};

verus! {

/// The response of a Schnorr proof: `blinding + challenge * witness`.
pub open spec fn spec_schnorr_response(blinding: Seq<u8>, challenge: Seq<u8>, witness: Seq<u8>) -> Seq<u8> {
    crate::scalar::fr_add_of(blinding, crate::scalar::fr_mul_of(challenge, witness))
}

/// The challenge contribution of the discrete-log protocol: the encodings of
/// the base, the claimed image and the commitment, in that order.
pub open spec fn spec_dlog_contrib(base: Seq<u8>, y: Seq<u8>, t: Seq<u8>) -> Seq<u8> {
    base + y + t
}

/// Prover state of the discrete-log proof of knowledge.
#[derive(Clone, Copy, Debug)]
pub struct PoKSecretKeyInPublicKeyG2 {
    pub t: G2El,
    pub blinding: Scalar,
    pub witness: Scalar,
}

/// The finished discrete-log proof.
#[derive(Clone, Copy, Debug)]
pub struct PoKSecretKeyInPublicKeyG2Proof {
    pub t: G2El,
    pub response: Scalar,
}

impl PartialEq for PoKSecretKeyInPublicKeyG2Proof {
    fn eq(&self, other: &PoKSecretKeyInPublicKeyG2Proof) -> (r: bool) {
        self.t == other.t && self.response == other.response
    }
}

impl Eq for PoKSecretKeyInPublicKeyG2Proof {}

impl vstd::std_specs::cmp::PartialEqSpecImpl for PoKSecretKeyInPublicKeyG2Proof {
    open spec fn obeys_eq_spec() -> bool {
        true
    }

    open spec fn eq_spec(&self, other: &PoKSecretKeyInPublicKeyG2Proof) -> bool {
        self.t@ == other.t@ && self.response@ == other.response@
    }
}

impl PoKSecretKeyInPublicKeyG2 {
    /// Commits to the blinding: `T = base * blinding`.
    pub fn init(witness: Scalar, blinding: Scalar, base: &G2El) -> (r: Self)
        ensures
            r.t@ == g2_mul_of(base@, blinding@),
            r.witness == witness,
            r.blinding == blinding,
    {
        let t = g2_mul(base, &blinding);
        PoKSecretKeyInPublicKeyG2 { t, blinding, witness }
    }

    /// Appends the protocol's challenge contribution to `writer`.
    pub fn challenge_contribution(&self, base: &G2El, y: &G2El, writer: &mut Vec<u8>)
        ensures
            final(writer)@ == old(writer)@ + spec_dlog_contrib(base@, y@, self.t@),
    {
        g2_append(writer, base);
        g2_append(writer, y);
        g2_append(writer, &self.t);
    }

    /// Computes the response `z = blinding + challenge * witness`.
    pub fn gen_proof(self, challenge: &Scalar) -> (r: PoKSecretKeyInPublicKeyG2Proof)
        ensures
            r.t@ == self.t@,
            r.response@ == spec_schnorr_response(self.blinding@, challenge@, self.witness@),
    {
        let response = fr_add(&self.blinding, &fr_mul(challenge, &self.witness));
        PoKSecretKeyInPublicKeyG2Proof { t: self.t, response }
    }
}

impl PoKSecretKeyInPublicKeyG2Proof {
    /// Appends the proof's challenge contribution to `writer`; the same bytes
    /// the prover's state contributes.
    pub fn challenge_contribution(&self, base: &G2El, y: &G2El, writer: &mut Vec<u8>)
        ensures
            final(writer)@ == old(writer)@ + spec_dlog_contrib(base@, y@, self.t@),
    {
        g2_append(writer, base);
        g2_append(writer, y);
        g2_append(writer, &self.t);
    }

    /// Holds iff the verification equation accepts:
    /// `base * z == T + y * challenge`.
    pub open spec fn spec_verifies(self, y: Seq<u8>, base: Seq<u8>, challenge: Seq<u8>) -> bool {
        g2_mul_of(base, self.response@) == g2_add_of(self.t@, g2_mul_of(y, challenge))
    }

    /// Checks `base * z == T + y * challenge`.
    pub fn verify(&self, y: &G2El, base: &G2El, challenge: &Scalar) -> (r: bool)
        ensures
            r == self.spec_verifies(y@, base@, challenge@),
    {
        let lhs = g2_mul(base, &self.response);
        let rhs = g2_add(&self.t, &g2_mul(y, challenge));
        lhs == rhs
    }
}

} // verus!
