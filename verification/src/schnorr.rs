//! The generic multi-base Schnorr protocol over the first group: commit to
//! one blinding per witness, answer a challenge with
//! `z_i = blinding_i + challenge * witness_i`, and verify
//! `sum_i bases_i * z_i == T + Y * challenge`.

use vstd::prelude::*;

use crate::g1::{g1_add, g1_add_of, g1_msm, g1_msm_of, g1_mul, g1_mul_of, g1_reprs, G1El};
use crate::scalar::{fr_add, fr_mul, scalar_reprs, Scalar};

verus! {

/// The response vector: `z_i = blinding_i + challenge * witness_i`.
pub open spec fn spec_responses(
    blindings: Seq<Scalar>,
    challenge: Seq<u8>,
    witnesses: Seq<Scalar>,
) -> Seq<Seq<u8>> {
    Seq::new(
        witnesses.len(),
        |i: int| crate::dlog::spec_schnorr_response(blindings[i]@, challenge, witnesses[i]@),
    )
}

/// Whether the Schnorr verification equation accepts:
/// `sum_i bases_i * z_i == T + Y * challenge`.
pub open spec fn spec_schnorr_verifies(
    bases: Seq<Seq<u8>>,
    y: Seq<u8>,
    t: Seq<u8>,
    challenge: Seq<u8>,
    responses: Seq<Seq<u8>>,
) -> bool {
    g1_msm_of(bases, responses) == g1_add_of(t, g1_mul_of(y, challenge))
}

/// Prover state of one multi-base Schnorr instance: the commitment `T` and
/// the blindings it was built from.
#[derive(Clone, Debug)]
pub struct SchnorrCommitment {
    pub t: G1El,
    pub blindings: Vec<Scalar>,
}

impl SchnorrCommitment {
    /// Commits to the given blindings: `T = sum_i bases_i * blinding_i`.
    pub fn init(bases: &Vec<G1El>, blindings: Vec<Scalar>) -> (r: Self)
        requires
            bases@.len() == blindings@.len(),
        ensures
            r.t@ == g1_msm_of(g1_reprs(bases@), scalar_reprs(blindings@)),
            r.blindings == blindings,
    {
        let t = g1_msm(bases, &blindings);
        SchnorrCommitment { t, blindings }
    }

    /// Answers the challenge: `z_i = blinding_i + challenge * witness_i`.
    pub fn responses(&self, witnesses: &Vec<Scalar>, challenge: &Scalar) -> (r: Vec<Scalar>)
        requires
            witnesses@.len() == self.blindings@.len(),
        ensures
            r@.len() == witnesses@.len(),
            scalar_reprs(r@) == spec_responses(self.blindings@, challenge@, witnesses@),
    {
        let n = witnesses.len();
        let mut out: Vec<Scalar> = Vec::new();
        let mut i: usize = 0;
        while i < n
            invariant
                i <= n,
                n == witnesses@.len() == self.blindings@.len(),
                out@.len() == i,
                forall|k: int|
                    0 <= k < i ==> (#[trigger] out@[k])@ == crate::dlog::spec_schnorr_response(
                        self.blindings@[k]@,
                        challenge@,
                        witnesses@[k]@,
                    ),
            decreases n - i,
        {
            out.push(fr_add(&self.blindings[i], &fr_mul(challenge, &witnesses[i])));
            i += 1;
        }
        assert(scalar_reprs(out@) =~= spec_responses(self.blindings@, challenge@, witnesses@));
        out
    }
}

/// Checks `sum_i bases_i * z_i == T + Y * challenge`.
pub fn schnorr_verify(
    bases: &Vec<G1El>,
    y: &G1El,
    t: &G1El,
    challenge: &Scalar,
    responses: &Vec<Scalar>,
) -> (r: bool)
    requires
        bases@.len() == responses@.len(),
    ensures
        r == spec_schnorr_verifies(g1_reprs(bases@), y@, t@, challenge@, scalar_reprs(responses@)),
{
    let lhs = g1_msm(bases, responses);
    let rhs = g1_add(t, &g1_mul(y, challenge));
    lhs == rhs
}

} // verus!
