//! BBS+ signatures: a triple `(A, e, s)` with `A = b * 1/(e + x)` where
//! `b = g1 + h_0 * s + sum_i h_i * m_i`, verified through the pairing
//! equation `e(A, w + g2 * e) == e(b, g2)`.

use vstd::prelude::*;

use crate::errors::BBSPlusError;
use crate::g1::{g1_add, g1_add_of, g1_is_id_of, g1_is_identity, g1_mul, g1_mul_of, G1El};
use crate::g2::{g2_add, g2_add_of, g2_mul, g2_mul_of};
use crate::keys::{PublicKeyG2, SecretKey};
use crate::pairing::{pairing_eq, pairing_eq_of};
use crate::params::SignatureParamsG1;
use crate::scalar::{fr_add, fr_add_of, fr_inv_of, fr_inverse, fr_random, fr_zero_bytes, Scalar};
use ark_std::rand::rngs::StdRng;

verus! {

/// A full message vector, paired with its indices `0..L`.
pub open spec fn indexed_msgs(msgs: Seq<Scalar>) -> Seq<(usize, Scalar)> {
    Seq::new(msgs.len(), |i: int| (i as usize, msgs[i]))
}

/// Pairs each message with its index; the indices are distinct by
/// construction.
pub fn build_indexed(messages: &Vec<Scalar>) -> (r: Vec<(usize, Scalar)>)
    ensures
        r@ == indexed_msgs(messages@),
        crate::params::distinct_indices(r@),
{
    let n = messages.len();
    let mut out: Vec<(usize, Scalar)> = Vec::new();
    let mut i: usize = 0;
    while i < n
        invariant
            i <= n,
            n == messages@.len(),
            out@.len() == i,
            forall|k: int| 0 <= k < i ==> #[trigger] out@[k] == (k as usize, messages@[k]),
        decreases n - i,
    {
        out.push((i, messages[i]));
        i += 1;
    }
    assert(out@ =~= indexed_msgs(messages@));
    assert forall|k1: int, k2: int|
        0 <= k1 < k2 < out@.len() implies (#[trigger] out@[k1]).0 != (#[trigger] out@[k2]).0 by {
        assert(out@[k1].0 == k1 as usize && out@[k2].0 == k2 as usize);
    }
    out
}

/// A BBS+ signature.
#[derive(Clone, Copy, Debug)]
pub struct SignatureG1 {
    pub a: G1El,
    pub e: Scalar,
    pub s: Scalar,
}

impl PartialEq for SignatureG1 {
    fn eq(&self, other: &SignatureG1) -> (r: bool) {
        self.a == other.a && self.e == other.e && self.s == other.s
    }
}

impl Eq for SignatureG1 {}

impl vstd::std_specs::cmp::PartialEqSpecImpl for SignatureG1 {
    open spec fn obeys_eq_spec() -> bool {
        true
    }

    open spec fn eq_spec(&self, other: &SignatureG1) -> bool {
        self.a@ == other.a@ && self.e@ == other.e@ && self.s@ == other.s@
    }
}

impl SignatureG1 {
    /// Holds iff the signature was honestly issued on `msgs` under the key
    /// `sk`: `e + x` is non-zero and `A = b * 1/(e + x)`.
    pub open spec fn spec_issued(self, msgs: Seq<Scalar>, sk: SecretKey, params: SignatureParamsG1) -> bool {
        &&& fr_add_of(self.e@, sk.0@) != fr_zero_bytes()
        &&& self.a@ == g1_mul_of(
            params.spec_b(indexed_msgs(msgs), self.s@),
            fr_inv_of(fr_add_of(self.e@, sk.0@)),
        )
    }

    /// Builds the signature for the given randomness `(e, s)`: succeeds
    /// exactly when `e + x` is non-zero, and then `A = b * 1/(e + x)`.
    pub fn new_given_randomness(
        e: &Scalar,
        s: &Scalar,
        messages: &Vec<Scalar>,
        sk: &SecretKey,
        params: &SignatureParamsG1,
    ) -> (r: Option<SignatureG1>)
        requires
            1 <= messages@.len(),
            messages@.len() == params.h@.len(),
        ensures
            r is Some <==> fr_add_of(e@, sk.0@) != fr_zero_bytes(),
            r matches Some(sig) ==> sig.spec_issued(messages@, *sk, *params) && sig.e@ == e@
                && sig.s@ == s@,
    {
        let pairs = build_indexed(messages);
        assert(forall|k: int|
            0 <= k < pairs@.len() ==> (#[trigger] pairs@[k]).0 < params.h@.len());
        let bv = match params.b(&pairs, s) {
            Ok(v) => v,
            Err(_) => {
                proof {
                    assert(false);
                }
                return None;
            },
        };
        let e_plus_x = fr_add(e, &sk.0);
        match fr_inverse(&e_plus_x) {
            Some(inv) => {
                let a = g1_mul(&bv, &inv);
                Some(SignatureG1 { a, e: *e, s: *s })
            },
            None => None,
        }
    }

    /// Signs the full message vector: samples `s` and `e`, resampling `e` in
    /// the negligible case `e + x == 0`. `None` can only come of that event
    /// persisting across every attempt.
    pub fn new(
        rng: &mut StdRng,
        messages: &Vec<Scalar>,
        sk: &SecretKey,
        params: &SignatureParamsG1,
    ) -> (r: Option<SignatureG1>)
        requires
            1 <= messages@.len(),
            messages@.len() == params.h@.len(),
        ensures
            r matches Some(sig) ==> sig.spec_issued(messages@, *sk, *params),
    {
        let s = fr_random(rng);
        let mut attempts: usize = 0;
        while attempts < 128
            invariant
                1 <= messages@.len(),
                messages@.len() == params.h@.len(),
            decreases 128 - attempts,
        {
            let e = fr_random(rng);
            match Self::new_given_randomness(&e, &s, messages, sk, params) {
                Some(sig) => {
                    return Some(sig);
                },
                None => {},
            }
            attempts += 1;
        }
        None
    }

    /// The quantity the signer exponentiates when signing over a holder's
    /// commitment: `g1 + h_0 * s + sum_i h_i * m_i + C` over the
    /// uncommitted messages alone.
    pub open spec fn spec_blind_b(
        params: SignatureParamsG1,
        commitment: Seq<u8>,
        uncommitted: Seq<(usize, Scalar)>,
        s: Seq<u8>,
    ) -> Seq<u8> {
        g1_add_of(params.spec_b(uncommitted, s), commitment)
    }

    /// Holds iff the signature was issued blind over `commitment` and the
    /// uncommitted messages under the key `sk`.
    pub open spec fn spec_blind_issued(
        self,
        commitment: Seq<u8>,
        uncommitted: Seq<(usize, Scalar)>,
        sk: SecretKey,
        params: SignatureParamsG1,
    ) -> bool {
        &&& fr_add_of(self.e@, sk.0@) != fr_zero_bytes()
        &&& self.a@ == g1_mul_of(
            Self::spec_blind_b(params, commitment, uncommitted, self.s@),
            fr_inv_of(fr_add_of(self.e@, sk.0@)),
        )
    }

    /// Signs over a holder's commitment to hidden messages, for the given
    /// randomness `(e, s)`: fails with `InvalidMessageIdx` exactly on an
    /// uncommitted index at or beyond the supported message count, and
    /// returns no signature exactly when `e + x` is zero. The holder turns
    /// the result into a full signature with `unblind`.
    pub fn new_with_committed_messages_given_randomness(
        e: &Scalar,
        s: &Scalar,
        commitment: &G1El,
        uncommitted_messages: &Vec<(usize, Scalar)>,
        sk: &SecretKey,
        params: &SignatureParamsG1,
    ) -> (r: Result<Option<SignatureG1>, BBSPlusError>)
        requires
            crate::params::distinct_indices(uncommitted_messages@),
        ensures
            r is Err <==> (exists|k: int|
                0 <= k < uncommitted_messages@.len() && (#[trigger] uncommitted_messages@[k]).0
                    >= params.h@.len()),
            r matches Err(er) ==> exists|k: int|
                0 <= k < uncommitted_messages@.len() && (#[trigger] uncommitted_messages@[k]).0
                    >= params.h@.len() && er == BBSPlusError::InvalidMessageIdx(
                    uncommitted_messages@[k].0,
                ),
            r matches Ok(o) ==> {
                &&& o is Some <==> fr_add_of(e@, sk.0@) != fr_zero_bytes()
                &&& (o matches Some(sig) ==> sig.spec_blind_issued(
                    commitment@,
                    uncommitted_messages@,
                    *sk,
                    *params,
                ) && sig.e@ == e@ && sig.s@ == s@)
            },
    {
        let bv = match params.b(uncommitted_messages, s) {
            Ok(v) => v,
            Err(err) => {
                return Err(err);
            },
        };
        let blind_b = g1_add(&bv, commitment);
        let e_plus_x = fr_add(e, &sk.0);
        match fr_inverse(&e_plus_x) {
            Some(inv) => {
                let a = g1_mul(&blind_b, &inv);
                Ok(Some(SignatureG1 { a, e: *e, s: *s }))
            },
            None => Ok(None),
        }
    }

    /// Signs over a holder's commitment with fresh randomness, resampling
    /// `e` in the negligible case `e + x == 0`.
    pub fn new_with_committed_messages(
        rng: &mut StdRng,
        commitment: &G1El,
        uncommitted_messages: &Vec<(usize, Scalar)>,
        sk: &SecretKey,
        params: &SignatureParamsG1,
    ) -> (r: Result<Option<SignatureG1>, BBSPlusError>)
        requires
            crate::params::distinct_indices(uncommitted_messages@),
        ensures
            r is Err <==> (exists|k: int|
                0 <= k < uncommitted_messages@.len() && (#[trigger] uncommitted_messages@[k]).0
                    >= params.h@.len()),
            r matches Err(er) ==> exists|k: int|
                0 <= k < uncommitted_messages@.len() && (#[trigger] uncommitted_messages@[k]).0
                    >= params.h@.len() && er == BBSPlusError::InvalidMessageIdx(
                    uncommitted_messages@[k].0,
                ),
            r matches Ok(o) ==> (o matches Some(sig) ==> sig.spec_blind_issued(
                commitment@,
                uncommitted_messages@,
                *sk,
                *params,
            )),
    {
        let s = fr_random(rng);
        let mut attempts: usize = 0;
        while attempts < 128
            invariant
                crate::params::distinct_indices(uncommitted_messages@),
            decreases 128 - attempts,
        {
            let e = fr_random(rng);
            match Self::new_with_committed_messages_given_randomness(
                &e,
                &s,
                commitment,
                uncommitted_messages,
                sk,
                params,
            ) {
                Ok(Some(sig)) => {
                    return Ok(Some(sig));
                },
                Ok(None) => {},
                Err(err) => {
                    return Err(err);
                },
            }
            attempts += 1;
        }
        let e = fr_random(rng);
        match Self::new_with_committed_messages_given_randomness(
            &e,
            &s,
            commitment,
            uncommitted_messages,
            sk,
            params,
        ) {
            Ok(o) => Ok(o),
            Err(err) => Err(err),
        }
    }

    /// Turns a blind signature into a full one by adding the holder's own
    /// blinding to `s`; the other components are unchanged.
    pub fn unblind(self, s_prime: &Scalar) -> (r: SignatureG1)
        ensures
            r.a@ == self.a@,
            r.e@ == self.e@,
            r.s@ == fr_add_of(self.s@, s_prime@),
    {
        SignatureG1 { a: self.a, e: self.e, s: fr_add(&self.s, s_prime) }
    }

    /// Holds iff the pairing equation accepts the signature on `msgs` under
    /// the public key `pk`: `A` is not the identity and
    /// `e(A, w + g2 * e) == e(b, g2)`.
    pub open spec fn spec_verifies(
        self,
        msgs: Seq<Scalar>,
        pk: PublicKeyG2,
        params: SignatureParamsG1,
    ) -> bool {
        &&& !g1_is_id_of(self.a@)
        &&& pairing_eq_of(
            self.a@,
            g2_add_of(pk.0@, g2_mul_of(params.g2@, self.e@)),
            params.spec_b(indexed_msgs(msgs), self.s@),
            params.g2@,
        )
    }

    /// Checks the pairing equation; rejects an identity `A`.
    pub fn verify(
        &self,
        messages: &Vec<Scalar>,
        pk: &PublicKeyG2,
        params: &SignatureParamsG1,
    ) -> (r: Result<(), BBSPlusError>)
        requires
            messages@.len() == params.h@.len(),
        ensures
            r is Ok <==> self.spec_verifies(messages@, *pk, *params),
            r matches Err(e) ==> e == BBSPlusError::SignatureVerificationFailed,
    {
        if g1_is_identity(&self.a) {
            return Err(BBSPlusError::SignatureVerificationFailed);
        }
        let pairs = build_indexed(messages);
        assert(forall|k: int|
            0 <= k < pairs@.len() ==> (#[trigger] pairs@[k]).0 < params.h@.len());
        let bv = match params.b(&pairs, &self.s) {
            Ok(v) => v,
            Err(_) => {
                proof {
                    assert(false);
                }
                return Err(BBSPlusError::SignatureVerificationFailed);
            },
        };
        let rhs_g2 = g2_add(&pk.0, &g2_mul(&params.g2, &self.e));
        if pairing_eq(&self.a, &rhs_g2, &bv, &params.g2) {
            Ok(())
        } else {
            Err(BBSPlusError::SignatureVerificationFailed)
        }
    }
}

} // verus!
