//! Proof of knowledge of a BBS+ signature with selective disclosure: the
//! prover randomizes the signature into `(A', Abar, d)` and proves two
//! Schnorr relations, one binding `(e, r2)` and one binding
//! `(r3, s', {m_i : i unrevealed})`, under one challenge. The second
//! relation carries every unrevealed message with coefficient `+1`, so its
//! responses are directly comparable across sub-proofs.

use vstd::prelude::*;

use crate::bytes_util::{append_u64_le, u64_le_bytes};
use crate::errors::BBSPlusError;
use crate::g1::{g1_add, g1_add_of, g1_append, g1_is_id_of, g1_is_identity, g1_msm, g1_msm_of,
    g1_mul, g1_mul_of, g1_neg, g1_neg_of, g1_reprs, G1El};
use crate::g2::g2_append;
use crate::keys::PublicKeyG2;
use crate::pairing::{pairing_eq, pairing_eq_of};
use crate::params::SignatureParamsG1;
use crate::schnorr::{schnorr_verify, spec_responses, spec_schnorr_verifies, SchnorrCommitment};
use crate::scalar::{fr_add, fr_add_of, fr_inv_of, fr_inverse, fr_mul, fr_mul_of, fr_neg,
    fr_neg_of, fr_random, fr_zero_bytes, scalar_append, scalar_reprs, Scalar};
use crate::sig::{build_indexed, indexed_msgs, SignatureG1};
use ark_std::rand::rngs::StdRng;

verus! {

/// The message indices of `0..l` not contained in `revealed`, in ascending
/// order.
pub open spec fn unrevealed(l: int, revealed: Seq<usize>) -> Seq<usize>
    decreases l,
{
    if l <= 0 {
        Seq::empty()
    } else {
        unrevealed(l - 1, revealed) + if revealed.contains((l - 1) as usize) {
            Seq::<usize>::empty()
        } else {
            seq![(l - 1) as usize]
        }
    }
}

/// Every entry of `unrevealed(l, revealed)` is below `l` and absent from
/// `revealed`.
pub proof fn lemma_unrevealed_entries(l: int, revealed: Seq<usize>)
    ensures
        forall|k: int|
            0 <= k < unrevealed(l, revealed).len() ==> (#[trigger] unrevealed(l, revealed)[k])
                < l && !revealed.contains(unrevealed(l, revealed)[k]),
    decreases l,
{
    if l > 0 {
        lemma_unrevealed_entries(l - 1, revealed);
        let u1 = unrevealed(l - 1, revealed);
        let u = unrevealed(l, revealed);
        assert forall|k: int|
            0 <= k < u.len() implies u[k] < l && !revealed.contains(u[k]) by {
            if k < u1.len() {
                assert(u[k] == u1[k]);
            } else {
                assert(u[k] == (l - 1) as usize);
            }
        }
    }
}

/// `unrevealed(l, revealed)` is strictly increasing, so an index occurs in
/// it at most once.
pub proof fn lemma_unrevealed_sorted(l: int, revealed: Seq<usize>)
    requires
        l <= usize::MAX,
    ensures
        forall|p: int, q: int|
            0 <= p < q < unrevealed(l, revealed).len() ==> unrevealed(l, revealed)[p] < unrevealed(
                l,
                revealed,
            )[q],
    decreases l,
{
    if l > 0 {
        lemma_unrevealed_sorted(l - 1, revealed);
        lemma_unrevealed_entries(l - 1, revealed);
        let u1 = unrevealed(l - 1, revealed);
        let u = unrevealed(l, revealed);
        assert forall|p: int, q: int| 0 <= p < q < u.len() implies u[p] < u[q] by {
            if q < u1.len() {
                assert(u[p] == u1[p] && u[q] == u1[q]);
                assert(unrevealed(l - 1, revealed)[p] < unrevealed(l - 1, revealed)[q]);
            } else {
                assert(u[q] == (l - 1) as usize);
                assert(u[p] == u1[p]);
                assert(u1[p] < l - 1);
            }
        }
    }
}

/// Whether `list` contains `x`.
pub fn list_contains(list: &Vec<usize>, x: usize) -> (r: bool)
    ensures
        r == list@.contains(x),
{
    let n = list.len();
    let mut i: usize = 0;
    while i < n
        invariant
            i <= n,
            n == list@.len(),
            forall|k: int| 0 <= k < i ==> list@[k] != x,
        decreases n - i,
    {
        if list[i] == x {
            return true;
        }
        i += 1;
    }
    false
}

/// Builds the ascending list of message indices of `0..l` not in `revealed`.
pub fn build_unrevealed(l: usize, revealed: &Vec<usize>) -> (r: Vec<usize>)
    ensures
        r@ == unrevealed(l as int, revealed@),
        r@.len() <= l,
        forall|k: int| 0 <= k < r@.len() ==> (#[trigger] r@[k]) < l,
{
    let mut out: Vec<usize> = Vec::new();
    let mut i: usize = 0;
    while i < l
        invariant
            i <= l,
            out@ == unrevealed(i as int, revealed@),
            out@.len() <= i,
            forall|k: int| 0 <= k < out@.len() ==> (#[trigger] out@[k]) < i,
        decreases l - i,
    {
        if !list_contains(revealed, i) {
            out.push(i);
        }
        i += 1;
        assert(out@ =~= unrevealed(i as int, revealed@));
    }
    out
}

/// The bases of the second Schnorr relation: `d`, `h_0`, then `h_i` for each
/// unrevealed `i`.
pub open spec fn spk_bases2(d: Seq<u8>, params: SignatureParamsG1, u: Seq<usize>) -> Seq<Seq<u8>> {
    seq![d, params.h_0@] + u.map_values(|i: usize| params.h@[i as int]@)
}

/// The witnesses of the second relation: `-r3`, `s'`, then `m_i` for each
/// unrevealed `i`.
pub open spec fn spk_witnesses2(
    r1: Seq<u8>,
    r2: Seq<u8>,
    s: Seq<u8>,
    msgs: Seq<Scalar>,
    u: Seq<usize>,
) -> Seq<Seq<u8>> {
    seq![
        fr_neg_of(fr_inv_of(r1)),
        fr_add_of(s, fr_neg_of(fr_mul_of(r2, fr_inv_of(r1)))),
    ] + u.map_values(|i: usize| msgs[i as int]@)
}

/// The target of the second relation: `-(sum_D h_i * m_i + g1)`.
pub open spec fn spk_target2(params: SignatureParamsG1, revealed: Seq<(usize, Scalar)>) -> Seq<u8> {
    g1_neg_of(
        g1_add_of(
            g1_msm_of(
                revealed.map_values(|p: (usize, Scalar)| params.h@[p.0 as int]@),
                revealed.map_values(|p: (usize, Scalar)| p.1@),
            ),
            params.g1@,
        ),
    )
}

/// The transcript bytes of the disclosed pairs: each index as eight bytes,
/// then the value.
pub open spec fn revealed_bytes(revealed: Seq<(usize, Scalar)>) -> Seq<u8>
    decreases revealed.len(),
{
    if revealed.len() == 0 {
        Seq::empty()
    } else {
        revealed_bytes(revealed.drop_last()) + u64_le_bytes(revealed.last().0 as u64)
            + revealed.last().1@
    }
}

/// The transcript bytes of the parameters: `g1`, `g2`, `h_0`, then each `h_i`.
pub open spec fn params_bytes(params: SignatureParamsG1) -> Seq<u8> {
    params.g1@ + params.g2@ + params.h_0@ + h_bytes(params.h@)
}

/// The concatenation of the encodings of a list of points.
pub open spec fn h_bytes(h: Seq<G1El>) -> Seq<u8>
    decreases h.len(),
{
    if h.len() == 0 {
        Seq::empty()
    } else {
        h_bytes(h.drop_last()) + h.last()@
    }
}

/// The full challenge contribution of the protocol, in canonical order:
/// `A'`, `Abar`, `d`, `T1`, `T2`, the disclosed pairs, the public key, the
/// parameters.
pub open spec fn spk_contrib(
    a_prime: Seq<u8>,
    a_bar: Seq<u8>,
    d: Seq<u8>,
    t1: Seq<u8>,
    t2: Seq<u8>,
    revealed: Seq<(usize, Scalar)>,
    pk: PublicKeyG2,
    params: SignatureParamsG1,
) -> Seq<u8> {
    a_prime + a_bar + d + t1 + t2 + revealed_bytes(revealed) + pk.0@ + params_bytes(params)
}

/// Appends the disclosed pairs to `out`.
pub fn append_revealed(out: &mut Vec<u8>, revealed: &Vec<(usize, Scalar)>)
    ensures
        final(out)@ == old(out)@ + revealed_bytes(revealed@),
{
    let n = revealed.len();
    let mut i: usize = 0;
    while i < n
        invariant
            i <= n,
            n == revealed@.len(),
            out@ == old(out)@ + revealed_bytes(revealed@.take(i as int)),
        decreases n - i,
    {
        let (idx, v) = revealed[i];
        append_u64_le(out, idx as u64);
        scalar_append(out, &v);
        proof {
            assert(revealed@.take(i + 1).drop_last() =~= revealed@.take(i as int));
            assert(revealed@.take(i + 1).last() == revealed@[i as int]);
        }
        i += 1;
    }
    assert(revealed@.take(n as int) =~= revealed@);
}

/// Appends the parameter bytes to `out`.
pub fn append_params(out: &mut Vec<u8>, params: &SignatureParamsG1)
    ensures
        final(out)@ == old(out)@ + params_bytes(*params),
{
    g1_append(out, &params.g1);
    g2_append(out, &params.g2);
    g1_append(out, &params.h_0);
    let n = params.h.len();
    let mut i: usize = 0;
    while i < n
        invariant
            i <= n,
            n == params.h@.len(),
            out@ == old(out)@ + params.g1@ + params.g2@ + params.h_0@ + h_bytes(
                params.h@.take(i as int),
            ),
        decreases n - i,
    {
        g1_append(out, &params.h[i]);
        proof {
            assert(params.h@.take(i + 1).drop_last() =~= params.h@.take(i as int));
            assert(params.h@.take(i + 1).last() == params.h@[i as int]);
        }
        i += 1;
    }
    assert(params.h@.take(n as int) =~= params.h@);
}

/// Prover state of the signature proof of knowledge.
#[derive(Clone, Debug)]
pub struct PoKOfSignatureG1Protocol {
    pub a_prime: G1El,
    pub a_bar: G1El,
    pub d: G1El,
    pub sc1: SchnorrCommitment,
    pub sc2: SchnorrCommitment,
    pub witnesses1: Vec<Scalar>,
    pub witnesses2: Vec<Scalar>,
    pub u_indices: Vec<usize>,
}

/// The finished signature proof of knowledge.
#[derive(Clone, Debug)]
pub struct PoKOfSignatureG1Proof {
    pub a_prime: G1El,
    pub a_bar: G1El,
    pub d: G1El,
    pub t1: G1El,
    pub t2: G1El,
    pub resp1: Vec<Scalar>,
    pub resp2: Vec<Scalar>,
}

impl PoKOfSignatureG1Protocol {
    /// Randomizes the signature and commits to the two Schnorr relations for
    /// the given randomness: succeeds exactly when `r1` is invertible.
    /// `blindings2` carries one blinding per witness of the second relation,
    /// injected by the composition layer where an equality class demands it.
    pub fn init_given_randomness(
        sig: &SignatureG1,
        params: &SignatureParamsG1,
        messages: &Vec<Scalar>,
        revealed_indices: &Vec<usize>,
        r1: &Scalar,
        r2: &Scalar,
        blindings1: Vec<Scalar>,
        blindings2: Vec<Scalar>,
    ) -> (r: Option<Self>)
        requires
            messages@.len() == params.h@.len(),
            blindings1@.len() == 2,
            blindings2@.len() == 2 + unrevealed(params.h@.len() as int, revealed_indices@).len(),
        ensures
            r is Some <==> r1@ != fr_zero_bytes(),
            r matches Some(p) ==> {
                let b = params.spec_b(indexed_msgs(messages@), sig.s@);
                let u = unrevealed(params.h@.len() as int, revealed_indices@);
                &&& p.a_prime@ == g1_mul_of(sig.a@, r1@)
                &&& p.a_bar@ == g1_add_of(
                    g1_mul_of(p.a_prime@, fr_neg_of(sig.e@)),
                    g1_mul_of(b, r1@),
                )
                &&& p.d@ == g1_add_of(g1_mul_of(b, r1@), g1_mul_of(params.h_0@, fr_neg_of(r2@)))
                &&& p.u_indices@ == u
                &&& scalar_reprs(p.witnesses1@) == seq![fr_neg_of(sig.e@), r2@]
                &&& scalar_reprs(p.witnesses2@) == spk_witnesses2(r1@, r2@, sig.s@, messages@, u)
                &&& p.sc1.blindings == blindings1
                &&& p.sc2.blindings == blindings2
                &&& p.sc1.t@ == g1_msm_of(
                    seq![p.a_prime@, params.h_0@],
                    scalar_reprs(blindings1@),
                )
                &&& p.sc2.t@ == g1_msm_of(spk_bases2(p.d@, *params, u), scalar_reprs(blindings2@))
            },
    {
        let r3 = match fr_inverse(r1) {
            Some(v) => v,
            None => {
                return None;
            },
        };
        let pairs = build_indexed(messages);
        assert(forall|k: int|
            0 <= k < pairs@.len() ==> (#[trigger] pairs@[k]).0 < params.h@.len());
        let b = match params.b(&pairs, &sig.s) {
            Ok(v) => v,
            Err(_) => {
                proof {
                    assert(false);
                }
                return None;
            },
        };
        let a_prime = g1_mul(&sig.a, r1);
        let neg_e = fr_neg(&sig.e);
        let b_r1 = g1_mul(&b, r1);
        let a_bar = g1_add(&g1_mul(&a_prime, &neg_e), &b_r1);
        let neg_r2 = fr_neg(r2);
        let d = g1_add(&b_r1, &g1_mul(&params.h_0, &neg_r2));
        let neg_r3 = fr_neg(&r3);
        let s_prime = fr_add(&sig.s, &fr_neg(&fr_mul(r2, &r3)));

        let u_indices = build_unrevealed(messages.len(), revealed_indices);

        let mut bases1: Vec<G1El> = Vec::new();
        bases1.push(a_prime);
        bases1.push(params.h_0);
        let mut witnesses1: Vec<Scalar> = Vec::new();
        witnesses1.push(neg_e);
        witnesses1.push(*r2);
        assert(g1_reprs(bases1@) =~= seq![a_prime@, params.h_0@]);
        assert(scalar_reprs(witnesses1@) =~= seq![fr_neg_of(sig.e@), r2@]);
        let sc1 = SchnorrCommitment::init(&bases1, blindings1);

        let nu = u_indices.len();
        let mut bases2: Vec<G1El> = Vec::new();
        bases2.push(d);
        bases2.push(params.h_0);
        let mut witnesses2: Vec<Scalar> = Vec::new();
        witnesses2.push(neg_r3);
        witnesses2.push(s_prime);
        let mut k: usize = 0;
        while k < nu
            invariant
                k <= nu,
                nu == u_indices@.len(),
                messages@.len() == params.h@.len(),
                forall|j: int| 0 <= j < nu ==> (#[trigger] u_indices@[j]) < messages@.len(),
                bases2@.len() == 2 + k,
                witnesses2@.len() == 2 + k,
                bases2@[0]@ == d@,
                bases2@[1]@ == params.h_0@,
                witnesses2@[0]@ == fr_neg_of(fr_inv_of(r1@)),
                witnesses2@[1]@ == fr_add_of(sig.s@, fr_neg_of(fr_mul_of(r2@, fr_inv_of(r1@)))),
                forall|j: int|
                    0 <= j < k ==> (#[trigger] bases2@[2 + j])@ == params.h@[u_indices@[j] as int]@,
                forall|j: int|
                    0 <= j < k ==> (#[trigger] witnesses2@[2 + j])@
                        == messages@[u_indices@[j] as int]@,
            decreases nu - k,
        {
            let idx = u_indices[k];
            bases2.push(params.h[idx]);
            witnesses2.push(messages[idx]);
            k += 1;
        }
        proof {
            let u = unrevealed(params.h@.len() as int, revealed_indices@);
            let sb = spk_bases2(d@, *params, u);
            let sw = spk_witnesses2(r1@, r2@, sig.s@, messages@, u);
            assert forall|t: int| 0 <= t < bases2@.len() implies g1_reprs(bases2@)[t] == sb[t] by {
                if t >= 2 {
                    let j = t - 2;
                    assert(bases2@[2 + j]@ == params.h@[u_indices@[j] as int]@);
                    assert(sb[t] == u.map_values(|i: usize| params.h@[i as int]@)[j]);
                }
            }
            assert(g1_reprs(bases2@) =~= sb);
            assert forall|t: int|
                0 <= t < witnesses2@.len() implies scalar_reprs(witnesses2@)[t] == sw[t] by {
                if t >= 2 {
                    let j = t - 2;
                    assert(witnesses2@[2 + j]@ == messages@[u_indices@[j] as int]@);
                    assert(sw[t] == u.map_values(|i: usize| messages@[i as int]@)[j]);
                }
            }
            assert(scalar_reprs(witnesses2@) =~= sw);
        }
        let sc2 = SchnorrCommitment::init(&bases2, blindings2);
        Some(
            PoKOfSignatureG1Protocol {
                a_prime,
                a_bar,
                d,
                sc1,
                sc2,
                witnesses1,
                witnesses2,
                u_indices,
            },
        )
    }

    /// Randomizes the signature with fresh randomness; `msg_blindings`
    /// injects, per message index, the blinding an equality class demands.
    /// `None` can only come of the negligible event that every sampled `r1`
    /// was zero.
    pub fn init(
        rng: &mut StdRng,
        sig: &SignatureG1,
        params: &SignatureParamsG1,
        messages: &Vec<Scalar>,
        revealed_indices: &Vec<usize>,
        msg_blindings: &Vec<Option<Scalar>>,
    ) -> (r: Option<Self>)
        requires
            messages@.len() == params.h@.len(),
            msg_blindings@.len() == messages@.len(),
        ensures
            r matches Some(p) ==> {
                let u = unrevealed(params.h@.len() as int, revealed_indices@);
                &&& p.u_indices@ == u
                &&& p.sc2.blindings@.len() == 2 + u.len()
                &&& p.witnesses1@.len() == p.sc1.blindings@.len()
                &&& p.witnesses2@.len() == p.sc2.blindings@.len()
                &&& p.witnesses1@.len() == 2
                &&& p.witnesses2@.len() == 2 + u.len()
                &&& forall|j: int|
                    0 <= j < u.len() ==> (msg_blindings@[u[j] as int] matches Some(bl) ==> (
                    #[trigger] p.sc2.blindings@[2 + j])@ == bl@)
            },
    {
        let u_indices = build_unrevealed(messages.len(), revealed_indices);
        let nu = u_indices.len();
        let mut blindings2: Vec<Scalar> = Vec::new();
        blindings2.push(fr_random(rng));
        blindings2.push(fr_random(rng));
        let mut k: usize = 0;
        while k < nu
            invariant
                k <= nu,
                nu == u_indices@.len(),
                msg_blindings@.len() == messages@.len(),
                forall|j: int| 0 <= j < nu ==> (#[trigger] u_indices@[j]) < messages@.len(),
                blindings2@.len() == 2 + k,
                forall|j: int|
                    0 <= j < k ==> (msg_blindings@[u_indices@[j] as int] matches Some(bl) ==> (
                    #[trigger] blindings2@[2 + j])@ == bl@),
            decreases nu - k,
        {
            let idx = u_indices[k];
            match msg_blindings[idx] {
                Some(bl) => blindings2.push(bl),
                None => blindings2.push(fr_random(rng)),
            }
            k += 1;
        }
        let mut blindings1: Vec<Scalar> = Vec::new();
        blindings1.push(fr_random(rng));
        blindings1.push(fr_random(rng));
        let mut attempts: usize = 0;
        while attempts < 128
            invariant
                messages@.len() == params.h@.len(),
                msg_blindings@.len() == messages@.len(),
                u_indices@ == unrevealed(params.h@.len() as int, revealed_indices@),
                blindings1@.len() == 2,
                blindings2@.len() == 2 + u_indices@.len(),
                forall|j: int|
                    0 <= j < u_indices@.len() ==> (msg_blindings@[u_indices@[j] as int] matches Some(
                        bl,
                    ) ==> (#[trigger] blindings2@[2 + j])@ == bl@),
            decreases 128 - attempts,
        {
            let r1 = fr_random(rng);
            let r2 = fr_random(rng);
            let b1 = clone_scalars(&blindings1);
            let b2 = clone_scalars(&blindings2);
            match Self::init_given_randomness(
                sig,
                params,
                messages,
                revealed_indices,
                &r1,
                &r2,
                b1,
                b2,
            ) {
                Some(p) => {
                    proof {
                        assert(scalar_reprs(p.witnesses1@).len() == p.witnesses1@.len());
                        assert(scalar_reprs(p.witnesses2@).len() == p.witnesses2@.len());
                    }
                    return Some(p);
                },
                None => {},
            }
            attempts += 1;
        }
        None
    }

    /// Appends the protocol's challenge contribution to `writer`.
    pub fn challenge_contribution(
        &self,
        revealed: &Vec<(usize, Scalar)>,
        pk: &PublicKeyG2,
        params: &SignatureParamsG1,
        writer: &mut Vec<u8>,
    )
        ensures
            final(writer)@ == old(writer)@ + spk_contrib(
                self.a_prime@,
                self.a_bar@,
                self.d@,
                self.sc1.t@,
                self.sc2.t@,
                revealed@,
                *pk,
                *params,
            ),
    {
        g1_append(writer, &self.a_prime);
        g1_append(writer, &self.a_bar);
        g1_append(writer, &self.d);
        g1_append(writer, &self.sc1.t);
        g1_append(writer, &self.sc2.t);
        append_revealed(writer, revealed);
        g2_append(writer, &pk.0);
        append_params(writer, params);
    }

    /// Answers the challenge with the responses of both relations.
    pub fn gen_proof(&self, challenge: &Scalar) -> (r: PoKOfSignatureG1Proof)
        requires
            self.witnesses1@.len() == self.sc1.blindings@.len(),
            self.witnesses2@.len() == self.sc2.blindings@.len(),
        ensures
            r.a_prime@ == self.a_prime@,
            r.a_bar@ == self.a_bar@,
            r.d@ == self.d@,
            r.t1@ == self.sc1.t@,
            r.t2@ == self.sc2.t@,
            scalar_reprs(r.resp1@) == spec_responses(
                self.sc1.blindings@,
                challenge@,
                self.witnesses1@,
            ),
            scalar_reprs(r.resp2@) == spec_responses(
                self.sc2.blindings@,
                challenge@,
                self.witnesses2@,
            ),
            r.resp1@.len() == self.witnesses1@.len(),
            r.resp2@.len() == self.witnesses2@.len(),
    {
        let resp1 = self.sc1.responses(&self.witnesses1, challenge);
        let resp2 = self.sc2.responses(&self.witnesses2, challenge);
        PoKOfSignatureG1Proof {
            a_prime: self.a_prime,
            a_bar: self.a_bar,
            d: self.d,
            t1: self.sc1.t,
            t2: self.sc2.t,
            resp1,
            resp2,
        }
    }
}

/// Copies a vector of scalars.
pub fn clone_scalars(v: &Vec<Scalar>) -> (r: Vec<Scalar>)
    ensures
        r@ == v@,
{
    let n = v.len();
    let mut out: Vec<Scalar> = Vec::new();
    let mut i: usize = 0;
    while i < n
        invariant
            i <= n,
            n == v@.len(),
            out@ == v@.take(i as int),
        decreases n - i,
    {
        out.push(v[i]);
        i += 1;
    }
    assert(v@.take(n as int) =~= v@);
    out
}

impl PoKOfSignatureG1Proof {
    /// Appends the proof's challenge contribution to `writer`; the same
    /// bytes the prover's state contributes.
    pub fn challenge_contribution(
        &self,
        revealed: &Vec<(usize, Scalar)>,
        pk: &PublicKeyG2,
        params: &SignatureParamsG1,
        writer: &mut Vec<u8>,
    )
        ensures
            final(writer)@ == old(writer)@ + spk_contrib(
                self.a_prime@,
                self.a_bar@,
                self.d@,
                self.t1@,
                self.t2@,
                revealed@,
                *pk,
                *params,
            ),
    {
        g1_append(writer, &self.a_prime);
        g1_append(writer, &self.a_bar);
        g1_append(writer, &self.d);
        g1_append(writer, &self.t1);
        g1_append(writer, &self.t2);
        append_revealed(writer, revealed);
        g2_append(writer, &pk.0);
        append_params(writer, params);
    }

    /// Holds iff the proof verifies for the disclosed pairs under the given
    /// challenge: `A'` is not the identity, `e(A', w) == e(Abar, g2)`, and
    /// both Schnorr relations accept.
    pub open spec fn spec_verifies(
        self,
        revealed: Seq<(usize, Scalar)>,
        challenge: Seq<u8>,
        pk: PublicKeyG2,
        params: SignatureParamsG1,
    ) -> bool {
        let u = unrevealed(params.h@.len() as int, revealed.map_values(|p: (usize, Scalar)| p.0));
        &&& !g1_is_id_of(self.a_prime@)
        &&& pairing_eq_of(self.a_prime@, pk.0@, self.a_bar@, params.g2@)
        &&& self.resp1@.len() == 2
        &&& self.resp2@.len() == 2 + u.len()
        &&& spec_schnorr_verifies(
            seq![self.a_prime@, params.h_0@],
            g1_add_of(self.a_bar@, g1_neg_of(self.d@)),
            self.t1@,
            challenge,
            scalar_reprs(self.resp1@),
        )
        &&& spec_schnorr_verifies(
            spk_bases2(self.d@, params, u),
            spk_target2(params, revealed),
            self.t2@,
            challenge,
            scalar_reprs(self.resp2@),
        )
    }

    /// Verifies the proof against the disclosed pairs, challenge, public key
    /// and parameters.
    pub fn verify(
        &self,
        revealed: &Vec<(usize, Scalar)>,
        challenge: &Scalar,
        pk: &PublicKeyG2,
        params: &SignatureParamsG1,
    ) -> (r: Result<(), BBSPlusError>)
        requires
            forall|k: int|
                0 <= k < revealed@.len() ==> (#[trigger] revealed@[k]).0 < params.h@.len(),
        ensures
            r is Ok <==> self.spec_verifies(revealed@, challenge@, *pk, *params),
            r matches Err(e) ==> e == BBSPlusError::ProofVerificationFailed,
    {
        if g1_is_identity(&self.a_prime) {
            return Err(BBSPlusError::ProofVerificationFailed);
        }
        if !pairing_eq(&self.a_prime, &pk.0, &self.a_bar, &params.g2) {
            return Err(BBSPlusError::ProofVerificationFailed);
        }
        if self.resp1.len() != 2 {
            return Err(BBSPlusError::ProofVerificationFailed);
        }
        let mut rev_idx: Vec<usize> = Vec::new();
        let nrev = revealed.len();
        let mut i: usize = 0;
        while i < nrev
            invariant
                i <= nrev,
                nrev == revealed@.len(),
                rev_idx@.len() == i,
                forall|k: int| 0 <= k < i ==> (#[trigger] rev_idx@[k]) == revealed@[k].0,
            decreases nrev - i,
        {
            let (idx, _) = revealed[i];
            rev_idx.push(idx);
            i += 1;
        }
        proof {
            assert(rev_idx@ =~= revealed@.map_values(|p: (usize, Scalar)| p.0));
        }
        let u_indices = build_unrevealed(params.supported_message_count(), &rev_idx);
        if self.resp2.len() < 2 || self.resp2.len() - 2 != u_indices.len() {
            return Err(BBSPlusError::ProofVerificationFailed);
        }

        let mut bases1: Vec<G1El> = Vec::new();
        bases1.push(self.a_prime);
        bases1.push(params.h_0);
        let target1 = g1_add(&self.a_bar, &g1_neg(&self.d));
        proof {
            assert(g1_reprs(bases1@) =~= seq![self.a_prime@, params.h_0@]);
        }
        if !schnorr_verify(&bases1, &target1, &self.t1, challenge, &self.resp1) {
            return Err(BBSPlusError::ProofVerificationFailed);
        }

        let nu = u_indices.len();
        let mut bases2: Vec<G1El> = Vec::new();
        bases2.push(self.d);
        bases2.push(params.h_0);
        let mut k: usize = 0;
        while k < nu
            invariant
                k <= nu,
                nu == u_indices@.len(),
                forall|j: int| 0 <= j < nu ==> (#[trigger] u_indices@[j]) < params.h@.len(),
                bases2@.len() == 2 + k,
                bases2@[0]@ == self.d@,
                bases2@[1]@ == params.h_0@,
                forall|j: int|
                    0 <= j < k ==> (#[trigger] bases2@[2 + j])@ == params.h@[u_indices@[j] as int]@,
            decreases nu - k,
        {
            bases2.push(params.h[u_indices[k]]);
            k += 1;
        }
        let mut rev_bases: Vec<G1El> = Vec::new();
        let mut rev_vals: Vec<Scalar> = Vec::new();
        let mut j: usize = 0;
        while j < nrev
            invariant
                j <= nrev,
                nrev == revealed@.len(),
                forall|k2: int|
                    0 <= k2 < nrev ==> (#[trigger] revealed@[k2]).0 < params.h@.len(),
                rev_bases@.len() == j,
                rev_vals@.len() == j,
                forall|k2: int|
                    0 <= k2 < j ==> (#[trigger] rev_bases@[k2])@ == params.h@[revealed@[k2].0 as int]@,
                forall|k2: int| 0 <= k2 < j ==> (#[trigger] rev_vals@[k2])@ == revealed@[k2].1@,
            decreases nrev - j,
        {
            let (idx, v) = revealed[j];
            rev_bases.push(params.h[idx]);
            rev_vals.push(v);
            j += 1;
        }
        proof {
            assert(g1_reprs(rev_bases@) =~= revealed@.map_values(
                |p: (usize, Scalar)| params.h@[p.0 as int]@,
            ));
            assert(scalar_reprs(rev_vals@) =~= revealed@.map_values(|p: (usize, Scalar)| p.1@));
            let u = unrevealed(
                params.h@.len() as int,
                revealed@.map_values(|p: (usize, Scalar)| p.0),
            );
            let sb = spk_bases2(self.d@, *params, u);
            assert forall|t: int| 0 <= t < bases2@.len() implies g1_reprs(bases2@)[t] == sb[t] by {
                if t >= 2 {
                    let j = t - 2;
                    assert(bases2@[2 + j]@ == params.h@[u_indices@[j] as int]@);
                    assert(sb[t] == u.map_values(|i: usize| params.h@[i as int]@)[j]);
                }
            }
            assert(g1_reprs(bases2@) =~= sb);
        }
        let target2 = g1_neg(&g1_add(&g1_msm(&rev_bases, &rev_vals), &params.g1));
        if !schnorr_verify(&bases2, &target2, &self.t2, challenge, &self.resp2) {
            return Err(BBSPlusError::ProofVerificationFailed);
        }
        Ok(())
    }

    /// The response scalar carried for unrevealed message `j`, as exposed to
    /// the composition layer: `Some` exactly when `j` is unrevealed and the
    /// response vector is long enough to hold its slot.
    pub fn get_resp_for_message(
        &self,
        message_count: usize,
        revealed_indices: &Vec<usize>,
        j: usize,
    ) -> (r: Option<Scalar>)
        ensures
            ({
                let u = unrevealed(message_count as int, revealed_indices@);
                &&& r is Some <==> exists|k: int|
                    0 <= k < u.len() && u[k] == j && 2 + k < self.resp2@.len()
                &&& r matches Some(s) ==> exists|k: int|
                    0 <= k < u.len() && u[k] == j && 2 + k < self.resp2@.len() && s@
                        == self.resp2@[2 + k]@
            }),
    {
        let u_indices = build_unrevealed(message_count, revealed_indices);
        let nu = u_indices.len();
        let mut k: usize = 0;
        while k < nu
            invariant
                k <= nu,
                nu == u_indices@.len(),
                u_indices@ == unrevealed(message_count as int, revealed_indices@),
                forall|k2: int| 0 <= k2 < k ==> (#[trigger] u_indices@[k2]) != j,
            decreases nu - k,
        {
            if u_indices[k] == j {
                if k < self.resp2.len() && 2 < self.resp2.len() - k {
                    proof {
                        let u = unrevealed(message_count as int, revealed_indices@);
                        assert(0 <= k < u.len() && u[k as int] == j && 2 + k
                            < self.resp2@.len());
                    }
                    return Some(self.resp2[k + 2]);
                } else {
                    proof {
                        let u = unrevealed(message_count as int, revealed_indices@);
                        assert forall|k2: int|
                            0 <= k2 < u.len() && u[k2] == j implies !(2 + k2
                            < self.resp2@.len()) by {
                            if k2 < k {
                                assert(u[k2] != j);
                            } else {
                                assert(2 + k2 >= 2 + k);
                            }
                        }
                    }
                    return None;
                }
            }
            k += 1;
        }
        None
    }
}

} // verus!
