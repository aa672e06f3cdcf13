//! Signature parameters: the per-message-count public reference string
//! `(g1, g2, h_0, h_1..h_L)`. The deterministic constructor derives every
//! element by try-and-increment hashing of a label, so two parties with the
//! same `(label, L)` obtain identical parameters.

use vstd::prelude::*;

use crate::bytes_util::{append_bytes, append_u64_le, u64_le_bytes};
use crate::errors::BBSPlusError;
use crate::g1::{g1_add, g1_add_of, g1_from_digest, g1_hash_of, g1_is_id_of, g1_is_identity,
    g1_msm, g1_msm_of, g1_random, g1_reprs, G1El};
use crate::g2::{g2_from_digest, g2_hash_of, g2_is_id_of, g2_is_identity, g2_random, G2El};
use crate::scalar::Scalar;
use ark_std::rand::rngs::StdRng;

verus! {

/// The label suffix for the `g1` element: `" : g1"`.
pub open spec fn suffix_g1() -> Seq<u8> {
    seq![32u8, 58u8, 32u8, 103u8, 49u8]
}

/// The label suffix for the `g2` element: `" : g2"`.
pub open spec fn suffix_g2() -> Seq<u8> {
    seq![32u8, 58u8, 32u8, 103u8, 50u8]
}

/// The label suffix for the `h` elements: `" : h_"` followed by the index.
pub open spec fn suffix_h() -> Seq<u8> {
    seq![32u8, 58u8, 32u8, 104u8, 95u8]
}

/// The bytes hashed to derive `g1` from a label.
pub open spec fn g1_label(label: Seq<u8>) -> Seq<u8> {
    label + suffix_g1()
}

/// The bytes hashed to derive `g2` from a label.
pub open spec fn g2_label(label: Seq<u8>) -> Seq<u8> {
    label + suffix_g2()
}

/// The bytes hashed to derive `h_i` from a label.
pub open spec fn h_label(label: Seq<u8>, i: u64) -> Seq<u8> {
    label + suffix_h() + u64_le_bytes(i)
}

fn build_g1_label(label: &Vec<u8>) -> (r: Vec<u8>)
    ensures
        r@ == g1_label(label@),
{
    let mut out: Vec<u8> = Vec::new();
    append_bytes(&mut out, label);
    out.push(32);
    out.push(58);
    out.push(32);
    out.push(103);
    out.push(49);
    assert(out@ =~= g1_label(label@));
    out
}

fn build_g2_label(label: &Vec<u8>) -> (r: Vec<u8>)
    ensures
        r@ == g2_label(label@),
{
    let mut out: Vec<u8> = Vec::new();
    append_bytes(&mut out, label);
    out.push(32);
    out.push(58);
    out.push(32);
    out.push(103);
    out.push(50);
    assert(out@ =~= g2_label(label@));
    out
}

fn build_h_label(label: &Vec<u8>, i: u64) -> (r: Vec<u8>)
    ensures
        r@ == h_label(label@, i),
{
    let mut out: Vec<u8> = Vec::new();
    append_bytes(&mut out, label);
    out.push(32);
    out.push(58);
    out.push(32);
    out.push(104);
    out.push(95);
    assert(out@ =~= label@ + suffix_h());
    append_u64_le(&mut out, i);
    assert(out@ =~= h_label(label@, i));
    out
}

/// Whether every index of an indexed message list occurs at most once, as
/// in a map from indices to values.
pub open spec fn distinct_indices(msgs: Seq<(usize, Scalar)>) -> bool {
    forall|k1: int, k2: int|
        0 <= k1 < k2 < msgs.len() ==> (#[trigger] msgs[k1]).0 != (#[trigger] msgs[k2]).0
}

/// Signature parameters for multi-messages of a fixed count, with the
/// signature carried in the first group.
#[derive(Clone, Debug)]
pub struct SignatureParamsG1 {
    pub g1: G1El,
    pub g2: G2El,
    pub h_0: G1El,
    pub h: Vec<G1El>,
}

impl PartialEq for SignatureParamsG1 {
    fn eq(&self, other: &SignatureParamsG1) -> (r: bool) {
        if !(self.g1 == other.g1 && self.g2 == other.g2 && self.h_0 == other.h_0) {
            return false;
        }
        if self.h.len() != other.h.len() {
            proof {
                assert(g1_reprs(self.h@).len() != g1_reprs(other.h@).len());
            }
            return false;
        }
        let n = self.h.len();
        let mut i: usize = 0;
        while i < n
            invariant
                i <= n,
                n == self.h@.len() == other.h@.len(),
                forall|j: int| 0 <= j < i ==> self.h@[j]@ == other.h@[j]@,
            decreases n - i,
        {
            if !(self.h[i] == other.h[i]) {
                proof {
                    assert(g1_reprs(self.h@)[i as int] == self.h@[i as int]@);
                    assert(g1_reprs(other.h@)[i as int] == other.h@[i as int]@);
                }
                return false;
            }
            i += 1;
        }
        proof {
            assert forall|j: int| 0 <= j < n implies g1_reprs(self.h@)[j] == g1_reprs(other.h@)[j]
            by {
                assert(self.h@[j]@ == other.h@[j]@);
            }
            assert(g1_reprs(self.h@) =~= g1_reprs(other.h@));
        }
        true
    }
}

impl Eq for SignatureParamsG1 {}

impl vstd::std_specs::cmp::PartialEqSpecImpl for SignatureParamsG1 {
    open spec fn obeys_eq_spec() -> bool {
        true
    }

    open spec fn eq_spec(&self, other: &SignatureParamsG1) -> bool {
        self.g1@ == other.g1@ && self.g2@ == other.g2@ && self.h_0@ == other.h_0@
            && g1_reprs(self.h@) == g1_reprs(other.h@)
    }
}

impl SignatureParamsG1 {
    /// Holds iff the parameters were derived from `(label, count)` by the
    /// deterministic constructor.
    pub open spec fn spec_derived_from(self, label: Seq<u8>, count: usize) -> bool {
        &&& self.g1@ == g1_hash_of(g1_label(label))
        &&& self.g2@ == g2_hash_of(g2_label(label))
        &&& self.h_0@ == g1_hash_of(h_label(label, 0))
        &&& self.h@.len() == count
        &&& forall|i: int|
            0 <= i < count ==> #[trigger] self.h@[i]@ == g1_hash_of(h_label(label, (i + 1) as u64))
    }

    /// Derives parameters by hashing a public label: `g1` from
    /// `label || " : g1"`, `g2` from `label || " : g2"`, and `h_i` from
    /// `label || " : h_" || i` for `i` in `0..=count`.
    pub fn new(label: &Vec<u8>, message_count: usize) -> (r: Self)
        requires
            1 <= message_count < usize::MAX,
        ensures
            r.spec_derived_from(label@, message_count),
    {
        let g1 = g1_from_digest(&build_g1_label(label));
        let g2 = g2_from_digest(&build_g2_label(label));
        let h_0 = g1_from_digest(&build_h_label(label, 0));
        let mut h: Vec<G1El> = Vec::new();
        let mut i: usize = 1;
        while i <= message_count
            invariant
                1 <= i <= message_count + 1,
                message_count < usize::MAX,
                h@.len() == i - 1,
                forall|j: int|
                    0 <= j < i - 1 ==> #[trigger] h@[j]@ == g1_hash_of(
                        h_label(label@, (j + 1) as u64),
                    ),
            decreases message_count + 1 - i,
        {
            h.push(g1_from_digest(&build_h_label(label, i as u64)));
            i += 1;
        }
        SignatureParamsG1 { g1, g2, h_0, h }
    }

    /// Samples parameters uniformly with the supplied generator.
    pub fn generate_using_rng(rng: &mut StdRng, message_count: usize) -> (r: Self)
        requires
            1 <= message_count,
        ensures
            r.h@.len() == message_count,
    {
        let g1 = g1_random(rng);
        let g2 = g2_random(rng);
        let h_0 = g1_random(rng);
        let mut h: Vec<G1El> = Vec::new();
        let mut i: usize = 0;
        while i < message_count
            invariant
                i <= message_count,
                h@.len() == i,
            decreases message_count - i,
        {
            h.push(g1_random(rng));
            i += 1;
        }
        SignatureParamsG1 { g1, g2, h_0, h }
    }

    /// Holds iff no parameter element is the group identity.
    pub open spec fn spec_is_valid(self) -> bool {
        &&& !g1_is_id_of(self.g1@)
        &&& !crate::g2::g2_is_id_of(self.g2@)
        &&& !g1_is_id_of(self.h_0@)
        &&& forall|i: int| 0 <= i < self.h@.len() ==> !g1_is_id_of(#[trigger] self.h@[i]@)
    }

    /// Checks that no element is the identity. A verifier must check this
    /// before using received parameters.
    pub fn is_valid(&self) -> (r: bool)
        ensures
            r == self.spec_is_valid(),
    {
        if g1_is_identity(&self.g1) || g2_is_identity(&self.g2) || g1_is_identity(&self.h_0) {
            return false;
        }
        let n = self.h.len();
        let mut i: usize = 0;
        while i < n
            invariant
                i <= n,
                n == self.h@.len(),
                forall|j: int| 0 <= j < i ==> !g1_is_id_of(#[trigger] self.h@[j]@),
            decreases n - i,
        {
            if g1_is_identity(&self.h[i]) {
                return false;
            }
            i += 1;
        }
        true
    }

    /// The number of messages these parameters support.
    pub fn supported_message_count(&self) -> (r: usize)
        ensures
            r == self.h@.len(),
    {
        self.h.len()
    }

    /// The bases of the Pedersen commitment built by `commit_to_messages`:
    /// `h_i` for each message index, then `h_0` for the blinding.
    pub open spec fn commit_bases(self, msgs: Seq<(usize, Scalar)>) -> Seq<Seq<u8>> {
        msgs.map_values(|p: (usize, Scalar)| self.h@[p.0 as int]@) + seq![self.h_0@]
    }

    /// The scalars of that commitment: the message values, then the blinding.
    pub open spec fn commit_scalars(msgs: Seq<(usize, Scalar)>, blinding: Seq<u8>) -> Seq<Seq<u8>> {
        msgs.map_values(|p: (usize, Scalar)| p.1@) + seq![blinding]
    }

    /// Commits to the given indexed messages as a Pedersen commitment
    /// `h_0 * blinding + sum_i h_i * m_i`, by multi-scalar multiplication.
    /// Fails with `InvalidMessageIdx` on the first index at or beyond the
    /// supported message count.
    pub fn commit_to_messages(&self, messages: &Vec<(usize, Scalar)>, blinding: &Scalar) -> (r:
        Result<G1El, BBSPlusError>)
        requires
            distinct_indices(messages@),
        ensures
            r is Ok <==> (forall|k: int|
                0 <= k < messages@.len() ==> (#[trigger] messages@[k]).0 < self.h@.len()),
            r matches Ok(c) ==> c@ == g1_msm_of(
                self.commit_bases(messages@),
                Self::commit_scalars(messages@, blinding@),
            ),
            r matches Err(e) ==> exists|k: int|
                0 <= k < messages@.len() && (#[trigger] messages@[k]).0 >= self.h@.len() && e
                    == BBSPlusError::InvalidMessageIdx(messages@[k].0),
    {
        let n = messages.len();
        let mut bases: Vec<G1El> = Vec::new();
        let mut scalars: Vec<Scalar> = Vec::new();
        let mut i: usize = 0;
        while i < n
            invariant
                i <= n,
                n == messages@.len(),
                bases@.len() == i,
                scalars@.len() == i,
                forall|k: int| 0 <= k < i ==> (#[trigger] messages@[k]).0 < self.h@.len(),
                forall|k: int|
                    0 <= k < i ==> (#[trigger] bases@[k])@ == self.h@[messages@[k].0 as int]@,
                forall|k: int| 0 <= k < i ==> (#[trigger] scalars@[k])@ == messages@[k].1@,
            decreases n - i,
        {
            let (idx, m) = messages[i];
            if idx >= self.h.len() {
                return Err(BBSPlusError::InvalidMessageIdx(idx));
            }
            bases.push(self.h[idx]);
            scalars.push(m);
            i += 1;
        }
        bases.push(self.h_0);
        scalars.push(*blinding);
        proof {
            let cb = self.commit_bases(messages@);
            let cs = Self::commit_scalars(messages@, blinding@);
            assert forall|k: int| 0 <= k < n + 1 implies g1_reprs(bases@)[k] == cb[k] by {
                if k < n {
                    assert(bases@[k]@ == self.h@[messages@[k].0 as int]@);
                }
            }
            assert forall|k: int|
                0 <= k < n + 1 implies crate::scalar::scalar_reprs(scalars@)[k] == cs[k] by {
                if k < n {
                    assert(scalars@[k]@ == messages@[k].1@);
                }
            }
            assert(g1_reprs(bases@) =~= cb);
            assert(crate::scalar::scalar_reprs(scalars@) =~= cs);
        }
        Ok(g1_msm(&bases, &scalars))
    }

    /// The encoding of `b = g1 + h_0 * s + sum_i h_i * m_i` over the given
    /// indexed messages.
    pub open spec fn spec_b(self, msgs: Seq<(usize, Scalar)>, s: Seq<u8>) -> Seq<u8> {
        g1_add_of(g1_msm_of(self.commit_bases(msgs), Self::commit_scalars(msgs, s)), self.g1@)
    }

    /// Computes `b = g1 + h_0 * s + sum_i h_i * m_i`, the quantity
    /// `A * (e + x)` of the signature scheme.
    pub fn b(&self, messages: &Vec<(usize, Scalar)>, s: &Scalar) -> (r: Result<
        G1El,
        BBSPlusError,
    >)
        requires
            distinct_indices(messages@),
        ensures
            r is Ok <==> (forall|k: int|
                0 <= k < messages@.len() ==> (#[trigger] messages@[k]).0 < self.h@.len()),
            r matches Ok(c) ==> c@ == self.spec_b(messages@, s@),
            r matches Err(e) ==> exists|k: int|
                0 <= k < messages@.len() && (#[trigger] messages@[k]).0 >= self.h@.len() && e
                    == BBSPlusError::InvalidMessageIdx(messages@[k].0),
    {
        match self.commit_to_messages(messages, s) {
            Ok(c) => Ok(g1_add(&c, &self.g1)),
            Err(e) => Err(e),
        }
    }
}

/// Two parameter sets derived from the same `(label, count)` are identical,
/// element for element.
pub proof fn lemma_params_deterministic(
    a: SignatureParamsG1,
    b: SignatureParamsG1,
    label: Seq<u8>,
    count: usize,
)
    requires
        a.spec_derived_from(label, count),
        b.spec_derived_from(label, count),
    ensures
        a.g1@ == b.g1@,
        a.g2@ == b.g2@,
        a.h_0@ == b.h_0@,
        g1_reprs(a.h@) == g1_reprs(b.h@),
{
    assert(g1_reprs(a.h@) =~= g1_reprs(b.h@));
}

} // verus!
