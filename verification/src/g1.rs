//! Elements of the first pairing group, carried as their canonical 48-byte
//! compressed encodings. Curve arithmetic is done by `ark-ec` behind trusted
//! wrappers; each wrapper decodes its arguments, applies one group operation
//! and re-encodes the result.

use vstd::prelude::*;

use ark_std::rand::rngs::StdRng;
use crate::scalar::Scalar;
use ark_bls12_381::{Fr, G1Affine, G1Projective};
use ark_ec::{AffineRepr, CurveGroup, VariableBaseMSM};
use ark_serialize::{CanonicalDeserialize, CanonicalSerialize};
use ark_std::UniformRand;

verus! {

/// Holds iff `b` is the canonical compressed encoding of a point of the
/// first group, i.e. `ark_serialize` decoding (with curve and subgroup
/// checks) succeeds.
pub uninterp spec fn g1_valid(b: Seq<u8>) -> bool;

/// The encoding of the point obtained by try-and-increment hashing of `msg`
/// into the first group.
pub uninterp spec fn g1_hash_of(msg: Seq<u8>) -> Seq<u8>;

/// The encoding of the sum of the points encoded by `a` and `b`.
pub uninterp spec fn g1_add_of(a: Seq<u8>, b: Seq<u8>) -> Seq<u8>;

/// The encoding of the additive inverse of the point encoded by `a`.
pub uninterp spec fn g1_neg_of(a: Seq<u8>) -> Seq<u8>;

/// The encoding of the point encoded by `p` multiplied by the scalar encoded
/// by `s`.
pub uninterp spec fn g1_mul_of(p: Seq<u8>, s: Seq<u8>) -> Seq<u8>;

/// The encoding of the multi-scalar multiplication `sum_i bases[i] *
/// scalars[i]` over encoded points and scalars.
pub uninterp spec fn g1_msm_of(bases: Seq<Seq<u8>>, scalars: Seq<Seq<u8>>) -> Seq<u8>;

/// Whether `p` encodes the group identity.
pub uninterp spec fn g1_is_id_of(p: Seq<u8>) -> bool;

/// A point of the first group, as its canonical compressed encoding. Every
/// value of this type decodes successfully; the trusted constructors below
/// keep it so.
#[derive(Clone, Copy, Debug)]
pub struct G1El {
    b: [u8; 48],
}

impl View for G1El {
    type V = Seq<u8>;

    closed spec fn view(&self) -> Seq<u8> {
        self.b@
    }
}

impl G1El {
    /// Every constructed point carries a canonical encoding; a caller
    /// learns this through `use_type_invariant`.
    #[verifier::type_invariant]
    pub open spec fn inv(self) -> bool {
        g1_valid(self@)
    }
}

impl PartialEq for G1El {
    fn eq(&self, other: &G1El) -> (r: bool) {
        g1_bytes_eq(&self.b, &other.b)
    }
}

impl Eq for G1El {}

impl vstd::std_specs::cmp::PartialEqSpecImpl for G1El {
    open spec fn obeys_eq_spec() -> bool {
        true
    }

    open spec fn eq_spec(&self, other: &G1El) -> bool {
        self@ == other@
    }
}

/// Byte-for-byte comparison of two 48-byte arrays.
pub fn g1_bytes_eq(a: &[u8; 48], b: &[u8; 48]) -> (r: bool)
    ensures
        r == (a@ == b@),
{
    let mut i: usize = 0;
    while i < 48
        invariant
            i <= 48,
            forall|j: int| 0 <= j < i ==> a@[j] == b@[j],
        decreases 48 - i,
    {
        if a[i] != b[i] {
            assert(a@ != b@);
            return false;
        }
        i += 1;
    }
    assert(a@ =~= b@);
    true
}

/// Appends the 48 bytes of a point's encoding to `out`.
pub fn g1_append(out: &mut Vec<u8>, a: &G1El)
    ensures
        final(out)@ == old(out)@ + a@,
{
    let mut i: usize = 0;
    while i < 48
        invariant
            i <= 48,
            out@ == old(out)@ + a@.take(i as int),
        decreases 48 - i,
    {
        out.push(a.b[i]);
        i += 1;
    }
    assert(a@.take(48) =~= a@);
}

/// Every point's encoding is 48 bytes long.
pub proof fn lemma_g1_len(p: G1El)
    ensures
        p@.len() == 48,
{
}

/// The byte encodings of a list of points.
pub open spec fn g1_reprs(v: Seq<G1El>) -> Seq<Seq<u8>> {
    v.map_values(|e: G1El| e@)
}

/// Borrows a point's canonical encoding.
pub fn g1_bytes(p: &G1El) -> (r: &[u8; 48])
    ensures
        r@ == p@,
{
    &p.b
}

/// Relies on `ark_serialize::CanonicalDeserialize` for `G1Affine`. The
/// accepted byte strings are kept as they are, never re-encoded, so two
/// accepted encodings compare equal only byte for byte; non-canonical
/// spellings of the identity that the deserializer tolerates simply compare
/// unequal to the canonical ones.
#[verifier::external_body]
pub fn g1_decode(b: &Vec<u8>, off: usize) -> (r: Option<G1El>)
    requires
        off + 48 <= b@.len(),
    ensures
        r is Some <==> g1_valid(b@.subrange(off as int, off as int + 48)),
        r matches Some(p) ==> p@ == b@.subrange(off as int, off as int + 48),
{
    let mut arr = [0u8; 48];
    arr.copy_from_slice(&b[off..off + 48]);
    match G1Affine::deserialize_compressed(&arr[..]) {
        Ok(_) => Some(G1El { b: arr }),
        Err(_) => None,
    }
}

/// Relies on
/// `dock_crypto_utils::hashing_utils::projective_group_elem_from_try_and_incr`
/// with Blake2b: the point is a function of the hashed bytes alone.
#[verifier::external_body]
pub fn g1_from_digest(msg: &Vec<u8>) -> (r: G1El)
    ensures
        r@ == g1_hash_of(msg@),
{
    let p: G1Projective =
        dock_crypto_utils::hashing_utils::projective_group_elem_from_try_and_incr::<
            G1Affine,
            blake2::Blake2b512,
        >(msg);
    let mut out = [0u8; 48];
    p.into_affine().serialize_compressed(&mut out[..]).unwrap();
    G1El { b: out }
}

/// Relies on group addition of `ark-ec`.
#[verifier::external_body]
pub fn g1_add(a: &G1El, b: &G1El) -> (r: G1El)
    ensures
        r@ == g1_add_of(a@, b@),
{
    let x = G1Affine::deserialize_compressed(&a.b[..]).unwrap();
    let y = G1Affine::deserialize_compressed(&b.b[..]).unwrap();
    let z = (x + y).into_affine();
    let mut out = [0u8; 48];
    z.serialize_compressed(&mut out[..]).unwrap();
    G1El { b: out }
}

/// Relies on group negation of `ark-ec`.
#[verifier::external_body]
pub fn g1_neg(a: &G1El) -> (r: G1El)
    ensures
        r@ == g1_neg_of(a@),
{
    let x = G1Affine::deserialize_compressed(&a.b[..]).unwrap();
    let z = -x;
    let mut out = [0u8; 48];
    z.serialize_compressed(&mut out[..]).unwrap();
    G1El { b: out }
}

/// Relies on scalar multiplication of `ark-ec`.
#[verifier::external_body]
pub fn g1_mul(p: &G1El, s: &Scalar) -> (r: G1El)
    ensures
        r@ == g1_mul_of(p@, s@),
{
    let x = G1Affine::deserialize_compressed(&p.b[..]).unwrap();
    let f = Fr::deserialize_compressed(&crate::scalar::scalar_bytes(s)[..]).unwrap();
    let z = (x * f).into_affine();
    let mut out = [0u8; 48];
    z.serialize_compressed(&mut out[..]).unwrap();
    G1El { b: out }
}

/// Relies on `ark_ec::VariableBaseMSM::msm` for multi-scalar
/// multiplication; the bases and scalars are handed over one for one.
#[verifier::external_body]
pub fn g1_msm(bases: &Vec<G1El>, scalars: &Vec<Scalar>) -> (r: G1El)
    requires
        bases@.len() == scalars@.len(),
    ensures
        r@ == g1_msm_of(g1_reprs(bases@), crate::scalar::scalar_reprs(scalars@)),
{
    let bs: Vec<G1Affine> = bases
        .iter()
        .map(|e| G1Affine::deserialize_compressed(&e.b[..]).unwrap())
        .collect();
    let ss: Vec<Fr> = scalars
        .iter()
        .map(|s| Fr::deserialize_compressed(&crate::scalar::scalar_bytes(s)[..]).unwrap())
        .collect();
    let z = G1Projective::msm(&bs, &ss).unwrap().into_affine();
    let mut out = [0u8; 48];
    z.serialize_compressed(&mut out[..]).unwrap();
    G1El { b: out }
}

/// Relies on `ark_ec::AffineRepr::is_zero`: whether the point is the group
/// identity.
#[verifier::external_body]
pub fn g1_is_identity(p: &G1El) -> (r: bool)
    ensures
        r == g1_is_id_of(p@),
{
    let x = G1Affine::deserialize_compressed(&p.b[..]).unwrap();
    x.is_zero()
}

/// Relies on `ark_std::UniformRand` for the first group: a uniformly random
/// point; nothing is promised of the value.
#[verifier::external_body]
pub fn g1_random(rng: &mut StdRng) -> (r: G1El)
    ensures
        r@.len() == 48,
{
    let p = G1Projective::rand(rng).into_affine();
    let mut out = [0u8; 48];
    p.serialize_compressed(&mut out[..]).unwrap();
    G1El { b: out }
}

} // verus!
