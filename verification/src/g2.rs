//! Elements of the second pairing group, carried as their canonical 96-byte
//! compressed encodings, behind the same kind of trusted wrappers as the
//! first group.

use vstd::prelude::*;

use ark_std::rand::rngs::StdRng;
use crate::scalar::Scalar;
use ark_bls12_381::{Fr, G2Affine, G2Projective};
use ark_ec::{AffineRepr, CurveGroup};
use ark_serialize::{CanonicalDeserialize, CanonicalSerialize};
use ark_std::UniformRand;

verus! {

/// Holds iff `b` is the canonical compressed encoding of a point of the
/// second group.
pub uninterp spec fn g2_valid(b: Seq<u8>) -> bool;

/// The encoding of the point obtained by try-and-increment hashing of `msg`
/// into the second group.
pub uninterp spec fn g2_hash_of(msg: Seq<u8>) -> Seq<u8>;

/// The encoding of the sum of the points encoded by `a` and `b`.
pub uninterp spec fn g2_add_of(a: Seq<u8>, b: Seq<u8>) -> Seq<u8>;

/// The encoding of the point encoded by `p` multiplied by the scalar encoded
/// by `s`.
pub uninterp spec fn g2_mul_of(p: Seq<u8>, s: Seq<u8>) -> Seq<u8>;

/// Whether `p` encodes the group identity.
pub uninterp spec fn g2_is_id_of(p: Seq<u8>) -> bool;

/// A point of the second group, as its canonical compressed encoding. Every
/// value of this type decodes successfully; the trusted constructors below
/// keep it so.
#[derive(Clone, Copy, Debug)]
pub struct G2El {
    b: [u8; 96],
}

impl View for G2El {
    type V = Seq<u8>;

    closed spec fn view(&self) -> Seq<u8> {
        self.b@
    }
}

impl G2El {
    /// Every constructed point carries a canonical encoding; a caller
    /// learns this through `use_type_invariant`.
    #[verifier::type_invariant]
    pub open spec fn inv(self) -> bool {
        g2_valid(self@)
    }
}

impl PartialEq for G2El {
    fn eq(&self, other: &G2El) -> (r: bool) {
        g2_bytes_eq(&self.b, &other.b)
    }
}

impl Eq for G2El {}

impl vstd::std_specs::cmp::PartialEqSpecImpl for G2El {
    open spec fn obeys_eq_spec() -> bool {
        true
    }

    open spec fn eq_spec(&self, other: &G2El) -> bool {
        self@ == other@
    }
}

/// Byte-for-byte comparison of two 96-byte arrays.
pub fn g2_bytes_eq(a: &[u8; 96], b: &[u8; 96]) -> (r: bool)
    ensures
        r == (a@ == b@),
{
    let mut i: usize = 0;
    while i < 96
        invariant
            i <= 96,
            forall|j: int| 0 <= j < i ==> a@[j] == b@[j],
        decreases 96 - i,
    {
        if a[i] != b[i] {
            assert(a@ != b@);
            return false;
        }
        i += 1;
    }
    assert(a@ =~= b@);
    true
}

/// Appends the 96 bytes of a point's encoding to `out`.
pub fn g2_append(out: &mut Vec<u8>, a: &G2El)
    ensures
        final(out)@ == old(out)@ + a@,
{
    let mut i: usize = 0;
    while i < 96
        invariant
            i <= 96,
            out@ == old(out)@ + a@.take(i as int),
        decreases 96 - i,
    {
        out.push(a.b[i]);
        i += 1;
    }
    assert(a@.take(96) =~= a@);
}

/// Every point's encoding is 96 bytes long.
pub proof fn lemma_g2_len(p: G2El)
    ensures
        p@.len() == 96,
{
}

/// Borrows a point's canonical encoding.
pub fn g2_bytes(p: &G2El) -> (r: &[u8; 96])
    ensures
        r@ == p@,
{
    &p.b
}

/// Relies on `ark_serialize::CanonicalDeserialize` for `G2Affine`. The
/// accepted byte strings are kept as they are, never re-encoded, so two
/// accepted encodings compare equal only byte for byte; non-canonical
/// spellings of the identity that the deserializer tolerates simply compare
/// unequal to the canonical ones.
#[verifier::external_body]
pub fn g2_decode(b: &Vec<u8>, off: usize) -> (r: Option<G2El>)
    requires
        off + 96 <= b@.len(),
    ensures
        r is Some <==> g2_valid(b@.subrange(off as int, off as int + 96)),
        r matches Some(p) ==> p@ == b@.subrange(off as int, off as int + 96),
{
    let mut arr = [0u8; 96];
    arr.copy_from_slice(&b[off..off + 96]);
    match G2Affine::deserialize_compressed(&arr[..]) {
        Ok(_) => Some(G2El { b: arr }),
        Err(_) => None,
    }
}

/// Relies on
/// `dock_crypto_utils::hashing_utils::projective_group_elem_from_try_and_incr`
/// with Blake2b: the point is a function of the hashed bytes alone.
#[verifier::external_body]
pub fn g2_from_digest(msg: &Vec<u8>) -> (r: G2El)
    ensures
        r@ == g2_hash_of(msg@),
{
    let p: G2Projective =
        dock_crypto_utils::hashing_utils::projective_group_elem_from_try_and_incr::<
            G2Affine,
            blake2::Blake2b512,
        >(msg);
    let mut out = [0u8; 96];
    p.into_affine().serialize_compressed(&mut out[..]).unwrap();
    G2El { b: out }
}

/// Relies on group addition of `ark-ec`.
#[verifier::external_body]
pub fn g2_add(a: &G2El, b: &G2El) -> (r: G2El)
    ensures
        r@ == g2_add_of(a@, b@),
{
    let x = G2Affine::deserialize_compressed(&a.b[..]).unwrap();
    let y = G2Affine::deserialize_compressed(&b.b[..]).unwrap();
    let z = (x + y).into_affine();
    let mut out = [0u8; 96];
    z.serialize_compressed(&mut out[..]).unwrap();
    G2El { b: out }
}

/// Relies on scalar multiplication of `ark-ec`.
#[verifier::external_body]
pub fn g2_mul(p: &G2El, s: &Scalar) -> (r: G2El)
    ensures
        r@ == g2_mul_of(p@, s@),
{
    let x = G2Affine::deserialize_compressed(&p.b[..]).unwrap();
    let f = Fr::deserialize_compressed(&crate::scalar::scalar_bytes(s)[..]).unwrap();
    let z = (x * f).into_affine();
    let mut out = [0u8; 96];
    z.serialize_compressed(&mut out[..]).unwrap();
    G2El { b: out }
}

/// Relies on `ark_ec::AffineRepr::is_zero`: whether the point is the group
/// identity.
#[verifier::external_body]
pub fn g2_is_identity(p: &G2El) -> (r: bool)
    ensures
        r == g2_is_id_of(p@),
{
    let x = G2Affine::deserialize_compressed(&p.b[..]).unwrap();
    x.is_zero()
}

/// Relies on `ark_std::UniformRand` for the second group: a uniformly random
/// point; nothing is promised of the value.
#[verifier::external_body]
pub fn g2_random(rng: &mut StdRng) -> (r: G2El)
    ensures
        r@.len() == 96,
{
    let p = G2Projective::rand(rng).into_affine();
    let mut out = [0u8; 96];
    p.serialize_compressed(&mut out[..]).unwrap();
    G2El { b: out }
}

} // verus!
