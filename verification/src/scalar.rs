//! Scalars of the pairing group's prime field, carried as their canonical
//! 32-byte little-endian encodings. All field arithmetic is done by `ark-ff`
//! behind trusted wrappers; every wrapper decodes its arguments, applies one
//! field operation and re-encodes the result, so each contract names the
//! composite byte-level function.

use vstd::prelude::*;

use ark_std::rand::rngs::StdRng;
use ark_bls12_381::Fr;
use ark_ff::Field;
use ark_serialize::{CanonicalDeserialize, CanonicalSerialize};
use ark_std::UniformRand;

verus! {

/// Holds iff `b` is the canonical encoding of a field element, i.e.
/// `ark_serialize` decoding of `b` as an `Fr` succeeds.
pub uninterp spec fn fr_valid(b: Seq<u8>) -> bool;

/// The canonical encoding of the sum of the field elements encoded by `a` and `b`.
pub uninterp spec fn fr_add_of(a: Seq<u8>, b: Seq<u8>) -> Seq<u8>;

/// The canonical encoding of the product of the field elements encoded by `a` and `b`.
pub uninterp spec fn fr_mul_of(a: Seq<u8>, b: Seq<u8>) -> Seq<u8>;

/// The canonical encoding of the additive inverse of the field element encoded by `a`.
pub uninterp spec fn fr_neg_of(a: Seq<u8>) -> Seq<u8>;

/// The canonical encoding of the multiplicative inverse of the (non-zero)
/// field element encoded by `a`.
pub uninterp spec fn fr_inv_of(a: Seq<u8>) -> Seq<u8>;

/// The canonical encoding of the field element derived from `seed` under the
/// domain-separation tag `dst` by the hash-to-field construction.
pub uninterp spec fn fr_of_seed(dst: Seq<u8>, seed: Seq<u8>) -> Seq<u8>;

/// The canonical encoding of the Fiat-Shamir challenge scalar derived from a
/// transcript by the random-oracle try-and-increment hash.
pub uninterp spec fn fr_of_transcript(b: Seq<u8>) -> Seq<u8>;

/// The canonical encoding of the zero scalar: 32 zero bytes.
pub open spec fn fr_zero_bytes() -> Seq<u8> {
    Seq::new(32, |i: int| 0u8)
}

/// A field scalar, as its canonical 32-byte encoding. Every value of this
/// type decodes successfully; the trusted constructors below keep it so.
#[derive(Clone, Copy, Debug)]
pub struct Scalar {
    b: [u8; 32],
}

impl View for Scalar {
    type V = Seq<u8>;

    closed spec fn view(&self) -> Seq<u8> {
        self.b@
    }
}

impl Scalar {
    /// Every constructed scalar carries a canonical encoding; a caller
    /// learns this through `use_type_invariant`.
    #[verifier::type_invariant]
    pub open spec fn inv(self) -> bool {
        fr_valid(self@)
    }
}

impl PartialEq for Scalar {
    fn eq(&self, other: &Scalar) -> (r: bool) {
        bytes32_eq(&self.b, &other.b)
    }
}

impl Eq for Scalar {}

impl vstd::std_specs::cmp::PartialEqSpecImpl for Scalar {
    open spec fn obeys_eq_spec() -> bool {
        true
    }

    open spec fn eq_spec(&self, other: &Scalar) -> bool {
        self@ == other@
    }
}

/// Every scalar's encoding is 32 bytes long.
pub proof fn lemma_scalar_len(s: Scalar)
    ensures
        s@.len() == 32,
{
}

/// The byte encodings of a list of scalars.
pub open spec fn scalar_reprs(v: Seq<Scalar>) -> Seq<Seq<u8>> {
    v.map_values(|s: Scalar| s@)
}

/// Borrows a scalar's canonical encoding.
pub fn scalar_bytes(s: &Scalar) -> (r: &[u8; 32])
    ensures
        r@ == s@,
{
    &s.b
}

/// Byte-for-byte comparison of two 32-byte arrays.
pub fn bytes32_eq(a: &[u8; 32], b: &[u8; 32]) -> (r: bool)
    ensures
        r == (a@ == b@),
{
    let mut i: usize = 0;
    while i < 32
        invariant
            i <= 32,
            forall|j: int| 0 <= j < i ==> a@[j] == b@[j],
        decreases 32 - i,
    {
        if a[i] != b[i] {
            assert(a@ != b@);
            return false;
        }
        i += 1;
    }
    assert(a@ =~= b@);
    true
}

/// Appends the 32 bytes of a scalar's encoding to `out`.
pub fn scalar_append(out: &mut Vec<u8>, a: &Scalar)
    ensures
        final(out)@ == old(out)@ + a@,
{
    let mut i: usize = 0;
    while i < 32
        invariant
            i <= 32,
            out@ == old(out)@ + a@.take(i as int),
        decreases 32 - i,
    {
        out.push(a.b[i]);
        i += 1;
    }
    assert(a@.take(32) =~= a@);
}

/// Relies on `ark_serialize::CanonicalDeserialize` for `Fr`: decoding
/// succeeds exactly on the canonical encodings of field elements, and
/// re-encoding a decoded element gives back the same 32 bytes.
#[verifier::external_body]
pub fn fr_decode(b: &Vec<u8>, off: usize) -> (r: Option<Scalar>)
    requires
        off + 32 <= b@.len(),
    ensures
        r is Some <==> fr_valid(b@.subrange(off as int, off as int + 32)),
        r matches Some(s) ==> s@ == b@.subrange(off as int, off as int + 32),
{
    let mut arr = [0u8; 32];
    arr.copy_from_slice(&b[off..off + 32]);
    match Fr::deserialize_compressed(&arr[..]) {
        Ok(_) => Some(Scalar { b: arr }),
        Err(_) => None,
    }
}

/// Relies on `dock_crypto_utils::hashing_utils::hash_to_field` with Blake2b:
/// the derived element is a function of the tag and seed bytes alone.
#[verifier::external_body]
pub fn fr_from_seed(dst: &Vec<u8>, seed: &Vec<u8>) -> (r: Scalar)
    ensures
        r@ == fr_of_seed(dst@, seed@),
{
    let f: Fr = dock_crypto_utils::hashing_utils::hash_to_field::<Fr, blake2::Blake2b512>(
        dst,
        seed,
    );
    let mut out = [0u8; 32];
    f.serialize_compressed(&mut out[..]).unwrap();
    Scalar { b: out }
}

/// Relies on `schnorr_pok::compute_random_oracle_challenge` with Blake2b: the
/// challenge scalar is a function of the transcript bytes alone.
#[verifier::external_body]
pub fn fr_challenge(bytes: &Vec<u8>) -> (r: Scalar)
    ensures
        r@ == fr_of_transcript(bytes@),
{
    let f: Fr = schnorr_pok::compute_random_oracle_challenge::<Fr, blake2::Blake2b512>(bytes);
    let mut out = [0u8; 32];
    f.serialize_compressed(&mut out[..]).unwrap();
    Scalar { b: out }
}

/// Relies on field addition of `ark-ff`.
#[verifier::external_body]
pub fn fr_add(a: &Scalar, b: &Scalar) -> (r: Scalar)
    ensures
        r@ == fr_add_of(a@, b@),
{
    let x = Fr::deserialize_compressed(&a.b[..]).unwrap();
    let y = Fr::deserialize_compressed(&b.b[..]).unwrap();
    let z = x + y;
    let mut out = [0u8; 32];
    z.serialize_compressed(&mut out[..]).unwrap();
    Scalar { b: out }
}

/// Relies on field multiplication of `ark-ff`.
#[verifier::external_body]
pub fn fr_mul(a: &Scalar, b: &Scalar) -> (r: Scalar)
    ensures
        r@ == fr_mul_of(a@, b@),
{
    let x = Fr::deserialize_compressed(&a.b[..]).unwrap();
    let y = Fr::deserialize_compressed(&b.b[..]).unwrap();
    let z = x * y;
    let mut out = [0u8; 32];
    z.serialize_compressed(&mut out[..]).unwrap();
    Scalar { b: out }
}

/// Relies on field negation of `ark-ff`.
#[verifier::external_body]
pub fn fr_neg(a: &Scalar) -> (r: Scalar)
    ensures
        r@ == fr_neg_of(a@),
{
    let x = Fr::deserialize_compressed(&a.b[..]).unwrap();
    let z = -x;
    let mut out = [0u8; 32];
    z.serialize_compressed(&mut out[..]).unwrap();
    Scalar { b: out }
}

/// Relies on `ark_ff::Field::inverse`: `None` exactly on the zero element
/// (whose canonical encoding is all-zero bytes).
#[verifier::external_body]
pub fn fr_inverse(a: &Scalar) -> (r: Option<Scalar>)
    ensures
        r is Some <==> a@ != fr_zero_bytes(),
        r matches Some(s) ==> s@ == fr_inv_of(a@),
{
    let x = Fr::deserialize_compressed(&a.b[..]).unwrap();
    match x.inverse() {
        Some(z) => {
            let mut out = [0u8; 32];
            z.serialize_compressed(&mut out[..]).unwrap();
            Some(Scalar { b: out })
        },
        None => None,
    }
}

/// Relies on `ark_std::UniformRand` for `Fr`: a uniformly random field
/// element; nothing is promised of the value.
#[verifier::external_body]
pub fn fr_random(rng: &mut StdRng) -> (r: Scalar)
    ensures
        r@.len() == 32,
{
    let f = Fr::rand(rng);
    let mut out = [0u8; 32];
    f.serialize_compressed(&mut out[..]).unwrap();
    Scalar { b: out }
}

} // verus!
