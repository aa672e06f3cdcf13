//! Canonical encodings of every persisted type: key material, signatures
//! and parameters in fixed layouts, and the composition layer's statements,
//! meta-statements, witnesses, proof specifications and proofs in
//! self-delimiting tagged layouts. For the fixed layouts, decoding succeeds
//! exactly on encodings and gives back the value (the round-trip lemmas
//! below); for the composed layouts, whatever a decoder returns re-encodes
//! to exactly the consumed bytes.

use vstd::prelude::*;

use crate::bytes_util::{append_bytes, append_u64_le, u64_le_bytes};
use crate::g1::{g1_decode, g1_valid, G1El};
use crate::g2::{g2_decode, g2_valid, G2El};
use crate::keys::{KeypairG2, PublicKeyG2, SecretKey};
use crate::params::SignatureParamsG1;
use crate::pok_sig::{append_revealed, h_bytes, revealed_bytes, PoKOfSignatureG1Proof};
use crate::proof_spec::ProofSpec;
use crate::scalar::{fr_decode, fr_valid, scalar_append, Scalar};
use crate::sig::SignatureG1;
use crate::statements::{EqualWitnesses, MetaStatement, SetupParams, Statement, Witness};
use crate::transcript::StatementProof;
use crate::composition::Proof;

verus! {

/// The encoding of a secret key: the scalar's 32 bytes.
pub open spec fn spec_sk_enc(sk: SecretKey) -> Seq<u8> {
    sk.0@
}

/// Encodes a secret key; the output always decodes.
pub fn sk_encode(sk: &SecretKey) -> (r: Vec<u8>)
    ensures
        r@ == spec_sk_enc(*sk),
        r@.len() == 32 && fr_valid(r@),
{
    proof {
        use_type_invariant(&sk.0);
        crate::scalar::lemma_scalar_len(sk.0);
    }
    let mut out: Vec<u8> = Vec::new();
    scalar_append(&mut out, &sk.0);
    assert(out@ =~= spec_sk_enc(*sk));
    out
}

/// Decodes a secret key: succeeds exactly on 32-byte canonical scalar
/// encodings, and returns the encoded key.
pub fn sk_decode(b: &Vec<u8>) -> (r: Option<SecretKey>)
    ensures
        r is Some <==> b@.len() == 32 && fr_valid(b@),
        r matches Some(sk) ==> spec_sk_enc(sk) == b@,
{
    if b.len() != 32 {
        return None;
    }
    match fr_decode(b, 0) {
        Some(s) => {
            proof {
                assert(b@.subrange(0, 32) =~= b@);
            }
            Some(SecretKey(s))
        },
        None => {
            proof {
                assert(b@.subrange(0, 32) =~= b@);
            }
            None
        },
    }
}

/// Decoding an encoded secret key gives back the key.
pub proof fn lemma_sk_round_trip(sk: SecretKey, b: Seq<u8>)
    requires
        fr_valid(sk.0@),
        b == spec_sk_enc(sk),
    ensures
        b.len() == 32 && fr_valid(b),
        forall|sk2: SecretKey| spec_sk_enc(sk2) == b ==> sk2.0@ == sk.0@,
{
    crate::scalar::lemma_scalar_len(sk.0);
}

/// The encoding of a public key: the point's 96 bytes.
pub open spec fn spec_pk_enc(pk: PublicKeyG2) -> Seq<u8> {
    pk.0@
}

/// Encodes a public key; the output always decodes.
pub fn pk_encode(pk: &PublicKeyG2) -> (r: Vec<u8>)
    ensures
        r@ == spec_pk_enc(*pk),
        r@.len() == 96 && g2_valid(r@),
{
    proof {
        use_type_invariant(&pk.0);
        crate::g2::lemma_g2_len(pk.0);
    }
    let mut out: Vec<u8> = Vec::new();
    crate::g2::g2_append(&mut out, &pk.0);
    assert(out@ =~= spec_pk_enc(*pk));
    out
}

/// Decodes a public key: succeeds exactly on 96-byte canonical point
/// encodings, and returns the encoded key.
pub fn pk_decode(b: &Vec<u8>) -> (r: Option<PublicKeyG2>)
    ensures
        r is Some <==> b@.len() == 96 && g2_valid(b@),
        r matches Some(pk) ==> spec_pk_enc(pk) == b@,
{
    if b.len() != 96 {
        return None;
    }
    let r = g2_decode(b, 0);
    proof {
        assert(b@.subrange(0, 96) =~= b@);
    }
    match r {
        Some(p) => Some(PublicKeyG2(p)),
        None => None,
    }
}

/// Decoding an encoded public key gives back the key.
pub proof fn lemma_pk_round_trip(pk: PublicKeyG2, b: Seq<u8>)
    requires
        g2_valid(pk.0@),
        b == spec_pk_enc(pk),
    ensures
        b.len() == 96 && g2_valid(b),
        forall|pk2: PublicKeyG2| spec_pk_enc(pk2) == b ==> pk2.0@ == pk.0@,
{
    crate::g2::lemma_g2_len(pk.0);
}

/// The encoding of a signature: `A`, then `e`, then `s`.
pub open spec fn spec_sig_enc(sig: SignatureG1) -> Seq<u8> {
    sig.a@ + sig.e@ + sig.s@
}

/// Encodes a signature; the output always decodes.
pub fn sig_encode(sig: &SignatureG1) -> (r: Vec<u8>)
    ensures
        r@ == spec_sig_enc(*sig),
        spec_sig_decodable(r@),
{
    proof {
        use_type_invariant(&sig.a);
        use_type_invariant(&sig.e);
        use_type_invariant(&sig.s);
        crate::g1::lemma_g1_len(sig.a);
        crate::scalar::lemma_scalar_len(sig.e);
        crate::scalar::lemma_scalar_len(sig.s);
    }
    let mut out: Vec<u8> = Vec::new();
    crate::g1::g1_append(&mut out, &sig.a);
    scalar_append(&mut out, &sig.e);
    scalar_append(&mut out, &sig.s);
    assert(out@ =~= spec_sig_enc(*sig));
    assert(out@.subrange(0, 48) =~= sig.a@);
    assert(out@.subrange(48, 80) =~= sig.e@);
    assert(out@.subrange(80, 112) =~= sig.s@);
    out
}

/// Whether `b` is the encoding of some signature.
pub open spec fn spec_sig_decodable(b: Seq<u8>) -> bool {
    &&& b.len() == 112
    &&& g1_valid(b.subrange(0, 48))
    &&& fr_valid(b.subrange(48, 80))
    &&& fr_valid(b.subrange(80, 112))
}

/// Decodes a signature: succeeds exactly on 112-byte strings whose three
/// components decode, and returns the encoded triple.
pub fn sig_decode(b: &Vec<u8>) -> (r: Option<SignatureG1>)
    ensures
        r is Some <==> spec_sig_decodable(b@),
        r matches Some(sig) ==> spec_sig_enc(sig) == b@,
{
    if b.len() != 112 {
        return None;
    }
    let a = g1_decode(b, 0);
    let e = fr_decode(b, 48);
    let s = fr_decode(b, 80);
    match (a, e, s) {
        (Some(a), Some(e), Some(s)) => {
            let sig = SignatureG1 { a, e, s };
            proof {
                assert(spec_sig_enc(sig) =~= b@);
            }
            Some(sig)
        },
        _ => None,
    }
}

/// Decoding an encoded signature gives back the signature, component for
/// component.
pub proof fn lemma_sig_round_trip(sig: SignatureG1, b: Seq<u8>)
    requires
        g1_valid(sig.a@),
        fr_valid(sig.e@),
        fr_valid(sig.s@),
        b == spec_sig_enc(sig),
    ensures
        spec_sig_decodable(b),
        forall|s2: SignatureG1|
            spec_sig_enc(s2) == b && s2.a@.len() == 48 && s2.e@.len() == 32 && s2.s@.len() == 32
                ==> s2.a@ == sig.a@ && s2.e@ == sig.e@ && s2.s@ == sig.s@,
{
    crate::g1::lemma_g1_len(sig.a);
    crate::scalar::lemma_scalar_len(sig.e);
    crate::scalar::lemma_scalar_len(sig.s);
    assert(b.subrange(0, 48) =~= sig.a@);
    assert(b.subrange(48, 80) =~= sig.e@);
    assert(b.subrange(80, 112) =~= sig.s@);
    assert forall|s2: SignatureG1|
        spec_sig_enc(s2) == b && s2.a@.len() == 48 && s2.e@.len() == 32 && s2.s@.len() == 32
            implies s2.a@ == sig.a@ && s2.e@ == sig.e@ && s2.s@ == sig.s@ by {
        assert(s2.a@ =~= b.subrange(0, 48));
        assert(s2.e@ =~= b.subrange(48, 80));
        assert(s2.s@ =~= b.subrange(80, 112));
    }
}

/// The encoding of a keypair: the secret key, then the public key.
pub open spec fn spec_keypair_enc(kp: KeypairG2) -> Seq<u8> {
    kp.secret_key.0@ + kp.public_key.0@
}

/// Encodes a keypair; the output always decodes.
pub fn keypair_encode(kp: &KeypairG2) -> (r: Vec<u8>)
    ensures
        r@ == spec_keypair_enc(*kp),
        r@.len() == 128 && fr_valid(r@.subrange(0, 32)) && g2_valid(r@.subrange(32, 128)),
{
    proof {
        use_type_invariant(&kp.secret_key.0);
        use_type_invariant(&kp.public_key.0);
        crate::scalar::lemma_scalar_len(kp.secret_key.0);
        crate::g2::lemma_g2_len(kp.public_key.0);
    }
    let mut out: Vec<u8> = Vec::new();
    scalar_append(&mut out, &kp.secret_key.0);
    crate::g2::g2_append(&mut out, &kp.public_key.0);
    assert(out@ =~= spec_keypair_enc(*kp));
    assert(out@.subrange(0, 32) =~= kp.secret_key.0@);
    assert(out@.subrange(32, 128) =~= kp.public_key.0@);
    out
}

/// Decodes a keypair.
pub fn keypair_decode(b: &Vec<u8>) -> (r: Option<KeypairG2>)
    ensures
        r is Some <==> b@.len() == 128 && fr_valid(b@.subrange(0, 32)) && g2_valid(
            b@.subrange(32, 128),
        ),
        r matches Some(kp) ==> spec_keypair_enc(kp) == b@,
{
    if b.len() != 128 {
        return None;
    }
    let s = fr_decode(b, 0);
    let p = g2_decode(b, 32);
    match (s, p) {
        (Some(s), Some(p)) => {
            let kp = KeypairG2 { secret_key: SecretKey(s), public_key: PublicKeyG2(p) };
            proof {
                assert(spec_keypair_enc(kp) =~= b@);
            }
            Some(kp)
        },
        _ => None,
    }
}

/// Decoding an encoded keypair gives back the keypair.
pub proof fn lemma_keypair_round_trip(kp: KeypairG2, b: Seq<u8>)
    requires
        fr_valid(kp.secret_key.0@),
        g2_valid(kp.public_key.0@),
        b == spec_keypair_enc(kp),
    ensures
        b.len() == 128 && fr_valid(b.subrange(0, 32)) && g2_valid(b.subrange(32, 128)),
        forall|k2: KeypairG2|
            spec_keypair_enc(k2) == b && k2.secret_key.0@.len() == 32 && k2.public_key.0@.len()
                == 96 ==> k2.secret_key.0@ == kp.secret_key.0@ && k2.public_key.0@
                == kp.public_key.0@,
{
    crate::scalar::lemma_scalar_len(kp.secret_key.0);
    crate::g2::lemma_g2_len(kp.public_key.0);
    assert(b.subrange(0, 32) =~= kp.secret_key.0@);
    assert(b.subrange(32, 128) =~= kp.public_key.0@);
    assert forall|k2: KeypairG2|
        spec_keypair_enc(k2) == b && k2.secret_key.0@.len() == 32 && k2.public_key.0@.len() == 96
            implies k2.secret_key.0@ == kp.secret_key.0@ && k2.public_key.0@ == kp.public_key.0@ by {
        assert(k2.secret_key.0@ =~= b.subrange(0, 32));
        assert(k2.public_key.0@ =~= b.subrange(32, 128));
    }
}

/// The encoding of signature parameters: the message count, then `g1`,
/// `g2`, `h_0`, then each `h_i`.
pub open spec fn spec_params_enc(p: SignatureParamsG1) -> Seq<u8> {
    u64_le_bytes(p.h@.len() as u64) + p.g1@ + p.g2@ + p.h_0@ + h_bytes(p.h@)
}

/// Encodes signature parameters; every field of the input is a canonical
/// encoding, so the output always decodes.
pub fn params_encode(p: &SignatureParamsG1) -> (r: Vec<u8>)
    ensures
        r@ == spec_params_enc(*p),
        spec_params_fields_valid(*p),
{
    proof {
        use_type_invariant(&p.g1);
        use_type_invariant(&p.g2);
        use_type_invariant(&p.h_0);
    }
    let mut out: Vec<u8> = Vec::new();
    append_u64_le(&mut out, p.h.len() as u64);
    crate::g1::g1_append(&mut out, &p.g1);
    crate::g2::g2_append(&mut out, &p.g2);
    crate::g1::g1_append(&mut out, &p.h_0);
    let n = p.h.len();
    let mut i: usize = 0;
    while i < n
        invariant
            i <= n,
            n == p.h@.len(),
            out@ == u64_le_bytes(n as u64) + p.g1@ + p.g2@ + p.h_0@ + h_bytes(p.h@.take(i as int)),
            forall|j: int| 0 <= j < i ==> crate::g1::g1_valid((#[trigger] p.h@[j])@),
        decreases n - i,
    {
        let hi = &p.h[i];
        proof {
            use_type_invariant(hi);
        }
        crate::g1::g1_append(&mut out, hi);
        proof {
            assert(p.h@.take(i + 1).drop_last() =~= p.h@.take(i as int));
            assert(p.h@.take(i + 1).last() == p.h@[i as int]);
        }
        i += 1;
    }
    assert(p.h@.take(n as int) =~= p.h@);
    out
}

/// The concatenation of point encodings is 48 bytes per point.
proof fn lemma_h_bytes_len(h: Seq<G1El>)
    ensures
        h_bytes(h).len() == 48 * h.len(),
    decreases h.len(),
{
    if h.len() > 0 {
        lemma_h_bytes_len(h.drop_last());
        crate::g1::lemma_g1_len(h.last());
    }
}

/// Each point's encoding sits at its fixed slice of the concatenation.
proof fn lemma_h_bytes_index(h: Seq<G1El>, j: int)
    requires
        0 <= j < h.len(),
    ensures
        h[j]@ == h_bytes(h).subrange(48 * j, 48 * j + 48),
    decreases h.len(),
{
    lemma_h_bytes_len(h.drop_last());
    crate::g1::lemma_g1_len(h.last());
    if j == h.len() - 1 {
        assert(h[j]@ =~= h_bytes(h).subrange(48 * j, 48 * j + 48));
    } else {
        lemma_h_bytes_index(h.drop_last(), j);
        assert(h.drop_last()[j] == h[j]);
        assert(h_bytes(h.drop_last()).subrange(48 * j, 48 * j + 48) =~= h_bytes(h).subrange(
            48 * j,
            48 * j + 48,
        ));
    }
}

/// The fixed layout of a parameter encoding: its length and where each
/// field sits.
proof fn lemma_params_enc_shape(p: SignatureParamsG1)
    ensures
        spec_params_enc(p).len() == 200 + 48 * p.h@.len(),
        spec_params_enc(p).subrange(0, 8) == u64_le_bytes(p.h@.len() as u64),
        spec_params_enc(p).subrange(8, 56) == p.g1@,
        spec_params_enc(p).subrange(56, 152) == p.g2@,
        spec_params_enc(p).subrange(152, 200) == p.h_0@,
        forall|j: int|
            0 <= j < p.h@.len() ==> (#[trigger] p.h@[j])@ == spec_params_enc(p).subrange(
                200 + 48 * j,
                200 + 48 * j + 48,
            ),
{
    crate::g1::lemma_g1_len(p.g1);
    crate::g2::lemma_g2_len(p.g2);
    crate::g1::lemma_g1_len(p.h_0);
    lemma_h_bytes_len(p.h@);
    assert(spec_params_enc(p).subrange(0, 8) =~= u64_le_bytes(p.h@.len() as u64));
    assert(spec_params_enc(p).subrange(8, 56) =~= p.g1@);
    assert(spec_params_enc(p).subrange(56, 152) =~= p.g2@);
    assert(spec_params_enc(p).subrange(152, 200) =~= p.h_0@);
    assert forall|j: int|
        0 <= j < p.h@.len() implies (#[trigger] p.h@[j])@ == spec_params_enc(p).subrange(
        200 + 48 * j,
        200 + 48 * j + 48,
    ) by {
        lemma_h_bytes_index(p.h@, j);
        assert(h_bytes(p.h@).subrange(48 * j, 48 * j + 48) =~= spec_params_enc(p).subrange(
            200 + 48 * j,
            200 + 48 * j + 48,
        ));
    }
}

/// Whether every field of `p` carries a canonical encoding; every value
/// built by this library does.
pub open spec fn spec_params_fields_valid(p: SignatureParamsG1) -> bool {
    &&& crate::g1::g1_valid(p.g1@)
    &&& crate::g2::g2_valid(p.g2@)
    &&& crate::g1::g1_valid(p.h_0@)
    &&& forall|j: int| 0 <= j < p.h@.len() ==> crate::g1::g1_valid((#[trigger] p.h@[j])@)
}

/// Decodes signature parameters: reads the count, the three fixed elements
/// and `count` further bases, requiring the byte string to end there.
/// Succeeds on every parameter encoding.
pub fn params_decode(b: &Vec<u8>) -> (r: Option<SignatureParamsG1>)
    ensures
        r matches Some(p) ==> spec_params_enc(p) == b@,
        forall|p: SignatureParamsG1|
            spec_params_fields_valid(p) && b@ == #[trigger] spec_params_enc(p) ==> r is Some,
{
    // The length must be exactly 8 + 48 + 96 + 48 + count * 48, and the
    // first eight bytes must spell the count.
    if b.len() < 200 {
        proof {
            assert forall|p: SignatureParamsG1|
                spec_params_fields_valid(p) && b@ == #[trigger] spec_params_enc(p)
                implies false by {
                lemma_params_enc_shape(p);
            }
        }
        return None;
    }
    if (b.len() - 200) % 48 != 0 {
        proof {
            assert forall|p: SignatureParamsG1|
                spec_params_fields_valid(p) && b@ == #[trigger] spec_params_enc(p)
                implies false by {
                lemma_params_enc_shape(p);
                assert((48 * (p.h@.len() as int)) % 48 == 0) by (nonlinear_arith);
            }
        }
        return None;
    }
    let count_us = (b.len() - 200) / 48;
    proof {
        assert(b@.len() == 200 + count_us * 48) by (nonlinear_arith)
            requires
                b@.len() >= 200,
                ((b@.len() - 200) as int) % 48 == 0,
                count_us == ((b@.len() - 200) as int) / 48,
        ;
    }
    let mut prefix: Vec<u8> = Vec::new();
    append_u64_le(&mut prefix, count_us as u64);
    let mut k: usize = 0;
    while k < 8
        invariant
            k <= 8,
            b@.len() == 200 + count_us * 48,
            prefix@ == u64_le_bytes(count_us as u64),
            forall|j: int| 0 <= j < k ==> prefix@[j] == b@[j],
        decreases 8 - k,
    {
        if prefix[k] != b[k] {
            proof {
                assert forall|p: SignatureParamsG1|
                    spec_params_fields_valid(p) && b@ == #[trigger] spec_params_enc(p)
                    implies false by {
                    lemma_params_enc_shape(p);
                    assert(p.h@.len() == count_us) by (nonlinear_arith)
                        requires
                            b@.len() == 200 + count_us * 48,
                            b@.len() == 200 + 48 * p.h@.len(),
                    ;
                    assert(b@[k as int] == b@.subrange(0, 8)[k as int]);
                }
            }
            return None;
        }
        k += 1;
    }
    proof {
        assert(u64_le_bytes(count_us as u64) =~= b@.subrange(0, 8));
    }
    let g1 = match crate::g1::g1_decode(b, 8) {
        Some(v) => v,
        None => {
            proof {
                assert forall|p: SignatureParamsG1|
                    spec_params_fields_valid(p) && b@ == #[trigger] spec_params_enc(p)
                    implies false by {
                    lemma_params_enc_shape(p);
                }
            }
            return None;
        },
    };
    let g2 = match g2_decode(b, 56) {
        Some(v) => v,
        None => {
            proof {
                assert forall|p: SignatureParamsG1|
                    spec_params_fields_valid(p) && b@ == #[trigger] spec_params_enc(p)
                    implies false by {
                    lemma_params_enc_shape(p);
                }
            }
            return None;
        },
    };
    let h_0 = match crate::g1::g1_decode(b, 152) {
        Some(v) => v,
        None => {
            proof {
                assert forall|p: SignatureParamsG1|
                    spec_params_fields_valid(p) && b@ == #[trigger] spec_params_enc(p)
                    implies false by {
                    lemma_params_enc_shape(p);
                }
            }
            return None;
        },
    };
    proof {
        broadcast use vstd::std_specs::vec::axiom_spec_len;

        assert(b@.len() == b.len());
    }
    let mut h: Vec<G1El> = Vec::new();
    let mut i: usize = 0;
    while i < count_us
        invariant
            i <= count_us,
            b@.len() == 200 + count_us * 48,
            b@.len() <= usize::MAX,
            h@.len() == i,
            forall|j: int|
                0 <= j < i ==> (#[trigger] h@[j])@ == b@.subrange(200 + 48 * j, 200 + 48 * j + 48),
        decreases count_us - i,
    {
        assert(200 + 48 * (i as int) + 48 <= b@.len()) by (nonlinear_arith)
            requires
                i < count_us,
                b@.len() == 200 + count_us * 48,
        ;
        let off = 200 + 48 * i;
        match crate::g1::g1_decode(b, off) {
            Some(v) => {
                h.push(v);
            },
            None => {
                proof {
                    assert forall|p: SignatureParamsG1|
                        spec_params_fields_valid(p) && b@ == #[trigger] spec_params_enc(p)
                        implies false by {
                        lemma_params_enc_shape(p);
                        assert(p.h@.len() == count_us) by (nonlinear_arith)
                            requires
                                b@.len() == 200 + count_us * 48,
                                b@.len() == 200 + 48 * p.h@.len(),
                        ;
                        assert(p.h@[i as int]@ == b@.subrange(
                            200 + 48 * (i as int),
                            200 + 48 * (i as int) + 48,
                        ));
                    }
                }
                return None;
            },
        }
        i += 1;
    }
    let p = SignatureParamsG1 { g1, g2, h_0, h };
    // Reassemble the encoding from the decoded pieces.
    proof {
        lemma_params_reassemble(p, b@, count_us as int);
    }
    Some(p)
}

/// If every piece of `b` matches the fields of `p`, then `b` is `p`'s
/// encoding.
proof fn lemma_params_reassemble(p: SignatureParamsG1, b: Seq<u8>, count: int)
    requires
        count >= 0,
        b.len() == 200 + count * 48,
        p.h@.len() == count,
        u64_le_bytes(p.h@.len() as u64) == b.subrange(0, 8),
        p.g1@ == b.subrange(8, 56),
        p.g2@ == b.subrange(56, 152),
        p.h_0@ == b.subrange(152, 200),
        forall|j: int|
            0 <= j < count ==> (#[trigger] p.h@[j])@ == b.subrange(200 + 48 * j, 200 + 48 * j + 48),
    ensures
        spec_params_enc(p) == b,
{
    lemma_h_bytes_concat(p.h@, b, 200);
    assert(spec_params_enc(p) =~= b);
}

/// `h_bytes` of a list whose entries are consecutive 48-byte slices of `b`
/// starting at `off` is the corresponding slice of `b`.
proof fn lemma_h_bytes_concat(h: Seq<G1El>, b: Seq<u8>, off: int)
    requires
        0 <= off,
        off + 48 * h.len() <= b.len(),
        forall|j: int|
            0 <= j < h.len() ==> (#[trigger] h[j])@ == b.subrange(off + 48 * j, off + 48 * j + 48),
    ensures
        h_bytes(h) == b.subrange(off, off + 48 * h.len()),
    decreases h.len(),
{
    if h.len() == 0 {
        assert(h_bytes(h) =~= b.subrange(off, off));
    } else {
        let n = h.len() as int;
        lemma_h_bytes_concat(h.drop_last(), b, off);
        assert(h.drop_last().len() == n - 1);
        assert(h.last()@ == b.subrange(off + 48 * (n - 1), off + 48 * (n - 1) + 48));
        assert(h_bytes(h) == h_bytes(h.drop_last()) + h.last()@);
        assert(b.subrange(off, off + 48 * n) =~= b.subrange(off, off + 48 * (n - 1)) + b.subrange(
            off + 48 * (n - 1),
            off + 48 * n,
        ));
    }
}

/// Decoding an encoded parameter set gives back the parameters, element
/// for element.
pub proof fn lemma_params_round_trip(p: SignatureParamsG1, b: Seq<u8>)
    requires
        spec_params_fields_valid(p),
        b == spec_params_enc(p),
    ensures
        forall|p2: SignatureParamsG1|
            #[trigger] spec_params_enc(p2) == b ==> p2.g1@ == p.g1@ && p2.g2@ == p.g2@ && p2.h_0@
                == p.h_0@ && crate::g1::g1_reprs(p2.h@) == crate::g1::g1_reprs(p.h@),
{
    lemma_params_enc_shape(p);
    assert forall|p2: SignatureParamsG1|
        #[trigger] spec_params_enc(p2) == b implies p2.g1@ == p.g1@ && p2.g2@ == p.g2@ && p2.h_0@
        == p.h_0@ && crate::g1::g1_reprs(p2.h@) == crate::g1::g1_reprs(p.h@) by {
        lemma_params_enc_shape(p2);
        assert(p2.h@.len() == p.h@.len()) by (nonlinear_arith)
            requires
                200 + 48 * p2.h@.len() == 200 + 48 * p.h@.len(),
        ;
        assert forall|j: int|
            0 <= j < p.h@.len() implies crate::g1::g1_reprs(p2.h@)[j] == crate::g1::g1_reprs(
            p.h@,
        )[j] by {
            assert(p2.h@[j]@ == b.subrange(200 + 48 * j, 200 + 48 * j + 48));
            assert(p.h@[j]@ == b.subrange(200 + 48 * j, 200 + 48 * j + 48));
        }
        assert(crate::g1::g1_reprs(p2.h@) =~= crate::g1::g1_reprs(p.h@));
    }
}


// ---------------------------------------------------------------------------
// Wire formats of the composition layer: statements, meta-statements,
// witnesses, proof specifications and proofs. Every encoding below is
// self-delimiting (kind tags and 64-bit counts), so composites concatenate
// their parts. The decoders are cursors: when one returns a value, the
// consumed bytes are exactly that value's encoding.
// ---------------------------------------------------------------------------

/// Reads a little-endian 64-bit count.
fn read_u64(b: &Vec<u8>, pos: usize) -> (r: Option<(u64, usize)>)
    ensures
        r matches Some((v, end)) ==> pos + 8 == end && end <= b@.len() && u64_le_bytes(v)
            == b@.subrange(pos as int, pos as int + 8),
{
    if pos > b.len() || b.len() - pos < 8 {
        return None;
    }
    let c0 = b[pos] as u64;
    let c1 = b[pos + 1] as u64;
    let c2 = b[pos + 2] as u64;
    let c3 = b[pos + 3] as u64;
    let c4 = b[pos + 4] as u64;
    let c5 = b[pos + 5] as u64;
    let c6 = b[pos + 6] as u64;
    let c7 = b[pos + 7] as u64;
    let v = c0 | (c1 << 8) | (c2 << 16) | (c3 << 24) | (c4 << 32) | (c5 << 40) | (c6 << 48) | (
    c7 << 56);
    proof {
        assert(v & 0xff == c0 && (v >> 8) & 0xff == c1 && (v >> 16) & 0xff == c2 && (v >> 24)
            & 0xff == c3 && (v >> 32) & 0xff == c4 && (v >> 40) & 0xff == c5 && (v >> 48) & 0xff
            == c6 && (v >> 56) & 0xff == c7) by (bit_vector)
            requires
                v == c0 | (c1 << 8) | (c2 << 16) | (c3 << 24) | (c4 << 32) | (c5 << 40) | (c6
                    << 48) | (c7 << 56),
                c0 < 256 && c1 < 256 && c2 < 256 && c3 < 256,
                c4 < 256 && c5 < 256 && c6 < 256 && c7 < 256,
        ;
        assert(u64_le_bytes(v) =~= b@.subrange(pos as int, pos as int + 8));
    }
    Some((v, pos + 8))
}

/// Reads one scalar.
fn read_scalar(b: &Vec<u8>, pos: usize) -> (r: Option<(Scalar, usize)>)
    ensures
        r matches Some((sv, end)) ==> pos + 32 == end && end <= b@.len() && sv@ == b@.subrange(
            pos as int,
            pos as int + 32,
        ),
{
    if pos > b.len() || b.len() - pos < 32 {
        return None;
    }
    match fr_decode(b, pos) {
        Some(sv) => Some((sv, pos + 32)),
        None => None,
    }
}

/// Reads one point of the first group.
fn read_g1(b: &Vec<u8>, pos: usize) -> (r: Option<(G1El, usize)>)
    ensures
        r matches Some((p, end)) ==> pos + 48 == end && end <= b@.len() && p@ == b@.subrange(
            pos as int,
            pos as int + 48,
        ),
{
    if pos > b.len() || b.len() - pos < 48 {
        return None;
    }
    match g1_decode(b, pos) {
        Some(p) => Some((p, pos + 48)),
        None => None,
    }
}

/// Reads one point of the second group.
fn read_g2(b: &Vec<u8>, pos: usize) -> (r: Option<(G2El, usize)>)
    ensures
        r matches Some((p, end)) ==> pos + 96 == end && end <= b@.len() && p@ == b@.subrange(
            pos as int,
            pos as int + 96,
        ),
{
    if pos > b.len() || b.len() - pos < 96 {
        return None;
    }
    match g2_decode(b, pos) {
        Some(p) => Some((p, pos + 96)),
        None => None,
    }
}

/// The concatenation of scalar encodings.
pub open spec fn scalars_bytes(v: Seq<Scalar>) -> Seq<u8>
    decreases v.len(),
{
    if v.len() == 0 {
        Seq::empty()
    } else {
        scalars_bytes(v.drop_last()) + v.last()@
    }
}

/// The encoding of a scalar list: its count, then each scalar.
pub open spec fn spec_scalar_list_enc(v: Seq<Scalar>) -> Seq<u8> {
    u64_le_bytes(v.len() as u64) + scalars_bytes(v)
}

/// Appends a scalar list's encoding to `out`.
fn append_scalar_list(out: &mut Vec<u8>, v: &Vec<Scalar>)
    ensures
        final(out)@ == old(out)@ + spec_scalar_list_enc(v@),
{
    append_u64_le(out, v.len() as u64);
    let n = v.len();
    let mut i: usize = 0;
    while i < n
        invariant
            i <= n,
            n == v@.len(),
            out@ == old(out)@ + u64_le_bytes(n as u64) + scalars_bytes(v@.take(i as int)),
        decreases n - i,
    {
        scalar_append(out, &v[i]);
        proof {
            assert(v@.take(i + 1).drop_last() =~= v@.take(i as int));
            assert(v@.take(i + 1).last() == v@[i as int]);
        }
        i += 1;
    }
    assert(v@.take(n as int) =~= v@);
}

/// Reads a scalar list.
fn read_scalar_list(b: &Vec<u8>, pos: usize) -> (r: Option<(Vec<Scalar>, usize)>)
    ensures
        r matches Some((v, end)) ==> pos <= end <= b@.len() && spec_scalar_list_enc(v@)
            == b@.subrange(pos as int, end as int),
{
    let (count, mut cur) = match read_u64(b, pos) {
        Some(x) => x,
        None => {
            return None;
        },
    };
    if count > usize::MAX as u64 {
        return None;
    }
    let count_us = count as usize;
    let mut out: Vec<Scalar> = Vec::new();
    let mut i: usize = 0;
    while i < count_us
        invariant
            i <= count_us,
            out@.len() == i,
            pos + 8 <= cur <= b@.len(),
            u64_le_bytes(count_us as u64) == b@.subrange(pos as int, pos as int + 8),
            scalars_bytes(out@) == b@.subrange(pos as int + 8, cur as int),
        decreases count_us - i,
    {
        let (sv, end2) = match read_scalar(b, cur) {
            Some(x) => x,
            None => {
                return None;
            },
        };
        let ghost prev = out@;
        out.push(sv);
        proof {
            assert(out@.drop_last() =~= prev);
            assert(b@.subrange(pos as int + 8, end2 as int) =~= b@.subrange(
                pos as int + 8,
                cur as int,
            ) + b@.subrange(cur as int, end2 as int));
            assert(scalars_bytes(out@) =~= b@.subrange(pos as int + 8, end2 as int));
        }
        cur = end2;
        i += 1;
    }
    proof {
        assert(out@.len() == count_us);
        assert(spec_scalar_list_enc(out@) =~= b@.subrange(pos as int, cur as int));
    }
    Some((out, cur))
}


/// The encoding of an indexed scalar list: its count, then each index as
/// eight bytes with its value.
pub open spec fn spec_indexed_list_enc(v: Seq<(usize, Scalar)>) -> Seq<u8> {
    u64_le_bytes(v.len() as u64) + revealed_bytes(v)
}

/// Appends an indexed scalar list's encoding to `out`.
fn append_indexed_list(out: &mut Vec<u8>, v: &Vec<(usize, Scalar)>)
    ensures
        final(out)@ == old(out)@ + spec_indexed_list_enc(v@),
{
    append_u64_le(out, v.len() as u64);
    append_revealed(out, v);
}

/// Reads an indexed scalar list.
fn read_indexed_list(b: &Vec<u8>, pos: usize) -> (r: Option<(Vec<(usize, Scalar)>, usize)>)
    ensures
        r matches Some((v, end)) ==> pos <= end <= b@.len() && spec_indexed_list_enc(v@)
            == b@.subrange(pos as int, end as int),
{
    let (count, mut cur) = match read_u64(b, pos) {
        Some(x) => x,
        None => {
            return None;
        },
    };
    if count > usize::MAX as u64 {
        return None;
    }
    let count_us = count as usize;
    let mut out: Vec<(usize, Scalar)> = Vec::new();
    let mut i: usize = 0;
    while i < count_us
        invariant
            i <= count_us,
            out@.len() == i,
            pos + 8 <= cur <= b@.len(),
            u64_le_bytes(count_us as u64) == b@.subrange(pos as int, pos as int + 8),
            revealed_bytes(out@) == b@.subrange(pos as int + 8, cur as int),
        decreases count_us - i,
    {
        let (idx, mid) = match read_u64(b, cur) {
            Some(x) => x,
            None => {
                return None;
            },
        };
        if idx > usize::MAX as u64 {
            return None;
        }
        let idx_us = idx as usize;
        let (sv, end2) = match read_scalar(b, mid) {
            Some(x) => x,
            None => {
                return None;
            },
        };
        let ghost prev = out@;
        out.push((idx_us, sv));
        proof {
            assert(out@.drop_last() =~= prev);
            assert(idx_us as u64 == idx);
            assert(b@.subrange(pos as int + 8, end2 as int) =~= b@.subrange(
                pos as int + 8,
                cur as int,
            ) + b@.subrange(cur as int, mid as int) + b@.subrange(mid as int, end2 as int));
            assert(revealed_bytes(out@) =~= b@.subrange(pos as int + 8, end2 as int));
        }
        cur = end2;
        i += 1;
    }
    proof {
        assert(spec_indexed_list_enc(out@) =~= b@.subrange(pos as int, cur as int));
    }
    Some((out, cur))
}

/// The encoding of a point list: its count, then each point.
pub open spec fn spec_point_list_enc(v: Seq<G1El>) -> Seq<u8> {
    u64_le_bytes(v.len() as u64) + h_bytes(v)
}

/// Appends a point list's encoding to `out`.
fn append_point_list(out: &mut Vec<u8>, v: &Vec<G1El>)
    ensures
        final(out)@ == old(out)@ + spec_point_list_enc(v@),
{
    append_u64_le(out, v.len() as u64);
    let n = v.len();
    let mut i: usize = 0;
    while i < n
        invariant
            i <= n,
            n == v@.len(),
            out@ == old(out)@ + u64_le_bytes(n as u64) + h_bytes(v@.take(i as int)),
        decreases n - i,
    {
        crate::g1::g1_append(out, &v[i]);
        proof {
            assert(v@.take(i + 1).drop_last() =~= v@.take(i as int));
            assert(v@.take(i + 1).last() == v@[i as int]);
        }
        i += 1;
    }
    assert(v@.take(n as int) =~= v@);
}

/// Reads a point list.
fn read_point_list(b: &Vec<u8>, pos: usize) -> (r: Option<(Vec<G1El>, usize)>)
    ensures
        r matches Some((v, end)) ==> pos <= end <= b@.len() && spec_point_list_enc(v@)
            == b@.subrange(pos as int, end as int),
{
    let (count, mut cur) = match read_u64(b, pos) {
        Some(x) => x,
        None => {
            return None;
        },
    };
    if count > usize::MAX as u64 {
        return None;
    }
    let count_us = count as usize;
    let mut out: Vec<G1El> = Vec::new();
    let mut i: usize = 0;
    while i < count_us
        invariant
            i <= count_us,
            out@.len() == i,
            pos + 8 <= cur <= b@.len(),
            u64_le_bytes(count_us as u64) == b@.subrange(pos as int, pos as int + 8),
            h_bytes(out@) == b@.subrange(pos as int + 8, cur as int),
        decreases count_us - i,
    {
        let (p, end2) = match read_g1(b, cur) {
            Some(x) => x,
            None => {
                return None;
            },
        };
        let ghost prev = out@;
        out.push(p);
        proof {
            assert(out@.drop_last() =~= prev);
            assert(b@.subrange(pos as int + 8, end2 as int) =~= b@.subrange(
                pos as int + 8,
                cur as int,
            ) + b@.subrange(cur as int, end2 as int));
            assert(h_bytes(out@) =~= b@.subrange(pos as int + 8, end2 as int));
        }
        cur = end2;
        i += 1;
    }
    proof {
        assert(spec_point_list_enc(out@) =~= b@.subrange(pos as int, cur as int));
    }
    Some((out, cur))
}

/// The concatenation of witness-reference encodings: two eight-byte indices
/// each.
pub open spec fn refs_bytes(v: Seq<(usize, usize)>) -> Seq<u8>
    decreases v.len(),
{
    if v.len() == 0 {
        Seq::empty()
    } else {
        refs_bytes(v.drop_last()) + u64_le_bytes(v.last().0 as u64) + u64_le_bytes(
            v.last().1 as u64,
        )
    }
}

/// The encoding of a witness-reference list: its count, then each pair.
pub open spec fn spec_refs_list_enc(v: Seq<(usize, usize)>) -> Seq<u8> {
    u64_le_bytes(v.len() as u64) + refs_bytes(v)
}

/// Appends a witness-reference list's encoding to `out`.
fn append_refs_list(out: &mut Vec<u8>, v: &Vec<(usize, usize)>)
    ensures
        final(out)@ == old(out)@ + spec_refs_list_enc(v@),
{
    append_u64_le(out, v.len() as u64);
    let n = v.len();
    let mut i: usize = 0;
    while i < n
        invariant
            i <= n,
            n == v@.len(),
            out@ == old(out)@ + u64_le_bytes(n as u64) + refs_bytes(v@.take(i as int)),
        decreases n - i,
    {
        let (a, c) = v[i];
        append_u64_le(out, a as u64);
        append_u64_le(out, c as u64);
        proof {
            assert(v@.take(i + 1).drop_last() =~= v@.take(i as int));
            assert(v@.take(i + 1).last() == v@[i as int]);
        }
        i += 1;
    }
    assert(v@.take(n as int) =~= v@);
}

/// Reads a witness-reference list.
fn read_refs_list(b: &Vec<u8>, pos: usize) -> (r: Option<(Vec<(usize, usize)>, usize)>)
    ensures
        r matches Some((v, end)) ==> pos <= end <= b@.len() && spec_refs_list_enc(v@)
            == b@.subrange(pos as int, end as int),
{
    let (count, mut cur) = match read_u64(b, pos) {
        Some(x) => x,
        None => {
            return None;
        },
    };
    if count > usize::MAX as u64 {
        return None;
    }
    let count_us = count as usize;
    let mut out: Vec<(usize, usize)> = Vec::new();
    let mut i: usize = 0;
    while i < count_us
        invariant
            i <= count_us,
            out@.len() == i,
            pos + 8 <= cur <= b@.len(),
            u64_le_bytes(count_us as u64) == b@.subrange(pos as int, pos as int + 8),
            refs_bytes(out@) == b@.subrange(pos as int + 8, cur as int),
        decreases count_us - i,
    {
        let (a, mid) = match read_u64(b, cur) {
            Some(x) => x,
            None => {
                return None;
            },
        };
        let (c, end2) = match read_u64(b, mid) {
            Some(x) => x,
            None => {
                return None;
            },
        };
        if a > usize::MAX as u64 || c > usize::MAX as u64 {
            return None;
        }
        let ghost prev = out@;
        out.push((a as usize, c as usize));
        proof {
            assert(out@.drop_last() =~= prev);
            assert((a as usize) as u64 == a && (c as usize) as u64 == c);
            assert(b@.subrange(pos as int + 8, end2 as int) =~= b@.subrange(
                pos as int + 8,
                cur as int,
            ) + b@.subrange(cur as int, mid as int) + b@.subrange(mid as int, end2 as int));
            assert(refs_bytes(out@) =~= b@.subrange(pos as int + 8, end2 as int));
        }
        cur = end2;
        i += 1;
    }
    proof {
        assert(spec_refs_list_enc(out@) =~= b@.subrange(pos as int, cur as int));
    }
    Some((out, cur))
}


/// Reads signature parameters, cursor form.
fn read_params(b: &Vec<u8>, pos: usize) -> (r: Option<(SignatureParamsG1, usize)>)
    ensures
        r matches Some((p, end)) ==> pos <= end <= b@.len() && spec_params_enc(p) == b@.subrange(
            pos as int,
            end as int,
        ),
{
    let (count, cur0) = match read_u64(b, pos) {
        Some(x) => x,
        None => {
            return None;
        },
    };
    if count > usize::MAX as u64 {
        return None;
    }
    let count_us = count as usize;
    let (g1, cur1) = match read_g1(b, cur0) {
        Some(x) => x,
        None => {
            return None;
        },
    };
    let (g2, cur2) = match read_g2(b, cur1) {
        Some(x) => x,
        None => {
            return None;
        },
    };
    let (h_0, cur3) = match read_g1(b, cur2) {
        Some(x) => x,
        None => {
            return None;
        },
    };
    let mut h: Vec<G1El> = Vec::new();
    let mut cur = cur3;
    let mut i: usize = 0;
    while i < count_us
        invariant
            i <= count_us,
            h@.len() == i,
            cur3 <= cur <= b@.len(),
            h_bytes(h@) == b@.subrange(cur3 as int, cur as int),
        decreases count_us - i,
    {
        let (p, end2) = match read_g1(b, cur) {
            Some(x) => x,
            None => {
                return None;
            },
        };
        let ghost prev = h@;
        h.push(p);
        proof {
            assert(h@.drop_last() =~= prev);
            assert(b@.subrange(cur3 as int, end2 as int) =~= b@.subrange(cur3 as int, cur as int)
                + b@.subrange(cur as int, end2 as int));
            assert(h_bytes(h@) =~= b@.subrange(cur3 as int, end2 as int));
        }
        cur = end2;
        i += 1;
    }
    let p = SignatureParamsG1 { g1, g2, h_0, h };
    proof {
        assert((count_us as u64) == count);
        assert(spec_params_enc(p) =~= b@.subrange(pos as int, cur as int));
    }
    Some((p, cur))
}

/// Reads a signature, cursor form.
fn read_sig(b: &Vec<u8>, pos: usize) -> (r: Option<(SignatureG1, usize)>)
    ensures
        r matches Some((sig, end)) ==> pos <= end <= b@.len() && spec_sig_enc(sig) == b@.subrange(
            pos as int,
            end as int,
        ),
{
    let (a, cur1) = match read_g1(b, pos) {
        Some(x) => x,
        None => {
            return None;
        },
    };
    let (e, cur2) = match read_scalar(b, cur1) {
        Some(x) => x,
        None => {
            return None;
        },
    };
    let (sv, cur3) = match read_scalar(b, cur2) {
        Some(x) => x,
        None => {
            return None;
        },
    };
    let sig = SignatureG1 { a, e, s: sv };
    proof {
        assert(spec_sig_enc(sig) =~= b@.subrange(pos as int, cur3 as int));
    }
    Some((sig, cur3))
}

/// The encoding of one statement: a kind tag, then its parts.
pub open spec fn spec_stmt_enc(s: Statement) -> Seq<u8> {
    match s {
        Statement::PedersenCommitment { bases, commitment } => seq![0u8] + spec_point_list_enc(
            bases@,
        ) + commitment@,
        Statement::PedersenCommitmentFromSetupParams { key_ref, commitment } => seq![1u8]
            + u64_le_bytes(key_ref as u64) + commitment@,
        Statement::PoKBBSPlusSignature { params, public_key, revealed } => seq![2u8]
            + spec_params_enc(params) + public_key.0@ + spec_indexed_list_enc(revealed@),
    }
}

/// Appends one statement's encoding to `out`.
fn append_stmt_enc(out: &mut Vec<u8>, s: &Statement)
    ensures
        final(out)@ == old(out)@ + spec_stmt_enc(*s),
{
    match s {
        Statement::PedersenCommitment { bases, commitment } => {
            out.push(0u8);
            append_point_list(out, bases);
            crate::g1::g1_append(out, commitment);
            assert(out@ =~= old(out)@ + spec_stmt_enc(*s));
        },
        Statement::PedersenCommitmentFromSetupParams { key_ref, commitment } => {
            out.push(1u8);
            append_u64_le(out, *key_ref as u64);
            crate::g1::g1_append(out, commitment);
            assert(out@ =~= old(out)@ + spec_stmt_enc(*s));
        },
        Statement::PoKBBSPlusSignature { params, public_key, revealed } => {
            out.push(2u8);
            let pe = params_encode(params);
            append_bytes(out, &pe);
            crate::g2::g2_append(out, &public_key.0);
            append_indexed_list(out, revealed);
            assert(out@ =~= old(out)@ + spec_stmt_enc(*s));
        },
    }
}

/// Reads one statement.
fn read_stmt(b: &Vec<u8>, pos: usize) -> (r: Option<(Statement, usize)>)
    ensures
        r matches Some((s, end)) ==> pos <= end <= b@.len() && spec_stmt_enc(s) == b@.subrange(
            pos as int,
            end as int,
        ),
{
    if pos >= b.len() {
        return None;
    }
    let tag = b[pos];
    proof {
        assert(b@.subrange(pos as int, pos as int + 1) =~= seq![b@[pos as int]]);
    }
    if tag == 0 {
        let (bases, cur1) = match read_point_list(b, pos + 1) {
            Some(x) => x,
            None => {
                return None;
            },
        };
        let (commitment, cur2) = match read_g1(b, cur1) {
            Some(x) => x,
            None => {
                return None;
            },
        };
        let s = Statement::PedersenCommitment { bases, commitment };
        proof {
            assert(spec_stmt_enc(s) =~= b@.subrange(pos as int, cur2 as int));
        }
        Some((s, cur2))
    } else if tag == 1 {
        let (key_ref, cur1) = match read_u64(b, pos + 1) {
            Some(x) => x,
            None => {
                return None;
            },
        };
        if key_ref > usize::MAX as u64 {
            return None;
        }
        let (commitment, cur2) = match read_g1(b, cur1) {
            Some(x) => x,
            None => {
                return None;
            },
        };
        let s = Statement::PedersenCommitmentFromSetupParams {
            key_ref: key_ref as usize,
            commitment,
        };
        proof {
            assert((key_ref as usize) as u64 == key_ref);
            assert(spec_stmt_enc(s) =~= b@.subrange(pos as int, cur2 as int));
        }
        Some((s, cur2))
    } else if tag == 2 {
        let (params, cur1) = match read_params(b, pos + 1) {
            Some(x) => x,
            None => {
                return None;
            },
        };
        let (pk, cur2) = match read_g2(b, cur1) {
            Some(x) => x,
            None => {
                return None;
            },
        };
        let (revealed, cur3) = match read_indexed_list(b, cur2) {
            Some(x) => x,
            None => {
                return None;
            },
        };
        let s = Statement::PoKBBSPlusSignature {
            params,
            public_key: crate::keys::PublicKeyG2(pk),
            revealed,
        };
        proof {
            assert(spec_stmt_enc(s) =~= b@.subrange(pos as int, cur3 as int));
        }
        Some((s, cur3))
    } else {
        None
    }
}

/// The encoding of one shared setup entry: its commitment key.
pub open spec fn spec_setup_enc(s: SetupParams) -> Seq<u8> {
    match s {
        SetupParams::PedersenCommitmentKey(bases) => spec_point_list_enc(bases@),
    }
}

/// Appends one setup entry's encoding to `out`.
fn append_setup_enc(out: &mut Vec<u8>, s: &SetupParams)
    ensures
        final(out)@ == old(out)@ + spec_setup_enc(*s),
{
    match s {
        SetupParams::PedersenCommitmentKey(bases) => {
            append_point_list(out, bases);
        },
    }
}

/// Reads one setup entry.
fn read_setup(b: &Vec<u8>, pos: usize) -> (r: Option<(SetupParams, usize)>)
    ensures
        r matches Some((s, end)) ==> pos <= end <= b@.len() && spec_setup_enc(s) == b@.subrange(
            pos as int,
            end as int,
        ),
{
    match read_point_list(b, pos) {
        Some((bases, end)) => Some((SetupParams::PedersenCommitmentKey(bases), end)),
        None => None,
    }
}

/// The encoding of one meta-statement: its witness-reference list.
pub open spec fn spec_meta_enc(m: MetaStatement) -> Seq<u8> {
    match m {
        MetaStatement::WitnessEquality(e) => spec_refs_list_enc(e.0@),
    }
}

/// Appends one meta-statement's encoding to `out`.
fn append_meta_enc(out: &mut Vec<u8>, m: &MetaStatement)
    ensures
        final(out)@ == old(out)@ + spec_meta_enc(*m),
{
    match m {
        MetaStatement::WitnessEquality(e) => {
            append_refs_list(out, &e.0);
        },
    }
}

/// Reads one meta-statement.
fn read_meta(b: &Vec<u8>, pos: usize) -> (r: Option<(MetaStatement, usize)>)
    ensures
        r matches Some((m, end)) ==> pos <= end <= b@.len() && spec_meta_enc(m) == b@.subrange(
            pos as int,
            end as int,
        ),
{
    match read_refs_list(b, pos) {
        Some((refs, end)) => Some((MetaStatement::WitnessEquality(EqualWitnesses(refs)), end)),
        None => None,
    }
}

/// The encoding of one witness: a kind tag, then its parts.
pub open spec fn spec_witness_enc(w: Witness) -> Seq<u8> {
    match w {
        Witness::PedersenCommitment(scalars) => seq![0u8] + spec_scalar_list_enc(scalars@),
        Witness::PoKBBSPlusSignature { signature, unrevealed_messages } => seq![1u8]
            + spec_sig_enc(signature) + spec_indexed_list_enc(unrevealed_messages@),
    }
}

/// Appends one witness's encoding to `out`.
fn append_witness_enc(out: &mut Vec<u8>, w: &Witness)
    ensures
        final(out)@ == old(out)@ + spec_witness_enc(*w),
{
    match w {
        Witness::PedersenCommitment(scalars) => {
            out.push(0u8);
            append_scalar_list(out, scalars);
            assert(out@ =~= old(out)@ + spec_witness_enc(*w));
        },
        Witness::PoKBBSPlusSignature { signature, unrevealed_messages } => {
            out.push(1u8);
            let se = sig_encode(signature);
            append_bytes(out, &se);
            append_indexed_list(out, unrevealed_messages);
            assert(out@ =~= old(out)@ + spec_witness_enc(*w));
        },
    }
}

/// Reads one witness.
fn read_witness(b: &Vec<u8>, pos: usize) -> (r: Option<(Witness, usize)>)
    ensures
        r matches Some((w, end)) ==> pos <= end <= b@.len() && spec_witness_enc(w) == b@.subrange(
            pos as int,
            end as int,
        ),
{
    if pos >= b.len() {
        return None;
    }
    let tag = b[pos];
    proof {
        assert(b@.subrange(pos as int, pos as int + 1) =~= seq![b@[pos as int]]);
    }
    if tag == 0 {
        let (scalars, cur1) = match read_scalar_list(b, pos + 1) {
            Some(x) => x,
            None => {
                return None;
            },
        };
        let w = Witness::PedersenCommitment(scalars);
        proof {
            assert(spec_witness_enc(w) =~= b@.subrange(pos as int, cur1 as int));
        }
        Some((w, cur1))
    } else if tag == 1 {
        let (signature, cur1) = match read_sig(b, pos + 1) {
            Some(x) => x,
            None => {
                return None;
            },
        };
        let (unrevealed_messages, cur2) = match read_indexed_list(b, cur1) {
            Some(x) => x,
            None => {
                return None;
            },
        };
        let w = Witness::PoKBBSPlusSignature { signature, unrevealed_messages };
        proof {
            assert(spec_witness_enc(w) =~= b@.subrange(pos as int, cur2 as int));
        }
        Some((w, cur2))
    } else {
        None
    }
}

/// The encoding of one sub-proof: a kind tag, then its parts.
pub open spec fn spec_sub_enc(s: StatementProof) -> Seq<u8> {
    match s {
        StatementProof::PedersenCommitment { t, responses } => seq![0u8] + t@
            + spec_scalar_list_enc(responses@),
        StatementProof::PoKBBSPlusSignature(pf) => seq![1u8] + pf.a_prime@ + pf.a_bar@ + pf.d@
            + pf.t1@ + pf.t2@ + spec_scalar_list_enc(pf.resp1@) + spec_scalar_list_enc(pf.resp2@),
    }
}

/// Appends one sub-proof's encoding to `out`.
fn append_sub_enc(out: &mut Vec<u8>, s: &StatementProof)
    ensures
        final(out)@ == old(out)@ + spec_sub_enc(*s),
{
    match s {
        StatementProof::PedersenCommitment { t, responses } => {
            out.push(0u8);
            crate::g1::g1_append(out, t);
            append_scalar_list(out, responses);
            assert(out@ =~= old(out)@ + spec_sub_enc(*s));
        },
        StatementProof::PoKBBSPlusSignature(pf) => {
            out.push(1u8);
            crate::g1::g1_append(out, &pf.a_prime);
            crate::g1::g1_append(out, &pf.a_bar);
            crate::g1::g1_append(out, &pf.d);
            crate::g1::g1_append(out, &pf.t1);
            crate::g1::g1_append(out, &pf.t2);
            append_scalar_list(out, &pf.resp1);
            append_scalar_list(out, &pf.resp2);
            assert(out@ =~= old(out)@ + spec_sub_enc(*s));
        },
    }
}

/// Reads one sub-proof.
fn read_sub(b: &Vec<u8>, pos: usize) -> (r: Option<(StatementProof, usize)>)
    ensures
        r matches Some((s, end)) ==> pos <= end <= b@.len() && spec_sub_enc(s) == b@.subrange(
            pos as int,
            end as int,
        ),
{
    if pos >= b.len() {
        return None;
    }
    let tag = b[pos];
    proof {
        assert(b@.subrange(pos as int, pos as int + 1) =~= seq![b@[pos as int]]);
    }
    if tag == 0 {
        let (t, cur1) = match read_g1(b, pos + 1) {
            Some(x) => x,
            None => {
                return None;
            },
        };
        let (responses, cur2) = match read_scalar_list(b, cur1) {
            Some(x) => x,
            None => {
                return None;
            },
        };
        let s = StatementProof::PedersenCommitment { t, responses };
        proof {
            assert(spec_sub_enc(s) =~= b@.subrange(pos as int, cur2 as int));
        }
        Some((s, cur2))
    } else if tag == 1 {
        let (a_prime, cur1) = match read_g1(b, pos + 1) {
            Some(x) => x,
            None => {
                return None;
            },
        };
        let (a_bar, cur2) = match read_g1(b, cur1) {
            Some(x) => x,
            None => {
                return None;
            },
        };
        let (d, cur3) = match read_g1(b, cur2) {
            Some(x) => x,
            None => {
                return None;
            },
        };
        let (t1, cur4) = match read_g1(b, cur3) {
            Some(x) => x,
            None => {
                return None;
            },
        };
        let (t2, cur5) = match read_g1(b, cur4) {
            Some(x) => x,
            None => {
                return None;
            },
        };
        let (resp1, cur6) = match read_scalar_list(b, cur5) {
            Some(x) => x,
            None => {
                return None;
            },
        };
        let (resp2, cur7) = match read_scalar_list(b, cur6) {
            Some(x) => x,
            None => {
                return None;
            },
        };
        let s = StatementProof::PoKBBSPlusSignature(
            PoKOfSignatureG1Proof { a_prime, a_bar, d, t1, t2, resp1, resp2 },
        );
        proof {
            assert(spec_sub_enc(s) =~= b@.subrange(pos as int, cur7 as int));
        }
        Some((s, cur7))
    } else {
        None
    }
}


/// The concatenation of statement encodings.
pub open spec fn stmts_bytes(v: Seq<Statement>) -> Seq<u8>
    decreases v.len(),
{
    if v.len() == 0 {
        Seq::empty()
    } else {
        stmts_bytes(v.drop_last()) + spec_stmt_enc(v.last())
    }
}

/// The encoding of a statement list: its count, then each entry.
pub open spec fn spec_statements_enc(v: Seq<Statement>) -> Seq<u8> {
    u64_le_bytes(v.len() as u64) + stmts_bytes(v)
}

/// Encodes a statement list.
pub fn statements_encode(v: &Vec<Statement>) -> (r: Vec<u8>)
    ensures
        r@ == spec_statements_enc(v@),
{
    let mut out: Vec<u8> = Vec::new();
    append_u64_le(&mut out, v.len() as u64);
    let n = v.len();
    let mut i: usize = 0;
    while i < n
        invariant
            i <= n,
            n == v@.len(),
            out@ == u64_le_bytes(n as u64) + stmts_bytes(v@.take(i as int)),
        decreases n - i,
    {
        append_stmt_enc(&mut out, &v[i]);
        proof {
            assert(v@.take(i + 1).drop_last() =~= v@.take(i as int));
            assert(v@.take(i + 1).last() == v@[i as int]);
        }
        i += 1;
    }
    assert(v@.take(n as int) =~= v@);
    out
}

/// Decodes a statement list; when it returns a value, the input is exactly that
/// value's encoding.
pub fn statements_decode(b: &Vec<u8>) -> (r: Option<Vec<Statement>>)
    ensures
        r matches Some(v) ==> spec_statements_enc(v@) == b@,
{
    let (count, mut cur) = match read_u64(b, 0) {
        Some(x) => x,
        None => {
            return None;
        },
    };
    if count > usize::MAX as u64 {
        return None;
    }
    let count_us = count as usize;
    let mut out: Vec<Statement> = Vec::new();
    let mut i: usize = 0;
    while i < count_us
        invariant
            i <= count_us,
            out@.len() == i,
            8 <= cur <= b@.len(),
            u64_le_bytes(count_us as u64) == b@.subrange(0, 8),
            stmts_bytes(out@) == b@.subrange(8, cur as int),
        decreases count_us - i,
    {
        let (x, end2) = match read_stmt(b, cur) {
            Some(y) => y,
            None => {
                return None;
            },
        };
        let ghost prev = out@;
        out.push(x);
        proof {
            assert(out@.drop_last() =~= prev);
            assert(b@.subrange(8, end2 as int) =~= b@.subrange(8, cur as int) + b@.subrange(
                cur as int,
                end2 as int,
            ));
            assert(stmts_bytes(out@) =~= b@.subrange(8, end2 as int));
        }
        cur = end2;
        i += 1;
    }
    if cur != b.len() {
        return None;
    }
    proof {
        assert(spec_statements_enc(out@) =~= b@);
    }
    Some(out)
}

/// The concatenation of meta-statement encodings.
pub open spec fn metas_bytes(v: Seq<MetaStatement>) -> Seq<u8>
    decreases v.len(),
{
    if v.len() == 0 {
        Seq::empty()
    } else {
        metas_bytes(v.drop_last()) + spec_meta_enc(v.last())
    }
}

/// The encoding of a meta-statement list: its count, then each entry.
pub open spec fn spec_meta_statements_enc(v: Seq<MetaStatement>) -> Seq<u8> {
    u64_le_bytes(v.len() as u64) + metas_bytes(v)
}

/// Encodes a meta-statement list.
pub fn meta_statements_encode(v: &Vec<MetaStatement>) -> (r: Vec<u8>)
    ensures
        r@ == spec_meta_statements_enc(v@),
{
    let mut out: Vec<u8> = Vec::new();
    append_u64_le(&mut out, v.len() as u64);
    let n = v.len();
    let mut i: usize = 0;
    while i < n
        invariant
            i <= n,
            n == v@.len(),
            out@ == u64_le_bytes(n as u64) + metas_bytes(v@.take(i as int)),
        decreases n - i,
    {
        append_meta_enc(&mut out, &v[i]);
        proof {
            assert(v@.take(i + 1).drop_last() =~= v@.take(i as int));
            assert(v@.take(i + 1).last() == v@[i as int]);
        }
        i += 1;
    }
    assert(v@.take(n as int) =~= v@);
    out
}

/// Decodes a meta-statement list; when it returns a value, the input is exactly that
/// value's encoding.
pub fn meta_statements_decode(b: &Vec<u8>) -> (r: Option<Vec<MetaStatement>>)
    ensures
        r matches Some(v) ==> spec_meta_statements_enc(v@) == b@,
{
    let (count, mut cur) = match read_u64(b, 0) {
        Some(x) => x,
        None => {
            return None;
        },
    };
    if count > usize::MAX as u64 {
        return None;
    }
    let count_us = count as usize;
    let mut out: Vec<MetaStatement> = Vec::new();
    let mut i: usize = 0;
    while i < count_us
        invariant
            i <= count_us,
            out@.len() == i,
            8 <= cur <= b@.len(),
            u64_le_bytes(count_us as u64) == b@.subrange(0, 8),
            metas_bytes(out@) == b@.subrange(8, cur as int),
        decreases count_us - i,
    {
        let (x, end2) = match read_meta(b, cur) {
            Some(y) => y,
            None => {
                return None;
            },
        };
        let ghost prev = out@;
        out.push(x);
        proof {
            assert(out@.drop_last() =~= prev);
            assert(b@.subrange(8, end2 as int) =~= b@.subrange(8, cur as int) + b@.subrange(
                cur as int,
                end2 as int,
            ));
            assert(metas_bytes(out@) =~= b@.subrange(8, end2 as int));
        }
        cur = end2;
        i += 1;
    }
    if cur != b.len() {
        return None;
    }
    proof {
        assert(spec_meta_statements_enc(out@) =~= b@);
    }
    Some(out)
}

/// The concatenation of setup-entry encodings.
pub open spec fn setups_bytes(v: Seq<SetupParams>) -> Seq<u8>
    decreases v.len(),
{
    if v.len() == 0 {
        Seq::empty()
    } else {
        setups_bytes(v.drop_last()) + spec_setup_enc(v.last())
    }
}

/// The encoding of a setup-entry list: its count, then each entry.
pub open spec fn spec_setup_params_enc(v: Seq<SetupParams>) -> Seq<u8> {
    u64_le_bytes(v.len() as u64) + setups_bytes(v)
}

/// Encodes a setup-entry list.
pub fn setup_params_encode(v: &Vec<SetupParams>) -> (r: Vec<u8>)
    ensures
        r@ == spec_setup_params_enc(v@),
{
    let mut out: Vec<u8> = Vec::new();
    append_u64_le(&mut out, v.len() as u64);
    let n = v.len();
    let mut i: usize = 0;
    while i < n
        invariant
            i <= n,
            n == v@.len(),
            out@ == u64_le_bytes(n as u64) + setups_bytes(v@.take(i as int)),
        decreases n - i,
    {
        append_setup_enc(&mut out, &v[i]);
        proof {
            assert(v@.take(i + 1).drop_last() =~= v@.take(i as int));
            assert(v@.take(i + 1).last() == v@[i as int]);
        }
        i += 1;
    }
    assert(v@.take(n as int) =~= v@);
    out
}

/// Decodes a setup-entry list; when it returns a value, the input is exactly that
/// value's encoding.
pub fn setup_params_decode(b: &Vec<u8>) -> (r: Option<Vec<SetupParams>>)
    ensures
        r matches Some(v) ==> spec_setup_params_enc(v@) == b@,
{
    let (count, mut cur) = match read_u64(b, 0) {
        Some(x) => x,
        None => {
            return None;
        },
    };
    if count > usize::MAX as u64 {
        return None;
    }
    let count_us = count as usize;
    let mut out: Vec<SetupParams> = Vec::new();
    let mut i: usize = 0;
    while i < count_us
        invariant
            i <= count_us,
            out@.len() == i,
            8 <= cur <= b@.len(),
            u64_le_bytes(count_us as u64) == b@.subrange(0, 8),
            setups_bytes(out@) == b@.subrange(8, cur as int),
        decreases count_us - i,
    {
        let (x, end2) = match read_setup(b, cur) {
            Some(y) => y,
            None => {
                return None;
            },
        };
        let ghost prev = out@;
        out.push(x);
        proof {
            assert(out@.drop_last() =~= prev);
            assert(b@.subrange(8, end2 as int) =~= b@.subrange(8, cur as int) + b@.subrange(
                cur as int,
                end2 as int,
            ));
            assert(setups_bytes(out@) =~= b@.subrange(8, end2 as int));
        }
        cur = end2;
        i += 1;
    }
    if cur != b.len() {
        return None;
    }
    proof {
        assert(spec_setup_params_enc(out@) =~= b@);
    }
    Some(out)
}

/// The concatenation of witness encodings.
pub open spec fn witnesses_bytes(v: Seq<Witness>) -> Seq<u8>
    decreases v.len(),
{
    if v.len() == 0 {
        Seq::empty()
    } else {
        witnesses_bytes(v.drop_last()) + spec_witness_enc(v.last())
    }
}

/// The encoding of a witness list: its count, then each entry.
pub open spec fn spec_witnesses_enc(v: Seq<Witness>) -> Seq<u8> {
    u64_le_bytes(v.len() as u64) + witnesses_bytes(v)
}

/// Encodes a witness list.
pub fn witnesses_encode(v: &Vec<Witness>) -> (r: Vec<u8>)
    ensures
        r@ == spec_witnesses_enc(v@),
{
    let mut out: Vec<u8> = Vec::new();
    append_u64_le(&mut out, v.len() as u64);
    let n = v.len();
    let mut i: usize = 0;
    while i < n
        invariant
            i <= n,
            n == v@.len(),
            out@ == u64_le_bytes(n as u64) + witnesses_bytes(v@.take(i as int)),
        decreases n - i,
    {
        append_witness_enc(&mut out, &v[i]);
        proof {
            assert(v@.take(i + 1).drop_last() =~= v@.take(i as int));
            assert(v@.take(i + 1).last() == v@[i as int]);
        }
        i += 1;
    }
    assert(v@.take(n as int) =~= v@);
    out
}

/// Decodes a witness list; when it returns a value, the input is exactly that
/// value's encoding.
pub fn witnesses_decode(b: &Vec<u8>) -> (r: Option<Vec<Witness>>)
    ensures
        r matches Some(v) ==> spec_witnesses_enc(v@) == b@,
{
    let (count, mut cur) = match read_u64(b, 0) {
        Some(x) => x,
        None => {
            return None;
        },
    };
    if count > usize::MAX as u64 {
        return None;
    }
    let count_us = count as usize;
    let mut out: Vec<Witness> = Vec::new();
    let mut i: usize = 0;
    while i < count_us
        invariant
            i <= count_us,
            out@.len() == i,
            8 <= cur <= b@.len(),
            u64_le_bytes(count_us as u64) == b@.subrange(0, 8),
            witnesses_bytes(out@) == b@.subrange(8, cur as int),
        decreases count_us - i,
    {
        let (x, end2) = match read_witness(b, cur) {
            Some(y) => y,
            None => {
                return None;
            },
        };
        let ghost prev = out@;
        out.push(x);
        proof {
            assert(out@.drop_last() =~= prev);
            assert(b@.subrange(8, end2 as int) =~= b@.subrange(8, cur as int) + b@.subrange(
                cur as int,
                end2 as int,
            ));
            assert(witnesses_bytes(out@) =~= b@.subrange(8, end2 as int));
        }
        cur = end2;
        i += 1;
    }
    if cur != b.len() {
        return None;
    }
    proof {
        assert(spec_witnesses_enc(out@) =~= b@);
    }
    Some(out)
}

/// The encoding of an optional context: a flag byte, then the length and
/// bytes where present.
pub open spec fn spec_ctx_enc(o: Option<Vec<u8>>) -> Seq<u8> {
    match o {
        None => seq![0u8],
        Some(v) => seq![1u8] + u64_le_bytes(v@.len() as u64) + v@,
    }
}

/// Appends an optional context's encoding to `out`.
fn append_ctx_enc(out: &mut Vec<u8>, o: &Option<Vec<u8>>)
    ensures
        final(out)@ == old(out)@ + spec_ctx_enc(*o),
{
    match o {
        None => {
            out.push(0u8);
            assert(out@ =~= old(out)@ + spec_ctx_enc(*o));
        },
        Some(v) => {
            out.push(1u8);
            append_u64_le(out, v.len() as u64);
            append_bytes(out, v);
            assert(out@ =~= old(out)@ + spec_ctx_enc(*o));
        },
    }
}

/// Reads `n` raw bytes.
fn read_bytes(b: &Vec<u8>, pos: usize, n: usize) -> (r: Option<(Vec<u8>, usize)>)
    ensures
        r matches Some((v, end)) ==> pos + n == end && end <= b@.len() && v@ == b@.subrange(
            pos as int,
            end as int,
        ),
{
    if pos > b.len() || b.len() - pos < n {
        return None;
    }
    let mut out: Vec<u8> = Vec::new();
    let mut k: usize = 0;
    while k < n
        invariant
            k <= n,
            pos + n <= b@.len(),
            pos + n <= usize::MAX,
            out@ == b@.subrange(pos as int, pos as int + k),
        decreases n - k,
    {
        out.push(b[pos + k]);
        proof {
            assert(b@.subrange(pos as int, pos as int + k + 1) =~= b@.subrange(
                pos as int,
                pos as int + k,
            ).push(b@[pos as int + k]));
        }
        k += 1;
    }
    Some((out, pos + n))
}

/// Reads an optional context.
fn read_ctx(b: &Vec<u8>, pos: usize) -> (r: Option<(Option<Vec<u8>>, usize)>)
    ensures
        r matches Some((o, end)) ==> pos <= end <= b@.len() && spec_ctx_enc(o) == b@.subrange(
            pos as int,
            end as int,
        ),
{
    if pos >= b.len() {
        return None;
    }
    let tag = b[pos];
    proof {
        assert(b@.subrange(pos as int, pos as int + 1) =~= seq![b@[pos as int]]);
    }
    if tag == 0 {
        proof {
            assert(spec_ctx_enc(None::<Vec<u8>>) =~= b@.subrange(pos as int, pos as int + 1));
        }
        Some((None, pos + 1))
    } else if tag == 1 {
        let (len, cur1) = match read_u64(b, pos + 1) {
            Some(x) => x,
            None => {
                return None;
            },
        };
        if len > usize::MAX as u64 {
            return None;
        }
        let (v, cur2) = match read_bytes(b, cur1, len as usize) {
            Some(x) => x,
            None => {
                return None;
            },
        };
        proof {
            assert(((len as usize) as u64) == len);
            assert(spec_ctx_enc(Some(v)) =~= b@.subrange(pos as int, cur2 as int));
        }
        Some((Some(v), cur2))
    } else {
        None
    }
}

/// The encoding of a proof specification: its statements, meta-statements,
/// setup entries and context, in order.
pub open spec fn spec_proof_spec_enc(ps: ProofSpec) -> Seq<u8> {
    spec_statements_enc(ps.statements@) + spec_meta_statements_enc(ps.meta_statements@)
        + spec_setup_params_enc(ps.setup_params@) + spec_ctx_enc(ps.context)
}

/// Encodes a proof specification.
pub fn proof_spec_encode(ps: &ProofSpec) -> (r: Vec<u8>)
    ensures
        r@ == spec_proof_spec_enc(*ps),
{
    let mut out: Vec<u8> = Vec::new();
    let se = statements_encode(&ps.statements);
    append_bytes(&mut out, &se);
    let me = meta_statements_encode(&ps.meta_statements);
    append_bytes(&mut out, &me);
    let pe = setup_params_encode(&ps.setup_params);
    append_bytes(&mut out, &pe);
    append_ctx_enc(&mut out, &ps.context);
    assert(out@ =~= spec_proof_spec_enc(*ps));
    out
}

/// Reads a statement list, cursor form.
fn read_stmts_list(b: &Vec<u8>, pos: usize) -> (r: Option<(Vec<Statement>, usize)>)
    ensures
        r matches Some((v, end)) ==> pos <= end <= b@.len() && spec_statements_enc(v@)
            == b@.subrange(pos as int, end as int),
{
    let (count, mut cur) = match read_u64(b, pos) {
        Some(x) => x,
        None => {
            return None;
        },
    };
    if count > usize::MAX as u64 {
        return None;
    }
    let count_us = count as usize;
    let mut out: Vec<Statement> = Vec::new();
    let mut i: usize = 0;
    while i < count_us
        invariant
            i <= count_us,
            out@.len() == i,
            pos + 8 <= cur <= b@.len(),
            u64_le_bytes(count_us as u64) == b@.subrange(pos as int, pos as int + 8),
            stmts_bytes(out@) == b@.subrange(pos as int + 8, cur as int),
        decreases count_us - i,
    {
        let (x, end2) = match read_stmt(b, cur) {
            Some(y) => y,
            None => {
                return None;
            },
        };
        let ghost prev = out@;
        out.push(x);
        proof {
            assert(out@.drop_last() =~= prev);
            assert(b@.subrange(pos as int + 8, end2 as int) =~= b@.subrange(
                pos as int + 8,
                cur as int,
            ) + b@.subrange(cur as int, end2 as int));
            assert(stmts_bytes(out@) =~= b@.subrange(pos as int + 8, end2 as int));
        }
        cur = end2;
        i += 1;
    }
    proof {
        assert(spec_statements_enc(out@) =~= b@.subrange(pos as int, cur as int));
    }
    Some((out, cur))
}

/// Reads a meta-statement list, cursor form.
fn read_metas_list(b: &Vec<u8>, pos: usize) -> (r: Option<(Vec<MetaStatement>, usize)>)
    ensures
        r matches Some((v, end)) ==> pos <= end <= b@.len() && spec_meta_statements_enc(v@)
            == b@.subrange(pos as int, end as int),
{
    let (count, mut cur) = match read_u64(b, pos) {
        Some(x) => x,
        None => {
            return None;
        },
    };
    if count > usize::MAX as u64 {
        return None;
    }
    let count_us = count as usize;
    let mut out: Vec<MetaStatement> = Vec::new();
    let mut i: usize = 0;
    while i < count_us
        invariant
            i <= count_us,
            out@.len() == i,
            pos + 8 <= cur <= b@.len(),
            u64_le_bytes(count_us as u64) == b@.subrange(pos as int, pos as int + 8),
            metas_bytes(out@) == b@.subrange(pos as int + 8, cur as int),
        decreases count_us - i,
    {
        let (x, end2) = match read_meta(b, cur) {
            Some(y) => y,
            None => {
                return None;
            },
        };
        let ghost prev = out@;
        out.push(x);
        proof {
            assert(out@.drop_last() =~= prev);
            assert(b@.subrange(pos as int + 8, end2 as int) =~= b@.subrange(
                pos as int + 8,
                cur as int,
            ) + b@.subrange(cur as int, end2 as int));
            assert(metas_bytes(out@) =~= b@.subrange(pos as int + 8, end2 as int));
        }
        cur = end2;
        i += 1;
    }
    proof {
        assert(spec_meta_statements_enc(out@) =~= b@.subrange(pos as int, cur as int));
    }
    Some((out, cur))
}

/// Reads a setup-entry list, cursor form.
fn read_setups_list(b: &Vec<u8>, pos: usize) -> (r: Option<(Vec<SetupParams>, usize)>)
    ensures
        r matches Some((v, end)) ==> pos <= end <= b@.len() && spec_setup_params_enc(v@)
            == b@.subrange(pos as int, end as int),
{
    let (count, mut cur) = match read_u64(b, pos) {
        Some(x) => x,
        None => {
            return None;
        },
    };
    if count > usize::MAX as u64 {
        return None;
    }
    let count_us = count as usize;
    let mut out: Vec<SetupParams> = Vec::new();
    let mut i: usize = 0;
    while i < count_us
        invariant
            i <= count_us,
            out@.len() == i,
            pos + 8 <= cur <= b@.len(),
            u64_le_bytes(count_us as u64) == b@.subrange(pos as int, pos as int + 8),
            setups_bytes(out@) == b@.subrange(pos as int + 8, cur as int),
        decreases count_us - i,
    {
        let (x, end2) = match read_setup(b, cur) {
            Some(y) => y,
            None => {
                return None;
            },
        };
        let ghost prev = out@;
        out.push(x);
        proof {
            assert(out@.drop_last() =~= prev);
            assert(b@.subrange(pos as int + 8, end2 as int) =~= b@.subrange(
                pos as int + 8,
                cur as int,
            ) + b@.subrange(cur as int, end2 as int));
            assert(setups_bytes(out@) =~= b@.subrange(pos as int + 8, end2 as int));
        }
        cur = end2;
        i += 1;
    }
    proof {
        assert(spec_setup_params_enc(out@) =~= b@.subrange(pos as int, cur as int));
    }
    Some((out, cur))
}

/// Decodes a proof specification; when it returns a value, the input is
/// exactly that value's encoding.
pub fn proof_spec_decode(b: &Vec<u8>) -> (r: Option<ProofSpec>)
    ensures
        r matches Some(ps) ==> spec_proof_spec_enc(ps) == b@,
{
    let (statements, cur1) = match read_stmts_list(b, 0) {
        Some(x) => x,
        None => {
            return None;
        },
    };
    let (meta_statements, cur2) = match read_metas_list(b, cur1) {
        Some(x) => x,
        None => {
            return None;
        },
    };
    let (setup_params, cur3) = match read_setups_list(b, cur2) {
        Some(x) => x,
        None => {
            return None;
        },
    };
    let (context, cur4) = match read_ctx(b, cur3) {
        Some(x) => x,
        None => {
            return None;
        },
    };
    if cur4 != b.len() {
        return None;
    }
    let ps = ProofSpec { statements, meta_statements, setup_params, context };
    proof {
        assert(spec_proof_spec_enc(ps) =~= b@);
    }
    Some(ps)
}

/// The concatenation of sub-proof encodings.
pub open spec fn subs_bytes(v: Seq<StatementProof>) -> Seq<u8>
    decreases v.len(),
{
    if v.len() == 0 {
        Seq::empty()
    } else {
        subs_bytes(v.drop_last()) + spec_sub_enc(v.last())
    }
}

/// The encoding of a composed proof: its sub-proof count, then each
/// sub-proof.
pub open spec fn spec_proof_enc(p: Proof) -> Seq<u8> {
    u64_le_bytes(p.0@.len() as u64) + subs_bytes(p.0@)
}

/// Encodes a composed proof.
pub fn proof_encode(p: &Proof) -> (r: Vec<u8>)
    ensures
        r@ == spec_proof_enc(*p),
{
    let mut out: Vec<u8> = Vec::new();
    append_u64_le(&mut out, p.0.len() as u64);
    let n = p.0.len();
    let mut i: usize = 0;
    while i < n
        invariant
            i <= n,
            n == p.0@.len(),
            out@ == u64_le_bytes(n as u64) + subs_bytes(p.0@.take(i as int)),
        decreases n - i,
    {
        append_sub_enc(&mut out, &p.0[i]);
        proof {
            assert(p.0@.take(i + 1).drop_last() =~= p.0@.take(i as int));
            assert(p.0@.take(i + 1).last() == p.0@[i as int]);
        }
        i += 1;
    }
    assert(p.0@.take(n as int) =~= p.0@);
    out
}

/// Decodes a composed proof; when it returns a value, the input is exactly
/// that value's encoding.
pub fn proof_decode(b: &Vec<u8>) -> (r: Option<Proof>)
    ensures
        r matches Some(p) ==> spec_proof_enc(p) == b@,
{
    let (count, mut cur) = match read_u64(b, 0) {
        Some(x) => x,
        None => {
            return None;
        },
    };
    if count > usize::MAX as u64 {
        return None;
    }
    let count_us = count as usize;
    let mut out: Vec<StatementProof> = Vec::new();
    let mut i: usize = 0;
    while i < count_us
        invariant
            i <= count_us,
            out@.len() == i,
            8 <= cur <= b@.len(),
            u64_le_bytes(count_us as u64) == b@.subrange(0, 8),
            subs_bytes(out@) == b@.subrange(8, cur as int),
        decreases count_us - i,
    {
        let (x, end2) = match read_sub(b, cur) {
            Some(y) => y,
            None => {
                return None;
            },
        };
        let ghost prev = out@;
        out.push(x);
        proof {
            assert(out@.drop_last() =~= prev);
            assert(b@.subrange(8, end2 as int) =~= b@.subrange(8, cur as int) + b@.subrange(
                cur as int,
                end2 as int,
            ));
            assert(subs_bytes(out@) =~= b@.subrange(8, end2 as int));
        }
        cur = end2;
        i += 1;
    }
    if cur != b.len() {
        return None;
    }
    let p = Proof(out);
    proof {
        assert(spec_proof_enc(p) =~= b@);
    }
    Some(p)
}

} // verus!
