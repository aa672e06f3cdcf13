//! Key material: a secret scalar `x` and the public key `w = g2 * x`.

use vstd::prelude::*;

use crate::g2::{g2_is_id_of, g2_is_identity, g2_mul, g2_mul_of, G2El};
use crate::params::SignatureParamsG1;
use crate::scalar::{fr_from_seed, fr_of_seed, fr_random, Scalar};
use ark_std::rand::rngs::StdRng;

verus! {

/// The key-generation domain-separation tag: `"BBS-SIG-KEYGEN-SALT-"`.
pub open spec fn keygen_salt() -> Seq<u8> {
    seq![
        66u8, 66u8, 83u8, 45u8, 83u8, 73u8, 71u8, 45u8, 75u8, 69u8, 89u8, 71u8, 69u8, 78u8, 45u8,
        83u8, 65u8, 76u8, 84u8, 45u8,
    ]
}

fn build_keygen_salt() -> (r: Vec<u8>)
    ensures
        r@ == keygen_salt(),
{
    let mut out: Vec<u8> = Vec::new();
    out.push(66);
    out.push(66);
    out.push(83);
    out.push(45);
    out.push(83);
    out.push(73);
    out.push(71);
    out.push(45);
    out.push(75);
    out.push(69);
    out.push(89);
    out.push(71);
    out.push(69);
    out.push(78);
    out.push(45);
    out.push(83);
    out.push(65);
    out.push(76);
    out.push(84);
    out.push(45);
    assert(out@ =~= keygen_salt());
    out
}

/// The signer's secret scalar. It is cloned only explicitly; ownership
/// otherwise moves.
#[derive(Clone, Debug)]
pub struct SecretKey(pub Scalar);

impl PartialEq for SecretKey {
    fn eq(&self, other: &SecretKey) -> (r: bool) {
        self.0 == other.0
    }
}

impl Eq for SecretKey {}

impl vstd::std_specs::cmp::PartialEqSpecImpl for SecretKey {
    open spec fn obeys_eq_spec() -> bool {
        true
    }

    open spec fn eq_spec(&self, other: &SecretKey) -> bool {
        self.0@ == other.0@
    }
}

impl SecretKey {
    /// Derives the secret scalar from a seed under the key-generation tag;
    /// the same seed always yields the same key.
    pub fn generate_using_seed(seed: &Vec<u8>) -> (r: Self)
        ensures
            r.0@ == fr_of_seed(keygen_salt(), seed@),
    {
        let salt = build_keygen_salt();
        SecretKey(fr_from_seed(&salt, seed))
    }

    /// Samples a secret scalar uniformly with the supplied generator.
    pub fn generate_using_rng(rng: &mut StdRng) -> (r: Self) {
        SecretKey(fr_random(rng))
    }
}

/// The public key `w = g2 * x`, an element of the second group. It is bound
/// to the `g2` of the parameters it was generated with; keeping that binding
/// is the caller's responsibility.
#[derive(Clone, Copy, Debug)]
pub struct PublicKeyG2(pub G2El);

impl PartialEq for PublicKeyG2 {
    fn eq(&self, other: &PublicKeyG2) -> (r: bool) {
        self.0 == other.0
    }
}

impl Eq for PublicKeyG2 {}

impl vstd::std_specs::cmp::PartialEqSpecImpl for PublicKeyG2 {
    open spec fn obeys_eq_spec() -> bool {
        true
    }

    open spec fn eq_spec(&self, other: &PublicKeyG2) -> bool {
        self.0@ == other.0@
    }
}

impl PublicKeyG2 {
    /// Computes `w = g2 * x` from the secret key and the parameters' `g2`.
    pub fn generate_using_secret_key(secret_key: &SecretKey, params: &SignatureParamsG1) -> (r:
        Self)
        ensures
            r.0@ == g2_mul_of(params.g2@, secret_key.0@),
    {
        PublicKeyG2(g2_mul(&params.g2, &secret_key.0))
    }

    /// Checks that the public key is not the identity. A verifier must check
    /// this before using a received key.
    pub fn is_valid(&self) -> (r: bool)
        ensures
            r == !g2_is_id_of(self.0@),
    {
        !g2_is_identity(&self.0)
    }
}

/// A secret key together with its public key.
#[derive(Clone, Debug)]
pub struct KeypairG2 {
    pub secret_key: SecretKey,
    pub public_key: PublicKeyG2,
}

impl PartialEq for KeypairG2 {
    fn eq(&self, other: &KeypairG2) -> (r: bool) {
        self.secret_key == other.secret_key && self.public_key == other.public_key
    }
}

impl Eq for KeypairG2 {}

impl vstd::std_specs::cmp::PartialEqSpecImpl for KeypairG2 {
    open spec fn obeys_eq_spec() -> bool {
        true
    }

    open spec fn eq_spec(&self, other: &KeypairG2) -> bool {
        self.secret_key.0@ == other.secret_key.0@ && self.public_key.0@ == other.public_key.0@
    }
}

impl KeypairG2 {
    /// Derives the keypair deterministically from a seed.
    pub fn generate_using_seed(seed: &Vec<u8>, params: &SignatureParamsG1) -> (r: Self)
        ensures
            r.secret_key.0@ == fr_of_seed(keygen_salt(), seed@),
            r.public_key.0@ == g2_mul_of(params.g2@, r.secret_key.0@),
    {
        let secret_key = SecretKey::generate_using_seed(seed);
        let public_key = PublicKeyG2::generate_using_secret_key(&secret_key, params);
        KeypairG2 { secret_key, public_key }
    }

    /// Samples a keypair with the supplied generator.
    pub fn generate_using_rng(rng: &mut StdRng, params: &SignatureParamsG1) -> (r: Self)
        ensures
            r.public_key.0@ == g2_mul_of(params.g2@, r.secret_key.0@),
    {
        let secret_key = SecretKey::generate_using_rng(rng);
        let public_key = PublicKeyG2::generate_using_secret_key(&secret_key, params);
        KeypairG2 { secret_key, public_key }
    }
}

/// Two secret keys derived from the same seed are the same key.
pub proof fn lemma_secret_key_from_seed_deterministic(a: SecretKey, b: SecretKey, seed: Seq<u8>)
    requires
        a.0@ == fr_of_seed(keygen_salt(), seed),
        b.0@ == fr_of_seed(keygen_salt(), seed),
    ensures
        a.0@ == b.0@,
{
}

} // verus!
