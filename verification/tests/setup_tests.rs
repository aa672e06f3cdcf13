use ark_std::rand::rngs::StdRng;
use ark_std::rand::SeedableRng;
use bbs_plus::codec::{keypair_decode, keypair_encode, params_decode, params_encode, pk_decode,
    pk_encode, sk_decode, sk_encode};
use bbs_plus::keys::{KeypairG2, PublicKeyG2, SecretKey};
use bbs_plus::params::SignatureParamsG1;
use bbs_plus::scalar::fr_challenge;
use bbs_plus::scalar::fr_random;
use bbs_plus::dlog::PoKSecretKeyInPublicKeyG2;

#[test]
fn keypair() {
    let params = SignatureParamsG1::new(&b"test".to_vec(), 5);
    let seed = vec![0u8, 1, 2, 10, 11];

    let sk = SecretKey::generate_using_seed(&seed);
    assert_eq!(sk, SecretKey::generate_using_seed(&seed));

    let pk = PublicKeyG2::generate_using_secret_key(&sk, &params);

    let keypair = KeypairG2::generate_using_seed(&seed, &params);
    assert_eq!(
        keypair,
        KeypairG2 {
            secret_key: sk.clone(),
            public_key: pk
        }
    );
    drop(sk);
    drop(keypair);
}

#[test]
fn serz_deserz() {
    // Round-trip the canonical encodings of keypair, secret key, public key
    // and signature params.
    let mut rng = StdRng::seed_from_u64(0u64);
    let message_count = 10;
    let params = SignatureParamsG1::generate_using_rng(&mut rng, message_count);
    let enc = params_encode(&params);
    assert_eq!(params_decode(&enc).unwrap(), params);

    let keypair = KeypairG2::generate_using_rng(&mut rng, &params);
    let enc = keypair_encode(&keypair);
    assert_eq!(keypair_decode(&enc).unwrap(), keypair);

    let pk = keypair.public_key.clone();
    let sk = keypair.secret_key.clone();
    let enc = pk_encode(&pk);
    assert_eq!(pk_decode(&enc).unwrap(), pk);
    let enc = sk_encode(&sk);
    assert_eq!(sk_decode(&enc).unwrap(), sk);
}

#[test]
fn params_deterministically() {
    // Generation of signature params is deterministic in the label.
    let message_count = 10;
    let label_1 = b"test1".to_vec();
    let params_1 = SignatureParamsG1::new(&label_1, message_count);
    assert!(params_1.is_valid());
    assert_eq!(params_1.supported_message_count(), message_count);

    // Same label generates the same params.
    let params_1_again = SignatureParamsG1::new(&label_1, message_count);
    assert_eq!(params_1_again, params_1);

    // A different label generates different params.
    let label_2 = b"test2".to_vec();
    let params_2 = SignatureParamsG1::new(&label_2, message_count);
    assert_ne!(params_1, params_2);
}

#[test]
fn proof_of_knowledge_of_public_key() {
    let mut rng = StdRng::seed_from_u64(0u64);
    let params = SignatureParamsG1::new(&b"test".to_vec(), 5);
    let seed = vec![0u8, 1, 2, 10, 11];
    let sk = SecretKey::generate_using_seed(&seed);
    let pk = PublicKeyG2::generate_using_secret_key(&sk, &params);

    let base = &params.g2;
    let witness = sk.0.clone();
    let blinding = fr_random(&mut rng);

    let protocol = PoKSecretKeyInPublicKeyG2::init(witness, blinding, base);

    let mut chal_contrib_prover = vec![];
    protocol.challenge_contribution(base, &pk.0, &mut chal_contrib_prover);

    let challenge_prover = fr_challenge(&chal_contrib_prover);
    let proof = protocol.gen_proof(&challenge_prover);

    let mut chal_contrib_verifier = vec![];
    proof.challenge_contribution(base, &pk.0, &mut chal_contrib_verifier);

    let challenge_verifier = fr_challenge(&chal_contrib_verifier);
    assert!(proof.verify(&pk.0, base, &challenge_verifier));
    assert_eq!(chal_contrib_prover, chal_contrib_verifier);
    assert_eq!(challenge_prover, challenge_verifier);

    // A swapped public key must reject.
    let other = PublicKeyG2::generate_using_secret_key(
        &SecretKey::generate_using_seed(&vec![9u8, 9, 9]),
        &params,
    );
    assert!(!proof.verify(&other.0, base, &challenge_verifier));
}
