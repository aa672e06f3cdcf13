use ark_std::rand::rngs::StdRng;
use ark_std::rand::SeedableRng;
use bbs_plus::codec::{params_decode, params_encode, sig_decode, sig_encode, sk_decode};
use bbs_plus::errors::BBSPlusError;
use bbs_plus::keys::KeypairG2;
use bbs_plus::params::SignatureParamsG1;
use bbs_plus::scalar::{fr_add, fr_challenge, fr_from_seed, fr_mul, fr_neg, fr_random, Scalar};
use bbs_plus::sig::SignatureG1;

#[test]
fn signature_round_trip_and_bad_bytes() {
    let mut rng = StdRng::seed_from_u64(1u64);
    let params = SignatureParamsG1::new(&b"codec".to_vec(), 3);
    let keypair = KeypairG2::generate_using_rng(&mut rng, &params);
    let messages: Vec<Scalar> = (0..3).map(|_| fr_random(&mut rng)).collect();
    let sig = SignatureG1::new(&mut rng, &messages, &keypair.secret_key, &params).unwrap();

    let enc = sig_encode(&sig);
    assert_eq!(enc.len(), 112);
    assert_eq!(sig_decode(&enc).unwrap(), sig);

    // A truncated string is rejected.
    let short = enc[..100].to_vec();
    assert!(sig_decode(&short).is_none());

    // All-ones bytes are no canonical point encoding.
    let junk = vec![0xffu8; 112];
    assert!(sig_decode(&junk).is_none());

    // A secret key must be exactly 32 bytes.
    assert!(sk_decode(&vec![1u8; 31]).is_none());
}

#[test]
fn params_codec_rejects_wrong_count() {
    let mut rng = StdRng::seed_from_u64(2u64);
    let params = SignatureParamsG1::generate_using_rng(&mut rng, 4);
    let mut enc = params_encode(&params);
    assert_eq!(params_decode(&enc).unwrap(), params);

    // A count that disagrees with the length is rejected.
    enc[0] = enc[0].wrapping_add(1);
    assert!(params_decode(&enc).is_none());
}

#[test]
fn commit_rejects_out_of_range_index() {
    let mut rng = StdRng::seed_from_u64(3u64);
    let params = SignatureParamsG1::generate_using_rng(&mut rng, 2);
    let blinding = fr_random(&mut rng);
    let m = fr_random(&mut rng);
    // Index 2 is beyond the two supported messages.
    let r = params.commit_to_messages(&vec![(0usize, m.clone()), (2usize, m)], &blinding);
    assert_eq!(r.unwrap_err(), BBSPlusError::InvalidMessageIdx(2));
}

#[test]
fn scalar_ops_change_their_arguments() {
    // Each arithmetic wrapper must not hand an argument back unchanged.
    let mut rng = StdRng::seed_from_u64(4u64);
    let a = fr_random(&mut rng);
    let b = fr_random(&mut rng);
    assert_ne!(fr_add(&a, &b), a);
    assert_ne!(fr_mul(&a, &b), a);
    assert_ne!(fr_neg(&a), a);
    assert_ne!(fr_add(&fr_neg(&a), &a), a);

    // Seed derivation is domain-separated and deterministic.
    let s1 = fr_from_seed(&b"dst-a".to_vec(), &b"seed".to_vec());
    let s2 = fr_from_seed(&b"dst-b".to_vec(), &b"seed".to_vec());
    let s3 = fr_from_seed(&b"dst-a".to_vec(), &b"seed".to_vec());
    assert_ne!(s1, s2);
    assert_eq!(s1, s3);

    // The challenge oracle depends on its transcript.
    let c1 = fr_challenge(&b"one transcript".to_vec());
    let c2 = fr_challenge(&b"another transcript".to_vec());
    assert_ne!(c1, c2);
}
