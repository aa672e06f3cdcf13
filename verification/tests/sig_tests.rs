use ark_std::rand::rngs::StdRng;
use ark_std::rand::SeedableRng;
use bbs_plus::composition::Proof;
use bbs_plus::errors::BBSPlusError;
use bbs_plus::g1::g1_msm;
use bbs_plus::keys::{KeypairG2, SecretKey};
use bbs_plus::params::SignatureParamsG1;
use bbs_plus::pok_sig::PoKOfSignatureG1Protocol;
use bbs_plus::proof_spec::ProofSpec;
use bbs_plus::scalar::{fr_challenge, fr_random, Scalar};
use bbs_plus::sig::SignatureG1;
use bbs_plus::statements::{EqualWitnesses, MetaStatement, Statement, Witness};

fn fixed_setup() -> (SignatureParamsG1, KeypairG2, Vec<Scalar>, StdRng) {
    let mut rng = StdRng::seed_from_u64(0u64);
    let params = SignatureParamsG1::new(&b"test".to_vec(), 5);
    let seed = vec![0u8, 1, 2, 10, 11];
    let keypair = KeypairG2::generate_using_seed(&seed, &params);
    let messages: Vec<Scalar> = (0..5).map(|_| fr_random(&mut rng)).collect();
    (params, keypair, messages, rng)
}

#[test]
fn sign_and_verify() {
    let (params, keypair, messages, mut rng) = fixed_setup();

    let sig = SignatureG1::new(&mut rng, &messages, &keypair.secret_key, &params).unwrap();
    sig.verify(&messages, &keypair.public_key, &params).unwrap();

    // Flipping a message must reject.
    let mut wrong = messages.clone();
    wrong[2] = fr_random(&mut rng);
    assert!(matches!(
        sig.verify(&wrong, &keypair.public_key, &params),
        Err(BBSPlusError::SignatureVerificationFailed)
    ));

    // A different public key must reject.
    let other = KeypairG2::generate_using_seed(&vec![5u8, 5, 5], &params);
    assert!(sig.verify(&messages, &other.public_key, &params).is_err());
}

fn run_pok(
    rng: &mut StdRng,
    params: &SignatureParamsG1,
    keypair: &KeypairG2,
    messages: &Vec<Scalar>,
    sig: &SignatureG1,
    revealed_indices: Vec<usize>,
    claimed: Vec<(usize, Scalar)>,
) -> Result<(), BBSPlusError> {
    let no_blindings: Vec<Option<Scalar>> = (0..messages.len()).map(|_| None).collect();
    let protocol = PoKOfSignatureG1Protocol::init(
        rng,
        sig,
        params,
        messages,
        &revealed_indices,
        &no_blindings,
    )
    .unwrap();

    let revealed_pairs: Vec<(usize, Scalar)> = revealed_indices
        .iter()
        .map(|i| (*i, messages[*i].clone()))
        .collect();

    let mut contrib = vec![];
    protocol.challenge_contribution(&revealed_pairs, &keypair.public_key, params, &mut contrib);
    let challenge = fr_challenge(&contrib);
    let proof = protocol.gen_proof(&challenge);

    // The verifier recomputes the challenge from the proof's contribution
    // and the claimed disclosed values.
    let mut contrib_v = vec![];
    proof.challenge_contribution(&claimed, &keypair.public_key, params, &mut contrib_v);
    let challenge_v = fr_challenge(&contrib_v);
    proof.verify(&claimed, &challenge_v, &keypair.public_key, params)
}

#[test]
fn pok_of_signature_with_disclosure() {
    let (params, keypair, messages, mut rng) = fixed_setup();
    let sig = SignatureG1::new(&mut rng, &messages, &keypair.secret_key, &params).unwrap();

    // Full disclosure of all five messages.
    let all: Vec<usize> = (0..5).collect();
    let claimed: Vec<(usize, Scalar)> = all.iter().map(|i| (*i, messages[*i].clone())).collect();
    run_pok(&mut rng, &params, &keypair, &messages, &sig, all, claimed).unwrap();

    // Disclosure of two messages.
    let some: Vec<usize> = vec![2, 4];
    let claimed: Vec<(usize, Scalar)> = some.iter().map(|i| (*i, messages[*i].clone())).collect();
    run_pok(&mut rng, &params, &keypair, &messages, &sig, some.clone(), claimed).unwrap();

    // A wrong claimed value for a disclosed message must reject.
    let wrong_value = fr_random(&mut rng);
    let claimed_wrong: Vec<(usize, Scalar)> =
        vec![(2, wrong_value), (4, messages[4].clone())];
    assert!(run_pok(
        &mut rng,
        &params,
        &keypair,
        &messages,
        &sig,
        some,
        claimed_wrong
    )
    .is_err());
}

#[test]
fn pok_of_signature_linked_to_pedersen() {
    // One BBS+ signature over five messages and one Pedersen commitment over
    // three scalars whose second scalar equals the signature's third
    // (unrevealed) message, linked by a witness-equality class.
    let (params, keypair, messages, mut rng) = fixed_setup();
    let sig = SignatureG1::new(&mut rng, &messages, &keypair.secret_key, &params).unwrap();

    let bases: Vec<_> = (0..3).map(|_| bbs_plus::g1::g1_random(&mut rng)).collect();
    let mut scalars: Vec<Scalar> = (0..3).map(|_| fr_random(&mut rng)).collect();
    scalars[1] = messages[2].clone();
    let commitment = g1_msm(&bases, &scalars);

    let statements = vec![
        Statement::PoKBBSPlusSignature {
            params: params.clone(),
            public_key: keypair.public_key.clone(),
            revealed: vec![],
        },
        Statement::PedersenCommitment { bases: bases.clone(), commitment },
    ];
    let meta_statements = vec![MetaStatement::WitnessEquality(EqualWitnesses(vec![
        (0, 2),
        (1, 1),
    ]))];
    let unrevealed: Vec<(usize, Scalar)> =
        messages.iter().cloned().enumerate().collect();
    let witnesses = vec![
        Witness::PoKBBSPlusSignature { signature: sig.clone(), unrevealed_messages: unrevealed },
        Witness::PedersenCommitment(scalars.clone()),
    ];

    let proof_spec = ProofSpec::new(statements.clone(), meta_statements.clone(), vec![], None);
    proof_spec.validate().unwrap();

    let nonce = Some(b"test nonce".to_vec());
    let proof = Proof::new(&mut rng, &proof_spec, &witnesses, &nonce).unwrap();
    proof.verify(&proof_spec, &nonce).unwrap();

    // A changed Pedersen scalar breaks the equality.
    let mut scalars_wrong = scalars.clone();
    scalars_wrong[1] = fr_random(&mut rng);
    let commitment_wrong = g1_msm(&bases, &scalars_wrong);
    let statements_wrong = vec![
        statements[0].clone(),
        Statement::PedersenCommitment { bases: bases.clone(), commitment: commitment_wrong },
    ];
    let wits_wrong = vec![
        witnesses[0].clone(),
        Witness::PedersenCommitment(scalars_wrong),
    ];
    let spec_wrong = ProofSpec::new(statements_wrong, meta_statements, vec![], None);
    spec_wrong.validate().unwrap();
    let proof = Proof::new(&mut rng, &spec_wrong, &wits_wrong, &nonce).unwrap();
    assert!(matches!(
        proof.verify(&spec_wrong, &nonce),
        Err(BBSPlusError::WitnessEqualityViolation)
    ));
}

#[test]
fn pok_with_partial_disclosure_in_composition() {
    // A composed proof with one BBS+ statement disclosing two messages;
    // tampering with a disclosed value at verification must reject.
    let (params, keypair, messages, mut rng) = fixed_setup();
    let sig = SignatureG1::new(&mut rng, &messages, &keypair.secret_key, &params).unwrap();

    let revealed: Vec<(usize, Scalar)> =
        vec![(1, messages[1].clone()), (3, messages[3].clone())];
    let unrevealed: Vec<(usize, Scalar)> = vec![
        (0, messages[0].clone()),
        (2, messages[2].clone()),
        (4, messages[4].clone()),
    ];
    let statements = vec![Statement::PoKBBSPlusSignature {
        params: params.clone(),
        public_key: keypair.public_key.clone(),
        revealed: revealed.clone(),
    }];
    let witnesses = vec![Witness::PoKBBSPlusSignature {
        signature: sig,
        unrevealed_messages: unrevealed,
    }];
    let proof_spec = ProofSpec::new(statements, vec![], vec![], Some(b"test".to_vec()));
    proof_spec.validate().unwrap();
    let nonce = Some(b"test nonce".to_vec());
    let proof = Proof::new(&mut rng, &proof_spec, &witnesses, &nonce).unwrap();
    proof.verify(&proof_spec, &nonce).unwrap();

    // The same proof under a statement claiming a different disclosed value
    // must reject.
    let revealed_wrong: Vec<(usize, Scalar)> =
        vec![(1, fr_random(&mut rng)), (3, messages[3].clone())];
    let statements_wrong = vec![Statement::PoKBBSPlusSignature {
        params: params.clone(),
        public_key: keypair.public_key.clone(),
        revealed: revealed_wrong,
    }];
    let spec_wrong = ProofSpec::new(statements_wrong, vec![], vec![], Some(b"test".to_vec()));
    assert!(matches!(
        proof.verify(&spec_wrong, &nonce),
        Err(BBSPlusError::ProofVerificationFailed)
    ));
}

#[test]
fn blind_sign_and_unblind() {
    let (params, keypair, messages, mut rng) = fixed_setup();

    // The holder commits to messages 0 and 2 under a blinding of its own.
    let s_prime = fr_random(&mut rng);
    let committed = vec![(0usize, messages[0].clone()), (2usize, messages[2].clone())];
    let commitment = params.commit_to_messages(&committed, &s_prime).unwrap();

    // The signer signs over the commitment and the uncommitted messages.
    let uncommitted = vec![
        (1usize, messages[1].clone()),
        (3usize, messages[3].clone()),
        (4usize, messages[4].clone()),
    ];
    let blind_sig = SignatureG1::new_with_committed_messages(
        &mut rng,
        &commitment,
        &uncommitted,
        &keypair.secret_key,
        &params,
    )
    .unwrap()
    .unwrap();

    // The holder adds its blinding; the result verifies on the full vector.
    let sig = blind_sig.unblind(&s_prime);
    sig.verify(&messages, &keypair.public_key, &params).unwrap();

    // An out-of-range uncommitted index is reported.
    let bad = vec![(7usize, messages[1].clone())];
    assert!(matches!(
        SignatureG1::new_with_committed_messages(
            &mut rng,
            &commitment,
            &bad,
            &keypair.secret_key,
            &params
        ),
        Err(BBSPlusError::InvalidMessageIdx(7))
    ));
}
