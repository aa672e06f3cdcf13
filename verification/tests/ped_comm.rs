use ark_std::rand::rngs::StdRng;
use ark_std::rand::SeedableRng;
use bbs_plus::codec::{proof_decode, proof_encode, proof_spec_decode, proof_spec_encode,
    setup_params_decode, setup_params_encode, statements_decode, statements_encode,
    witnesses_decode, witnesses_encode};
use bbs_plus::composition::Proof;
use bbs_plus::transcript::StatementProof;
use bbs_plus::errors::BBSPlusError;
use bbs_plus::g1::{g1_msm, g1_random, G1El};
use bbs_plus::proof_spec::ProofSpec;
use bbs_plus::scalar::{fr_random, Scalar};
use bbs_plus::statements::{EqualWitnesses, MetaStatement, SetupParams, Statement, Witness};

fn random_bases(rng: &mut StdRng, n: usize) -> Vec<G1El> {
    (0..n).map(|_| g1_random(rng)).collect()
}

fn random_scalars(rng: &mut StdRng, n: usize) -> Vec<Scalar> {
    (0..n).map(|_| fr_random(rng)).collect()
}

#[test]
fn pok_of_knowledge_in_pedersen_commitment_and_equality() {
    // Prove knowledge of openings of Pedersen commitments and equality
    // between committed elements.
    let mut rng = StdRng::seed_from_u64(0u64);

    let bases_1 = random_bases(&mut rng, 5);
    let scalars_1 = random_scalars(&mut rng, 5);
    let commitment_1 = g1_msm(&bases_1, &scalars_1);

    let bases_2 = random_bases(&mut rng, 10);
    let mut scalars_2 = random_scalars(&mut rng, 10);
    // Make two of the scalars the same.
    scalars_2[1] = scalars_1[3].clone();
    scalars_2[4] = scalars_1[0].clone();
    let commitment_2 = g1_msm(&bases_2, &scalars_2);

    let statements = vec![
        Statement::PedersenCommitment { bases: bases_1.clone(), commitment: commitment_1.clone() },
        Statement::PedersenCommitment { bases: bases_2.clone(), commitment: commitment_2.clone() },
    ];

    // 0th statement's 3rd witness equals 1st statement's 1st witness, and
    // 0th statement's 0th witness equals 1st statement's 4th witness.
    let meta_statements = vec![
        MetaStatement::WitnessEquality(EqualWitnesses(vec![(0, 3), (1, 1)])),
        MetaStatement::WitnessEquality(EqualWitnesses(vec![(0, 0), (1, 4)])),
    ];

    let witnesses = vec![
        Witness::PedersenCommitment(scalars_1.clone()),
        Witness::PedersenCommitment(scalars_2.clone()),
    ];

    // The canonical encodings of statements and witnesses round-trip.
    let enc = statements_encode(&statements);
    assert_eq!(statements_encode(&statements_decode(&enc).unwrap()), enc);
    let enc = witnesses_encode(&witnesses);
    assert_eq!(witnesses_encode(&witnesses_decode(&enc).unwrap()), enc);

    let context = Some(b"test".to_vec());

    let proof_spec = ProofSpec::new(
        statements.clone(),
        meta_statements.clone(),
        vec![],
        context.clone(),
    );
    proof_spec.validate().unwrap();

    // The proof spec's encoding round-trips.
    let enc = proof_spec_encode(&proof_spec);
    assert_eq!(proof_spec_encode(&proof_spec_decode(&enc).unwrap()), enc);

    let nonce = Some(b"test nonce".to_vec());
    let proof = Proof::new(&mut rng, &proof_spec, &witnesses, &nonce).unwrap();

    // The proof's encoding round-trips.
    let enc = proof_encode(&proof);
    assert_eq!(proof_encode(&proof_decode(&enc).unwrap()), enc);

    proof.verify(&proof_spec, &nonce).unwrap();

    // A changed nonce must reject.
    let other_nonce = Some(b"other nonce".to_vec());
    assert!(proof.verify(&proof_spec, &other_nonce).is_err());

    // A wrong commitment must fail to verify.
    let statements_wrong = vec![
        Statement::PedersenCommitment { bases: bases_1.clone(), commitment: commitment_1.clone() },
        // The commitment is wrong.
        Statement::PedersenCommitment { bases: bases_2.clone(), commitment: commitment_1.clone() },
    ];
    let proof_spec_invalid = ProofSpec::new(
        statements_wrong,
        meta_statements.clone(),
        vec![],
        context.clone(),
    );
    proof_spec_invalid.validate().unwrap();

    let proof = Proof::new(&mut rng, &proof_spec_invalid, &witnesses, &nonce).unwrap();
    assert!(proof.verify(&proof_spec_invalid, &nonce).is_err());

    // A false claimed equality must fail to verify.
    let meta_statements_wrong = vec![
        // This equality does not hold.
        MetaStatement::WitnessEquality(EqualWitnesses(vec![(0, 3), (1, 0)])),
        MetaStatement::WitnessEquality(EqualWitnesses(vec![(0, 0), (1, 4)])),
    ];
    let proof_spec_invalid = ProofSpec::new(
        statements.clone(),
        meta_statements_wrong,
        vec![],
        context.clone(),
    );

    let proof = Proof::new(&mut rng, &proof_spec_invalid, &witnesses, &nonce).unwrap();
    assert_eq!(
        proof.verify(&proof_spec_invalid, &nonce),
        Err(BBSPlusError::WitnessEqualityViolation)
    );
}

#[test]
fn pok_of_knowledge_in_pedersen_commitment_and_equality_with_commitment_key_reuse() {
    // As above, with the commitment key shared through the setup params.
    let mut rng = StdRng::seed_from_u64(0u64);

    let count = 5;
    let bases = random_bases(&mut rng, count);
    let scalars_1 = random_scalars(&mut rng, count);
    let mut scalars_2 = random_scalars(&mut rng, count);
    // Make two of the scalars the same.
    scalars_2[1] = scalars_1[3].clone();
    scalars_2[4] = scalars_1[0].clone();
    let scalars_3 = random_scalars(&mut rng, count);

    let commitment_1 = g1_msm(&bases, &scalars_1);
    let commitment_2 = g1_msm(&bases, &scalars_2);
    let commitment_3 = g1_msm(&bases, &scalars_3);

    let all_setup_params = vec![SetupParams::PedersenCommitmentKey(bases)];

    // The setup entries' encoding round-trips.
    let enc = setup_params_encode(&all_setup_params);
    assert_eq!(setup_params_encode(&setup_params_decode(&enc).unwrap()), enc);

    let statements = vec![
        Statement::PedersenCommitmentFromSetupParams { key_ref: 0, commitment: commitment_1 },
        Statement::PedersenCommitmentFromSetupParams { key_ref: 0, commitment: commitment_2 },
        Statement::PedersenCommitmentFromSetupParams { key_ref: 0, commitment: commitment_3 },
    ];

    let meta_statements = vec![
        MetaStatement::WitnessEquality(EqualWitnesses(vec![(0, 3), (1, 1)])),
        MetaStatement::WitnessEquality(EqualWitnesses(vec![(0, 0), (1, 4)])),
    ];

    let witnesses = vec![
        Witness::PedersenCommitment(scalars_1),
        Witness::PedersenCommitment(scalars_2),
        Witness::PedersenCommitment(scalars_3),
    ];

    let context = Some(b"test".to_vec());
    let proof_spec = ProofSpec::new(statements, meta_statements, all_setup_params, context);
    proof_spec.validate().unwrap();

    let enc = proof_spec_encode(&proof_spec);
    assert_eq!(proof_spec_encode(&proof_spec_decode(&enc).unwrap()), enc);

    let nonce = Some(b"test nonce".to_vec());
    let proof = Proof::new(&mut rng, &proof_spec, &witnesses, &nonce).unwrap();

    let enc = proof_encode(&proof);
    assert_eq!(proof_encode(&proof_decode(&enc).unwrap()), enc);

    proof.verify(&proof_spec, &nonce).unwrap();
}

#[test]
fn proof_spec_validation_rejects_bad_references() {
    let mut rng = StdRng::seed_from_u64(7u64);
    let bases = random_bases(&mut rng, 3);
    let scalars = random_scalars(&mut rng, 3);
    let commitment = g1_msm(&bases, &scalars);

    // An unresolved setup reference.
    let spec = ProofSpec::new(
        vec![Statement::PedersenCommitmentFromSetupParams { key_ref: 1, commitment }],
        vec![],
        vec![],
        None,
    );
    assert_eq!(spec.validate(), Err(BBSPlusError::ProofSpecInvalid));

    // An out-of-range witness-equality reference.
    let spec = ProofSpec::new(
        vec![Statement::PedersenCommitment { bases: bases.clone(), commitment }],
        vec![MetaStatement::WitnessEquality(EqualWitnesses(vec![(0, 0), (0, 3)]))],
        vec![],
        None,
    );
    assert_eq!(spec.validate(), Err(BBSPlusError::ProofSpecInvalid));

    // A class with fewer than two members.
    let spec = ProofSpec::new(
        vec![Statement::PedersenCommitment { bases: bases.clone(), commitment }],
        vec![MetaStatement::WitnessEquality(EqualWitnesses(vec![(0, 0)]))],
        vec![],
        None,
    );
    assert_eq!(spec.validate(), Err(BBSPlusError::ProofSpecInvalid));

    // A slot claimed by two classes.
    let spec = ProofSpec::new(
        vec![Statement::PedersenCommitment { bases: bases.clone(), commitment }],
        vec![
            MetaStatement::WitnessEquality(EqualWitnesses(vec![(0, 0), (0, 1)])),
            MetaStatement::WitnessEquality(EqualWitnesses(vec![(0, 1), (0, 2)])),
        ],
        vec![],
        None,
    );
    assert_eq!(spec.validate(), Err(BBSPlusError::ProofSpecInvalid));

    // A witness of the wrong kind.
    let spec = ProofSpec::new(
        vec![Statement::PedersenCommitment { bases: bases.clone(), commitment }],
        vec![],
        vec![],
        None,
    );
    spec.validate().unwrap();
    let wits = vec![Witness::PedersenCommitment(random_scalars(&mut rng, 2))];
    assert!(matches!(
        Proof::new(&mut rng, &spec, &wits, &None),
        Err(BBSPlusError::WitnessKindMismatch)
    ));
}

#[test]
fn tampered_proof_rejects() {
    // Changing any part of a valid proof makes verification reject.
    let mut rng = StdRng::seed_from_u64(9u64);
    let bases = random_bases(&mut rng, 4);
    let scalars = random_scalars(&mut rng, 4);
    let commitment = g1_msm(&bases, &scalars);
    let spec = ProofSpec::new(
        vec![Statement::PedersenCommitment { bases, commitment }],
        vec![],
        vec![],
        Some(b"test".to_vec()),
    );
    spec.validate().unwrap();
    let wits = vec![Witness::PedersenCommitment(scalars)];
    let nonce = Some(b"test nonce".to_vec());
    let proof = Proof::new(&mut rng, &spec, &wits, &nonce).unwrap();
    proof.verify(&spec, &nonce).unwrap();

    // A changed response scalar.
    let mut tampered = proof.clone();
    match &mut tampered.0[0] {
        StatementProof::PedersenCommitment { responses, .. } => {
            responses[0] = fr_random(&mut rng);
        }
        _ => unreachable!(),
    }
    assert!(tampered.verify(&spec, &nonce).is_err());

    // A changed commitment point.
    let mut tampered = proof.clone();
    match &mut tampered.0[0] {
        StatementProof::PedersenCommitment { t, .. } => {
            *t = g1_random(&mut rng);
        }
        _ => unreachable!(),
    }
    assert!(tampered.verify(&spec, &nonce).is_err());

    // A changed nonce.
    assert!(proof.verify(&spec, &Some(b"bad nonce".to_vec())).is_err());
}

#[test]
fn tampering_any_proof_byte_rejects() {
    // Flipping any single byte of an encoded proof makes decoding fail or
    // verification reject.
    let mut rng = StdRng::seed_from_u64(11u64);
    let bases = random_bases(&mut rng, 3);
    let scalars = random_scalars(&mut rng, 3);
    let commitment = g1_msm(&bases, &scalars);
    let spec = ProofSpec::new(
        vec![Statement::PedersenCommitment { bases, commitment }],
        vec![],
        vec![],
        Some(b"test".to_vec()),
    );
    spec.validate().unwrap();
    let wits = vec![Witness::PedersenCommitment(scalars)];
    let nonce = Some(b"test nonce".to_vec());
    let proof = Proof::new(&mut rng, &spec, &wits, &nonce).unwrap();
    proof.verify(&spec, &nonce).unwrap();

    let enc = proof_encode(&proof);
    for i in 0..enc.len() {
        let mut bad = enc.clone();
        bad[i] ^= 1;
        match proof_decode(&bad) {
            None => {}
            Some(p) => assert!(p.verify(&spec, &nonce).is_err()),
        }
    }
}
