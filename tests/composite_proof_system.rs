use ark_bls12_381::{Bls12_381, Fr, G1Affine, G1Projective};
use ark_ec::{CurveGroup, VariableBaseMSM};
use ark_serialize::CanonicalSerialize;
use ark_std::rand::rngs::StdRng;
use ark_std::rand::SeedableRng;
use ark_std::UniformRand;
use bbs_plus::prelude::{KeypairG2, SignatureG1, SignatureParamsG1};
use vb_accumulator::prelude::{
    Accumulator, Keypair as AccumKeypair, MembershipProvingKey, NonMembershipProvingKey, NonMembershipWitness,
    PositiveAccumulator, SetupParams as AccumParams, UniversalAccumulator,
};

use composite_proofs::composite::{
    generate_accumulator_membership_statement, generate_accumulator_membership_witness,
    generate_accumulator_non_membership_statement, generate_accumulator_non_membership_witness,
    generate_composite_proof_g1, generate_composite_proof_g1_with_deconstructed_proof_spec, generate_pedersen_commitment_g1_statement,
    generate_pedersen_commitment_witness, generate_pok_bbs_sig_statement, generate_pok_bbs_sig_witness,
    generate_witness_equality_meta_statement, verify_composite_proof_g1, verify_composite_proof_g1_with_deconstructed_proof_spec,
};
use composite_proofs::checker::verify;
use composite_proofs::codec::{decode_proof, decode_proof_spec, encode_proof, encode_proof_spec};
use composite_proofs::model::{
    EqualityGroup, FailureReason, Proof, ProofError, ProofSpec, SetupParam, Statement, StatementProof,
    Witness,
};
use composite_proofs::prover::prove;
use composite_proofs::signature_pok::{
    bbs_plus_challenge_contribution_from_proof, bbs_plus_challenge_contribution_from_protocol,
    bbs_plus_gen_proof, bbs_plus_get_bases_for_commitment_g1,
    bbs_plus_initialize_proof_of_knowledge_of_signature, bbs_plus_params_g1_max_supported_msgs,
    bbs_plus_verify_proof,
};
use composite_proofs::spec_builder::generate_proof_spec_g1;
use composite_proofs::transcript::{build_transcript, CHALLENGE_DOMAIN};

const MESSAGE_COUNT: usize = 5;

fn ser<T: CanonicalSerialize>(t: &T) -> Vec<u8> {
    let mut v = Vec::new();
    t.serialize_compressed(&mut v).unwrap();
    v
}

/// A signer's setup, a signature over five messages, and two Pedersen bases.
struct Fixture {
    params: Vec<u8>,
    public_key: Vec<u8>,
    signature: Vec<u8>,
    messages: Vec<Fr>,
    bases: Vec<G1Affine>,
    blinding: Fr,
}

fn fixture(seed: u64) -> Fixture {
    let mut rng = StdRng::seed_from_u64(seed);
    let params = SignatureParamsG1::<Bls12_381>::generate_using_rng(&mut rng, MESSAGE_COUNT as u32);
    let keypair = KeypairG2::<Bls12_381>::generate_using_rng(&mut rng, &params);
    let messages: Vec<Fr> = (0..MESSAGE_COUNT).map(|_| Fr::rand(&mut rng)).collect();
    let signature = SignatureG1::<Bls12_381>::new(&mut rng, &messages, &keypair.secret_key, &params).unwrap();
    let bases = vec![G1Affine::rand(&mut rng), G1Affine::rand(&mut rng)];
    Fixture {
        params: ser(&params),
        public_key: ser(&keypair.public_key),
        signature: ser(&signature),
        messages,
        bases,
        blinding: Fr::rand(&mut rng),
    }
}

/// Statement 0: knowledge of the signature, revealing message 0. Statement 1: knowledge of
/// an opening `(pedersen_value, blinding)` of a Pedersen commitment. One equality group links
/// message 2 of the signature with slot 0 of the commitment.
fn tables(f: &Fixture, pedersen_value: Fr) -> (Vec<Statement>, Vec<SetupParam>, Vec<EqualityGroup>, Vec<Witness>) {
    let commitment = G1Projective::msm(&f.bases, &[pedersen_value, f.blinding]).unwrap().into_affine();
    let setup = vec![
        SetupParam::SignatureParams(f.params.clone()),
        SetupParam::PedersenBases(f.bases.iter().map(ser).collect()),
    ];
    let statements = vec![
        generate_pok_bbs_sig_statement(0, f.public_key.clone(), vec![(0, ser(&f.messages[0]))]),
        generate_pedersen_commitment_g1_statement(1, ser(&commitment)),
    ];
    let equalities = vec![generate_witness_equality_meta_statement(vec![(0, 2), (1, 0)])];
    let witnesses = vec![
        generate_pok_bbs_sig_witness(
            f.signature.clone(),
            (1..MESSAGE_COUNT).map(|i| (i, ser(&f.messages[i]))).collect(),
        ),
        generate_pedersen_commitment_witness(vec![ser(&pedersen_value), ser(&f.blinding)]),
    ];
    (statements, setup, equalities, witnesses)
}

fn spec_of(f: &Fixture, pedersen_value: Fr, context: Option<Vec<u8>>) -> (ProofSpec, Vec<Witness>) {
    let (statements, setup, equalities, witnesses) = tables(f, pedersen_value);
    (generate_proof_spec_g1(statements, setup, equalities, context).unwrap(), witnesses)
}

#[test]
fn signature_and_pedersen_with_equal_slots_verify() {
    let f = fixture(1);
    let (spec, witnesses) = spec_of(&f, f.messages[2], Some(b"context".to_vec()));
    let mut rng = StdRng::seed_from_u64(10);
    let nonce = Some(b"nonce".to_vec());
    let proof = prove(&spec, witnesses, &nonce, &mut rng).unwrap();
    assert_eq!(proof.statement_proofs.len(), 2);
    assert_eq!(verify(&spec, &proof, &nonce), Ok(()));
}

#[test]
fn completeness_without_nonce_or_context() {
    let f = fixture(2);
    let (spec, witnesses) = spec_of(&f, f.messages[2], None);
    let mut rng = StdRng::seed_from_u64(11);
    let proof = prove(&spec, witnesses, &None, &mut rng).unwrap();
    assert_eq!(verify(&spec, &proof, &None), Ok(()));
}

#[test]
fn mutated_pedersen_slot_fails_only_the_equality_check() {
    let f = fixture(3);
    let (spec, witnesses) = spec_of(&f, f.messages[2] + Fr::from(1u64), None);
    let mut rng = StdRng::seed_from_u64(12);
    let proof = prove(&spec, witnesses, &None, &mut rng).unwrap();
    assert_eq!(
        verify(&spec, &proof, &None),
        Err(ProofError::VerificationFailed(FailureReason::EqualityMismatch { group: 0 }))
    );
}

#[test]
fn proof_made_with_one_nonce_fails_with_another() {
    let f = fixture(4);
    let (spec, witnesses) = spec_of(&f, f.messages[2], None);
    let mut rng = StdRng::seed_from_u64(13);
    let proof = prove(&spec, witnesses, &Some(vec![1, 2, 3]), &mut rng).unwrap();
    assert_eq!(verify(&spec, &proof, &Some(vec![1, 2, 3])), Ok(()));
    assert!(matches!(
        verify(&spec, &proof, &Some(vec![1, 2, 4])),
        Err(ProofError::VerificationFailed(FailureReason::StatementCheckFailed { .. }))
    ));
    assert!(matches!(
        verify(&spec, &proof, &None),
        Err(ProofError::VerificationFailed(FailureReason::StatementCheckFailed { .. }))
    ));
}

#[test]
fn proof_with_wrong_statement_count_is_shape_mismatch() {
    let f = fixture(5);
    let (spec, witnesses) = spec_of(&f, f.messages[2], None);
    let mut rng = StdRng::seed_from_u64(14);
    let mut proof = prove(&spec, witnesses, &None, &mut rng).unwrap();
    proof.statement_proofs.pop();
    assert_eq!(verify(&spec, &proof, &None), Err(ProofError::ProofShapeMismatch));
    let empty = Proof { statement_proofs: Vec::new() };
    assert_eq!(verify(&spec, &empty, &None), Err(ProofError::ProofShapeMismatch));
}

#[test]
fn swapped_sub_proofs_are_kind_mismatches() {
    let f = fixture(6);
    let (spec, witnesses) = spec_of(&f, f.messages[2], None);
    let mut rng = StdRng::seed_from_u64(15);
    let mut proof = prove(&spec, witnesses, &None, &mut rng).unwrap();
    proof.statement_proofs.swap(0, 1);
    assert_eq!(
        verify(&spec, &proof, &None),
        Err(ProofError::VerificationFailed(FailureReason::KindMismatch { index: 0 }))
    );
}

#[test]
fn tampered_pedersen_response_fails_its_check() {
    let f = fixture(7);
    let (spec, witnesses) = spec_of(&f, f.messages[2], None);
    let mut rng = StdRng::seed_from_u64(16);
    let mut proof = prove(&spec, witnesses, &None, &mut rng).unwrap();
    if let StatementProof::PedersenOpening { responses, .. } = &mut proof.statement_proofs[1] {
        responses[1] = ser(&Fr::from(7u64));
    } else {
        panic!("second sub-proof is not a Pedersen opening proof");
    }
    assert_eq!(
        verify(&spec, &proof, &None),
        Err(ProofError::VerificationFailed(FailureReason::StatementCheckFailed { index: 1 }))
    );
}

#[test]
fn garbage_sub_proof_is_reported_not_a_crash() {
    let f = fixture(8);
    let (spec, witnesses) = spec_of(&f, f.messages[2], None);
    let mut rng = StdRng::seed_from_u64(17);
    let mut proof = prove(&spec, witnesses, &None, &mut rng).unwrap();
    proof.statement_proofs[0] = StatementProof::SignatureKnowledge { proof: vec![0xff; 10] };
    assert_eq!(
        verify(&spec, &proof, &None),
        Err(ProofError::VerificationFailed(FailureReason::MalformedStatementProof { index: 0 }))
    );
}

#[test]
fn witness_count_mismatch() {
    let f = fixture(9);
    let (spec, mut witnesses) = spec_of(&f, f.messages[2], None);
    witnesses.pop();
    let mut rng = StdRng::seed_from_u64(18);
    assert!(matches!(prove(&spec, witnesses, &None, &mut rng), Err(ProofError::WitnessCountMismatch)));
}

#[test]
fn witness_of_the_wrong_kind_is_malformed() {
    let f = fixture(10);
    let (spec, mut witnesses) = spec_of(&f, f.messages[2], None);
    witnesses.swap(0, 1);
    let mut rng = StdRng::seed_from_u64(19);
    assert!(matches!(prove(&spec, witnesses, &None, &mut rng), Err(ProofError::MalformedSpec)));
}

#[test]
fn pedersen_witness_of_the_wrong_length_fails_that_statement() {
    let f = fixture(11);
    let (spec, mut witnesses) = spec_of(&f, f.messages[2], None);
    witnesses[1] = generate_pedersen_commitment_witness(vec![ser(&f.messages[2])]);
    let mut rng = StdRng::seed_from_u64(20);
    assert!(matches!(
        prove(&spec, witnesses, &None, &mut rng),
        Err(ProofError::StatementProvingError { index: 1 })
    ));
}

#[test]
fn equality_reference_out_of_range_is_malformed() {
    let f = fixture(12);
    let (statements, setup, _, _) = tables(&f, f.messages[2]);
    let groups = vec![generate_witness_equality_meta_statement(vec![(0, 2), (1, 2)])];
    assert!(matches!(generate_proof_spec_g1(statements, setup, groups, None), Err(ProofError::MalformedSpec)));

    let (statements, setup, _, _) = tables(&f, f.messages[2]);
    let groups = vec![generate_witness_equality_meta_statement(vec![(2, 0)])];
    assert!(matches!(generate_proof_spec_g1(statements, setup, groups, None), Err(ProofError::MalformedSpec)));

    let (statements, setup, _, _) = tables(&f, f.messages[2]);
    let groups = vec![generate_witness_equality_meta_statement(vec![(0, MESSAGE_COUNT)])];
    assert!(matches!(generate_proof_spec_g1(statements, setup, groups, None), Err(ProofError::MalformedSpec)));
}

#[test]
fn equality_on_a_revealed_message_is_malformed() {
    let f = fixture(13);
    let (statements, setup, _, _) = tables(&f, f.messages[2]);
    let groups = vec![generate_witness_equality_meta_statement(vec![(0, 0), (1, 0)])];
    assert!(matches!(generate_proof_spec_g1(statements, setup, groups, None), Err(ProofError::MalformedSpec)));
}

#[test]
fn setup_handle_of_the_wrong_kind_or_out_of_range_is_malformed() {
    let f = fixture(14);
    let (_, setup, groups, _) = tables(&f, f.messages[2]);
    let statements = vec![generate_pedersen_commitment_g1_statement(0, vec![0u8; 48])];
    assert!(matches!(generate_proof_spec_g1(statements, setup, groups, None), Err(ProofError::MalformedSpec)));

    let (_, setup, _, _) = tables(&f, f.messages[2]);
    let statements = vec![generate_pok_bbs_sig_statement(7, f.public_key.clone(), vec![])];
    assert!(matches!(generate_proof_spec_g1(statements, setup, vec![], None), Err(ProofError::MalformedSpec)));
}

#[test]
fn revealed_messages_out_of_order_are_malformed() {
    let f = fixture(15);
    let (_, setup, _, _) = tables(&f, f.messages[2]);
    let revealed = vec![(3, ser(&f.messages[3])), (1, ser(&f.messages[1]))];
    let statements = vec![generate_pok_bbs_sig_statement(0, f.public_key.clone(), revealed)];
    assert!(matches!(generate_proof_spec_g1(statements, setup, vec![], None), Err(ProofError::MalformedSpec)));
}

#[test]
fn deconstructed_spec_round() {
    let f = fixture(16);
    let (statements, setup, equalities, witnesses) = tables(&f, f.messages[2]);
    let mut rng = StdRng::seed_from_u64(21);
    let proof = generate_composite_proof_g1_with_deconstructed_proof_spec(
        statements, setup, equalities, witnesses, Some(vec![9]), Some(vec![8]), &mut rng,
    )
    .unwrap();
    let (statements, setup, equalities, _) = tables(&f, f.messages[2]);
    assert_eq!(
        verify_composite_proof_g1_with_deconstructed_proof_spec(
            &proof, statements, setup, equalities, Some(vec![9]), Some(vec![8]),
        ),
        Ok(())
    );
    let (statements, setup, equalities, _) = tables(&f, f.messages[2]);
    assert!(verify_composite_proof_g1_with_deconstructed_proof_spec(
        &proof, statements, setup, equalities, Some(vec![10]), Some(vec![8]),
    )
    .is_err());
}

#[test]
fn equality_group_is_sorted_and_deduplicated() {
    let g = generate_witness_equality_meta_statement(vec![(3, 1), (0, 2), (3, 1), (0, 1), (1, 0)]);
    assert_eq!(g.refs, vec![(0, 1), (0, 2), (1, 0), (3, 1)]);
    let empty = generate_witness_equality_meta_statement(vec![]);
    assert!(empty.refs.is_empty());
}

fn le(n: u64) -> Vec<u8> {
    n.to_le_bytes().to_vec()
}

#[test]
fn proof_spec_encoding_is_exact() {
    let spec = generate_proof_spec_g1(
        vec![generate_pedersen_commitment_g1_statement(0, vec![7])],
        vec![SetupParam::PedersenBases(vec![vec![1, 2]])],
        vec![],
        None,
    );
    // The bases do not decode as points, but assembly only checks indices.
    let spec = spec.unwrap();
    let mut expected = Vec::new();
    expected.extend(le(1));
    expected.push(1);
    expected.extend(le(0));
    expected.extend(le(1));
    expected.push(7);
    expected.extend(le(1));
    expected.push(1);
    expected.extend(le(1));
    expected.extend(le(2));
    expected.extend([1, 2]);
    expected.extend(le(0));
    expected.push(0);
    assert_eq!(encode_proof_spec(&spec), expected);
}

#[test]
fn proof_spec_round_trip() {
    let f = fixture(20);
    let (spec, _) = spec_of(&f, f.messages[2], Some(b"ctx".to_vec()));
    let bytes = encode_proof_spec(&spec);
    let decoded = decode_proof_spec(&bytes).unwrap();
    assert_eq!(decoded.statements.len(), 2);
    assert_eq!(decoded.setup_params.len(), 2);
    assert_eq!(decoded.equalities.len(), 1);
    assert_eq!(decoded.equalities[0].refs, vec![(0, 2), (1, 0)]);
    assert_eq!(decoded.context, Some(b"ctx".to_vec()));
    match &decoded.statements[0] {
        Statement::SignatureKnowledge { params, public_key, revealed } => {
            assert_eq!(*params, 0);
            assert_eq!(public_key, &f.public_key);
            assert_eq!(revealed, &vec![(0, ser(&f.messages[0]))]);
        }
        _ => panic!("statement 0 should be a signature statement"),
    }
    assert_eq!(encode_proof_spec(&decoded), bytes);
}

#[test]
fn malformed_spec_bytes_are_refused() {
    let f = fixture(21);
    let (spec, _) = spec_of(&f, f.messages[2], None);
    let bytes = encode_proof_spec(&spec);
    assert!(decode_proof_spec(&bytes[..bytes.len() - 1].to_vec()).is_none());
    let mut longer = bytes.clone();
    longer.push(0);
    assert!(decode_proof_spec(&longer).is_none());
    assert!(decode_proof_spec(&vec![]).is_none());
    let mut bad_tag = bytes.clone();
    bad_tag[8] = 9;
    assert!(decode_proof_spec(&bad_tag).is_none());
    let proof = Proof { statement_proofs: Vec::new() };
    assert_eq!(verify_composite_proof_g1(&proof, &vec![1, 2, 3], None), Err(ProofError::MalformedSpec));
}

#[test]
fn proving_and_verifying_against_encoded_spec_and_proof() {
    let f = fixture(22);
    let (spec, witnesses) = spec_of(&f, f.messages[2], None);
    let spec_bytes = encode_proof_spec(&spec);
    let mut rng = StdRng::seed_from_u64(23);
    let proof = generate_composite_proof_g1(&spec_bytes, witnesses, Some(vec![5]), &mut rng).unwrap();
    let proof_bytes = encode_proof(&proof);
    let received = decode_proof(&proof_bytes).unwrap();
    assert_eq!(encode_proof(&received), proof_bytes);
    assert_eq!(verify_composite_proof_g1(&received, &spec_bytes, Some(vec![5])), Ok(()));
    assert!(decode_proof(&proof_bytes[..proof_bytes.len() - 1].to_vec()).is_none());
}

#[test]
fn max_supported_messages_and_commitment_bases() {
    let mut rng = StdRng::seed_from_u64(30);
    let params = SignatureParamsG1::<Bls12_381>::generate_using_rng(&mut rng, 4);
    let bytes = ser(&params);
    assert_eq!(bbs_plus_params_g1_max_supported_msgs(&bytes), Some(4));
    assert_eq!(bbs_plus_params_g1_max_supported_msgs(&vec![1, 2, 3]), None);
    let bases = bbs_plus_get_bases_for_commitment_g1(&bytes, &vec![3, 1]).unwrap();
    assert_eq!(bases, vec![ser(&params.h_0), ser(&params.h[3]), ser(&params.h[1])]);
    assert_eq!(bbs_plus_get_bases_for_commitment_g1(&bytes, &vec![]).unwrap(), vec![ser(&params.h_0)]);
    assert_eq!(bbs_plus_get_bases_for_commitment_g1(&bytes, &vec![1, 4]), None);
}

#[test]
fn standalone_signature_proof_of_knowledge() {
    let f = fixture(31);
    let messages: Vec<Vec<u8>> = f.messages.iter().map(ser).collect();
    let revealed: Vec<(usize, Vec<u8>)> = vec![(0, messages[0].clone()), (3, messages[3].clone())];
    let mut rng = StdRng::seed_from_u64(32);
    let protocol = bbs_plus_initialize_proof_of_knowledge_of_signature(
        &f.signature,
        &f.params,
        &messages,
        &vec![(1, ser(&Fr::from(5u64)))],
        &vec![0, 3],
        &mut rng,
    )
    .unwrap();
    let from_protocol = bbs_plus_challenge_contribution_from_protocol(&protocol, &revealed, &f.params).unwrap();
    let challenge = ser(&Fr::rand(&mut rng));
    let proof = bbs_plus_gen_proof(&protocol, &challenge).unwrap();
    let from_proof = bbs_plus_challenge_contribution_from_proof(&proof, &revealed, &f.params).unwrap();
    assert_eq!(from_protocol, from_proof);
    assert!(bbs_plus_verify_proof(&proof, &revealed, &challenge, &f.public_key, &f.params));
    let other = ser(&Fr::rand(&mut rng));
    assert!(!bbs_plus_verify_proof(&proof, &revealed, &other, &f.public_key, &f.params));
    let wrong = vec![(0, messages[1].clone()), (3, messages[3].clone())];
    assert!(!bbs_plus_verify_proof(&proof, &wrong, &challenge, &f.public_key, &f.params));
    assert!(!bbs_plus_verify_proof(&vec![0u8; 4], &revealed, &challenge, &f.public_key, &f.params));
}

/// A positive accumulator holding `member`: its setup, the manager's public key, the
/// membership proving key, the accumulator value and the member's witness.
fn accumulator_with(member: Fr, seed: u64) -> (Vec<u8>, Vec<u8>, Vec<u8>, Vec<u8>, Vec<u8>) {
    let mut rng = StdRng::seed_from_u64(seed);
    let params = AccumParams::<Bls12_381>::generate_using_rng(&mut rng);
    let keypair = AccumKeypair::<Bls12_381>::generate_using_rng(&mut rng, &params);
    let prk = MembershipProvingKey::<G1Affine>::generate_using_rng(&mut rng);
    let accumulator = PositiveAccumulator(G1Affine::rand(&mut rng));
    let witness = accumulator.compute_membership_witness(&member, &keypair.secret_key);
    (ser(&params), ser(&keypair.public_key), ser(&prk), ser(accumulator.value()), ser(&witness))
}

fn three_statement_proof(seed: u64, member: Fr) -> Result<(), ProofError> {
    let f = fixture(seed);
    let (mut statements, mut setup, _, mut witnesses) = tables(&f, f.messages[2]);
    let (params, public_key, prk, value, witness) = accumulator_with(member, seed + 100);
    setup.push(SetupParam::AccumulatorParams(params));
    setup.push(SetupParam::MembershipProvingKey(prk));
    statements.push(generate_accumulator_membership_statement(2, public_key, 3, value));
    witnesses.push(generate_accumulator_membership_witness(ser(&member), witness));
    let groups = vec![generate_witness_equality_meta_statement(vec![(0, 2), (1, 0), (2, 0)])];
    let spec = generate_proof_spec_g1(statements, setup, groups, None).unwrap();
    let mut rng = StdRng::seed_from_u64(seed + 200);
    let proof = prove(&spec, witnesses, &Some(vec![7]), &mut rng).unwrap();
    let bytes = encode_proof(&proof);
    verify(&spec, &decode_proof(&bytes).unwrap(), &Some(vec![7]))
}

#[test]
fn signature_pedersen_and_accumulator_member_linked() {
    let f = fixture(40);
    assert_eq!(three_statement_proof(40, f.messages[2]), Ok(()));
}

#[test]
fn accumulator_member_differing_from_the_linked_message_fails() {
    assert_eq!(
        three_statement_proof(41, Fr::from(12345u64)),
        Err(ProofError::VerificationFailed(FailureReason::EqualityMismatch { group: 0 }))
    );
}

#[test]
fn accumulator_slot_beyond_the_member_is_malformed() {
    let f = fixture(42);
    let (mut statements, mut setup, _, _) = tables(&f, f.messages[2]);
    let (params, public_key, prk, value, _) = accumulator_with(f.messages[2], 142);
    setup.push(SetupParam::AccumulatorParams(params));
    setup.push(SetupParam::MembershipProvingKey(prk));
    statements.push(generate_accumulator_membership_statement(2, public_key, 3, value));
    let groups = vec![generate_witness_equality_meta_statement(vec![(2, 1)])];
    assert!(matches!(generate_proof_spec_g1(statements, setup, groups, None), Err(ProofError::MalformedSpec)));
}

/// A universal accumulator of three random elements that does not hold `non_member`: its
/// setup, public key, non-membership proving key, value, and the non-member's witness.
fn universal_accumulator_without(non_member: Fr, seed: u64) -> (Vec<u8>, Vec<u8>, Vec<u8>, Vec<u8>, Vec<u8>) {
    let mut rng = StdRng::seed_from_u64(seed);
    let params = AccumParams::<Bls12_381>::generate_using_rng(&mut rng);
    let keypair = AccumKeypair::<Bls12_381>::generate_using_rng(&mut rng, &params);
    let prk = NonMembershipProvingKey::<G1Affine>::generate_using_rng(&mut rng);
    let initial: Vec<Fr> = (0..3).map(|_| Fr::rand(&mut rng)).collect();
    let f_v = UniversalAccumulator::<G1Affine>::compute_initial_f_V(&initial, &keypair.secret_key);
    let accumulator = UniversalAccumulator::initialize_given_f_V(f_v, &params, 100);
    let d = UniversalAccumulator::<G1Affine>::compute_d_given_members(&non_member, &[]);
    let witness = accumulator
        .compute_non_membership_witness_given_d(d, &non_member, &keypair.secret_key, &params)
        .unwrap();
    (ser(&params), ser(&keypair.public_key), ser(&prk), ser(accumulator.value()), ser(&witness))
}

fn signature_and_non_membership(seed: u64, non_member: Fr) -> Result<(), ProofError> {
    let f = fixture(seed);
    let (mut statements, mut setup, _, mut witnesses) = tables(&f, f.messages[2]);
    let (params, public_key, prk, value, witness) = universal_accumulator_without(non_member, seed + 100);
    setup.push(SetupParam::AccumulatorParams(params));
    setup.push(SetupParam::NonMembershipProvingKey(prk));
    statements.push(generate_accumulator_non_membership_statement(2, public_key, 3, value));
    witnesses.push(generate_accumulator_non_membership_witness(ser(&non_member), witness));
    let groups = vec![generate_witness_equality_meta_statement(vec![(0, 2), (2, 0)])];
    let spec = generate_proof_spec_g1(statements, setup, groups, None).unwrap();
    let decoded = decode_proof_spec(&encode_proof_spec(&spec)).unwrap();
    let mut rng = StdRng::seed_from_u64(seed + 200);
    let proof = prove(&decoded, witnesses, &None, &mut rng).unwrap();
    verify(&spec, &proof, &None)
}

#[test]
fn signature_message_proved_absent_from_accumulator() {
    let f = fixture(50);
    assert_eq!(signature_and_non_membership(50, f.messages[2]), Ok(()));
}

#[test]
fn non_member_differing_from_the_linked_message_fails() {
    assert_eq!(
        signature_and_non_membership(51, Fr::from(999u64)),
        Err(ProofError::VerificationFailed(FailureReason::EqualityMismatch { group: 0 }))
    );
}

#[test]
fn empty_statement_table_proves_and_verifies() {
    let spec = generate_proof_spec_g1(vec![], vec![], vec![], Some(vec![1])).unwrap();
    let mut rng = StdRng::seed_from_u64(60);
    let proof = prove(&spec, vec![], &Some(vec![2]), &mut rng).unwrap();
    assert!(proof.statement_proofs.is_empty());
    assert_eq!(verify(&spec, &proof, &Some(vec![2])), Ok(()));
}

#[test]
fn transcript_bytes_are_exact() {
    let t = build_transcript(&vec![vec![9, 8]], &None, &Some(vec![5]));
    let mut expected = le(CHALLENGE_DOMAIN);
    expected.extend(le(1));
    expected.extend(le(2));
    expected.extend([9, 8]);
    expected.push(0);
    expected.push(1);
    expected.extend(le(1));
    expected.push(5);
    assert_eq!(t, expected);
    assert_ne!(build_transcript(&vec![vec![9, 8]], &None, &Some(vec![6])), t);
    assert_ne!(build_transcript(&vec![vec![9, 8]], &None, &None), t);
    assert_ne!(build_transcript(&vec![vec![9], vec![8]], &None, &Some(vec![5])), t);
}

#[test]
fn non_membership_witness_with_zero_d_fails_that_statement() {
    let f = fixture(52);
    let (mut statements, mut setup, _, mut witnesses) = tables(&f, f.messages[2]);
    let (params, public_key, prk, value, _) = universal_accumulator_without(f.messages[2], 152);
    setup.push(SetupParam::AccumulatorParams(params));
    setup.push(SetupParam::NonMembershipProvingKey(prk));
    statements.push(generate_accumulator_non_membership_statement(2, public_key, 3, value));
    let zero_d = NonMembershipWitness::<G1Affine> { d: Fr::from(0u64), C: G1Affine::rand(&mut StdRng::seed_from_u64(53)) };
    witnesses.push(generate_accumulator_non_membership_witness(ser(&f.messages[2]), ser(&zero_d)));
    let spec = generate_proof_spec_g1(statements, setup, vec![], None).unwrap();
    let mut rng = StdRng::seed_from_u64(54);
    assert!(matches!(
        prove(&spec, witnesses, &None, &mut rng),
        Err(ProofError::StatementProvingError { index: 2 })
    ));
}

#[test]
fn too_many_revealed_messages_do_not_verify() {
    let f = fixture(55);
    let revealed: Vec<(usize, Vec<u8>)> = (0..8).map(|i| (i, ser(&Fr::from(i as u64)))).collect();
    assert!(!bbs_plus_verify_proof(&vec![0u8; 4], &revealed, &ser(&Fr::from(1u64)), &f.public_key, &f.params));
}

#[test]
fn first_incomplete_witness_is_reported_by_index() {
    let f = fixture(70);
    let (spec, mut witnesses) = spec_of(&f, f.messages[2], None);
    // Message 4 is neither revealed nor in the witness, and the Pedersen opening is short.
    witnesses[0] = generate_pok_bbs_sig_witness(
        f.signature.clone(),
        (1..MESSAGE_COUNT - 1).map(|i| (i, ser(&f.messages[i]))).collect(),
    );
    witnesses[1] = generate_pedersen_commitment_witness(vec![ser(&f.messages[2])]);
    let mut rng = StdRng::seed_from_u64(71);
    assert!(matches!(
        prove(&spec, witnesses, &None, &mut rng),
        Err(ProofError::StatementProvingError { index: 0 })
    ));
}

#[test]
fn pedersen_openings_linked_by_two_groups() {
    let mut rng = StdRng::seed_from_u64(72);
    let bases_1: Vec<G1Affine> = (0..2).map(|_| G1Affine::rand(&mut rng)).collect();
    let bases_2: Vec<G1Affine> = (0..3).map(|_| G1Affine::rand(&mut rng)).collect();
    let (m1, m2, m3) = (Fr::rand(&mut rng), Fr::rand(&mut rng), Fr::rand(&mut rng));
    let c1 = G1Projective::msm(&bases_1, &[m1, m2]).unwrap().into_affine();
    let c2 = G1Projective::msm(&bases_2, &[m1, m2, m3]).unwrap().into_affine();
    let build = |second_m2: Fr| {
        let setup = vec![
            SetupParam::PedersenBases(bases_1.iter().map(ser).collect()),
            SetupParam::PedersenBases(bases_2.iter().map(ser).collect()),
        ];
        let c2 = if second_m2 == m2 { c2 } else { G1Projective::msm(&bases_2, &[m1, second_m2, m3]).unwrap().into_affine() };
        let statements = vec![
            generate_pedersen_commitment_g1_statement(0, ser(&c1)),
            generate_pedersen_commitment_g1_statement(1, ser(&c2)),
        ];
        let groups = vec![
            generate_witness_equality_meta_statement(vec![(0, 0), (1, 0)]),
            generate_witness_equality_meta_statement(vec![(0, 1), (1, 1)]),
        ];
        let witnesses = vec![
            generate_pedersen_commitment_witness(vec![ser(&m1), ser(&m2)]),
            generate_pedersen_commitment_witness(vec![ser(&m1), ser(&second_m2), ser(&m3)]),
        ];
        (generate_proof_spec_g1(statements, setup, groups, None).unwrap(), witnesses)
    };
    let (spec, witnesses) = build(m2);
    let proof = prove(&spec, witnesses, &None, &mut rng).unwrap();
    assert_eq!(verify(&spec, &proof, &None), Ok(()));
    let (spec, witnesses) = build(m3);
    let proof = prove(&spec, witnesses, &None, &mut rng).unwrap();
    assert_eq!(
        verify(&spec, &proof, &None),
        Err(ProofError::VerificationFailed(FailureReason::EqualityMismatch { group: 1 }))
    );
}

#[test]
fn commit_phase_with_the_wrong_message_count_fails() {
    let f = fixture(73);
    let messages: Vec<Vec<u8>> = f.messages.iter().take(MESSAGE_COUNT - 1).map(ser).collect();
    let mut rng = StdRng::seed_from_u64(74);
    assert!(bbs_plus_initialize_proof_of_knowledge_of_signature(
        &f.signature, &f.params, &messages, &vec![], &vec![0], &mut rng,
    )
    .is_none());
    assert!(bbs_plus_initialize_proof_of_knowledge_of_signature(
        &f.signature, &vec![1, 2], &messages, &vec![], &vec![0], &mut rng,
    )
    .is_none());
}
