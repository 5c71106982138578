//! The proof verifier: re-derive the shared challenge from the proof's public data, check
//! every sub-proof against it, then check that the responses of every equality group agree.
use vstd::prelude::*;

use crate::crypto::{
    mem_proof_contribution, mem_proof_contribution_of, mem_proof_valid, mem_proof_verify, mem_response,
    mem_response_of, nonmem_proof_contribution, nonmem_proof_contribution_of, nonmem_proof_valid,
    nonmem_proof_verify, nonmem_response, nonmem_response_of, challenge, challenge_of, schnorr_valid, schnorr_verify,
    sig_proof_contribution, sig_proof_contribution_of, sig_proof_valid, sig_proof_verify,
    sig_message_count_of, sig_response, sig_response_of,
};
use crate::model::{
    blobs_view, copy_bytes, indexed_view, opt_bytes_view, Bytes, FailureReason, Proof, ProofError,
    ProofSpec, ProofSpecModel, Statement, StatementModel, StatementProof, StatementProofModel,
};
use crate::spec_builder::{
    lemma_increasing_bounded, statement_wf,
    accumulator_params_at, accumulator_params_of, non_membership_key_at, non_membership_key_of,
    proving_key_at, proving_key_of, bases_at, bases_of, sig_params_at, sig_params_of, spec_wf, validate_spec};
use crate::transcript::{
    build_pedersen_contribution, build_transcript, contributions_fit, lemma_transcript_injective,
    pedersen_contribution, transcript,
};

verus! {

// ---------------------------------------------------------------------------
// What an accepted proof satisfies
// ---------------------------------------------------------------------------

/// The challenge contribution of a sub-proof, formed from the proof's public data.
pub open spec fn proof_contribution(sp: ProofSpecModel, s: StatementModel, p: StatementProofModel) -> Option<
    Seq<u8>,
> {
    match (s, p) {
        (
            StatementModel::SignatureKnowledge { params, revealed, .. },
            StatementProofModel::SignatureKnowledge { proof },
        ) => match sig_params_at(sp, params) {
            Some(pp) => sig_proof_contribution_of(proof, revealed, pp),
            None => None,
        },
        (
            StatementModel::PedersenOpening { bases, commitment },
            StatementProofModel::PedersenOpening { t, .. },
        ) => match bases_at(sp, bases) {
            Some(b) => Some(pedersen_contribution(b, commitment, t)),
            None => None,
        },
        (
            StatementModel::AccumulatorMembership { params, public_key, proving_key, accumulated },
            StatementProofModel::AccumulatorMembership { proof },
        ) => match (accumulator_params_at(sp, params), proving_key_at(sp, proving_key)) {
            (Some(pp), Some(k)) => mem_proof_contribution_of(proof, accumulated, public_key, pp, k),
            _ => None,
        },
        (
            StatementModel::AccumulatorNonMembership { params, public_key, proving_key, accumulated },
            StatementProofModel::AccumulatorNonMembership { proof },
        ) => match (accumulator_params_at(sp, params), non_membership_key_at(sp, proving_key)) {
            (Some(pp), Some(k)) => nonmem_proof_contribution_of(proof, accumulated, public_key, pp, k),
            _ => None,
        },
        _ => None,
    }
}

pub open spec fn all_contribute(sp: ProofSpecModel, proof: Seq<StatementProofModel>) -> bool {
    forall|i: int|
        0 <= i < sp.statements.len() ==> #[trigger] proof_contribution(sp, sp.statements[i], proof[i])
            is Some
}

pub open spec fn contributions(sp: ProofSpecModel, proof: Seq<StatementProofModel>) -> Seq<Seq<u8>> {
    Seq::new(
        sp.statements.len(),
        |i: int| proof_contribution(sp, sp.statements[i], proof[i]).unwrap(),
    )
}

/// The challenge that the prover must have used.
pub open spec fn expected_challenge(
    sp: ProofSpecModel,
    proof: Seq<StatementProofModel>,
    nonce: Option<Seq<u8>>,
) -> Seq<u8> {
    challenge_of(transcript(contributions(sp, proof), sp.context, nonce))
}

/// A sub-proof verifies against challenge `c`. For a Pedersen opening that is the Schnorr
/// check `sum_j responses[j] * bases[j] == t + c * commitment`.
pub open spec fn statement_holds(
    sp: ProofSpecModel,
    s: StatementModel,
    p: StatementProofModel,
    c: Seq<u8>,
) -> bool {
    match (s, p) {
        (
            StatementModel::SignatureKnowledge { params, public_key, revealed },
            StatementProofModel::SignatureKnowledge { proof },
        ) => match sig_params_at(sp, params) {
            Some(pp) => sig_proof_valid(proof, revealed, c, public_key, pp),
            None => false,
        },
        (
            StatementModel::PedersenOpening { bases, commitment },
            StatementProofModel::PedersenOpening { t, responses },
        ) => match bases_at(sp, bases) {
            Some(b) => responses.len() == b.len() && schnorr_valid(b, commitment, t, responses, c),
            None => false,
        },
        (
            StatementModel::AccumulatorMembership { params, public_key, proving_key, accumulated },
            StatementProofModel::AccumulatorMembership { proof },
        ) => match (accumulator_params_at(sp, params), proving_key_at(sp, proving_key)) {
            (Some(pp), Some(k)) => mem_proof_valid(proof, accumulated, c, public_key, pp, k),
            _ => false,
        },
        (
            StatementModel::AccumulatorNonMembership { params, public_key, proving_key, accumulated },
            StatementProofModel::AccumulatorNonMembership { proof },
        ) => match (accumulator_params_at(sp, params), non_membership_key_at(sp, proving_key)) {
            (Some(pp), Some(k)) => nonmem_proof_valid(proof, accumulated, c, public_key, pp, k),
            _ => false,
        },
        _ => false,
    }
}

pub open spec fn revealed_ids(revealed: Seq<(usize, Seq<u8>)>) -> Seq<usize> {
    revealed.map_values(|e: (usize, Seq<u8>)| e.0)
}

/// The response that a sub-proof holds for witness slot `j`.
pub open spec fn slot_response(s: StatementModel, p: StatementProofModel, j: usize) -> Option<Seq<u8>> {
    match (s, p) {
        (
            StatementModel::SignatureKnowledge { revealed, .. },
            StatementProofModel::SignatureKnowledge { proof },
        ) => sig_response_of(proof, j, revealed_ids(revealed)),
        (StatementModel::PedersenOpening { .. }, StatementProofModel::PedersenOpening { responses, .. }) =>
            if j < responses.len() {
            Some(responses[j as int])
        } else {
            None
        },
        (
            StatementModel::AccumulatorMembership { .. },
            StatementProofModel::AccumulatorMembership { proof },
        ) => if j == 0 {
            mem_response_of(proof)
        } else {
            None
        },
        (
            StatementModel::AccumulatorNonMembership { .. },
            StatementProofModel::AccumulatorNonMembership { proof },
        ) => if j == 0 {
            nonmem_response_of(proof)
        } else {
            None
        },
        _ => None,
    }
}

pub open spec fn ref_response(
    sp: ProofSpecModel,
    proof: Seq<StatementProofModel>,
    r: (usize, usize),
) -> Option<Seq<u8>> {
    if r.0 < sp.statements.len() && r.0 < proof.len() {
        slot_response(sp.statements[r.0 as int], proof[r.0 as int], r.1)
    } else {
        None
    }
}

/// Every slot of the group has a response, and all of them are the same.
pub open spec fn group_agrees(
    sp: ProofSpecModel,
    proof: Seq<StatementProofModel>,
    g: Seq<(usize, usize)>,
) -> bool {
    forall|k: int|
        0 <= k < g.len() ==> #[trigger] ref_response(sp, proof, g[k]) is Some && ref_response(
            sp,
            proof,
            g[k],
        ) == ref_response(sp, proof, g[0])
}

/// Everything that an accepted proof satisfies.
pub open spec fn accepts(sp: ProofSpecModel, proof: Seq<StatementProofModel>, nonce: Option<Seq<u8>>) -> bool {
    &&& proof.len() == sp.statements.len()
    &&& spec_wf(sp)
    &&& all_contribute(sp, proof)
    &&& forall|i: int|
        0 <= i < sp.statements.len() ==> statement_holds(
            sp,
            #[trigger] sp.statements[i],
            proof[i],
            expected_challenge(sp, proof, nonce),
        )
    &&& forall|g: int| 0 <= g < sp.equalities.len() ==> group_agrees(sp, proof, #[trigger] sp.equalities[g])
}

/// A sub-proof of the kind of its statement.
pub open spec fn same_kind(s: StatementModel, p: StatementProofModel) -> bool {
    match (s, p) {
        (StatementModel::SignatureKnowledge { .. }, StatementProofModel::SignatureKnowledge { .. }) => true,
        (StatementModel::PedersenOpening { .. }, StatementProofModel::PedersenOpening { .. }) => true,
        (StatementModel::AccumulatorMembership { .. }, StatementProofModel::AccumulatorMembership { .. }) => true,
        (
            StatementModel::AccumulatorNonMembership { .. },
            StatementProofModel::AccumulatorNonMembership { .. },
        ) => true,
        _ => false,
    }
}

/// The first statement from `i` on whose sub-proof yields no contribution, or the number
/// of statements when there is none.
pub open spec fn first_missing_contribution(sp: ProofSpecModel, proof: Seq<StatementProofModel>, i: int) -> int
    decreases sp.statements.len() - i,
{
    if i >= sp.statements.len() {
        sp.statements.len() as int
    } else if proof_contribution(sp, sp.statements[i], proof[i]) is None {
        i
    } else {
        first_missing_contribution(sp, proof, i + 1)
    }
}

/// The first statement from `i` on whose sub-proof does not verify against `c`, or the number
/// of statements when there is none.
pub open spec fn first_failed_statement(
    sp: ProofSpecModel,
    proof: Seq<StatementProofModel>,
    c: Seq<u8>,
    i: int,
) -> int
    decreases sp.statements.len() - i,
{
    if i >= sp.statements.len() {
        sp.statements.len() as int
    } else if !statement_holds(sp, sp.statements[i], proof[i], c) {
        i
    } else {
        first_failed_statement(sp, proof, c, i + 1)
    }
}

/// The first equality group from `g` on whose responses disagree, or the number of groups
/// when there is none.
pub open spec fn first_disagreeing_group(sp: ProofSpecModel, proof: Seq<StatementProofModel>, g: int) -> int
    decreases sp.equalities.len() - g,
{
    if g >= sp.equalities.len() {
        sp.equalities.len() as int
    } else if !group_agrees(sp, proof, sp.equalities[g]) {
        g
    } else {
        first_disagreeing_group(sp, proof, g + 1)
    }
}

/// The verdict on a proof: the shape, then the specification, then the first sub-proof
/// without a contribution, then the first sub-proof that fails against the shared
/// challenge, then the first equality group whose responses disagree.
pub open spec fn verdict(sp: ProofSpecModel, proof: Seq<StatementProofModel>, nonce: Option<Seq<u8>>) -> Result<
    (),
    ProofError,
> {
    let n = sp.statements.len() as int;
    if proof.len() != n {
        Err(ProofError::ProofShapeMismatch)
    } else if !spec_wf(sp) {
        Err(ProofError::MalformedSpec)
    } else {
        let i = first_missing_contribution(sp, proof, 0);
        if i < n {
            Err(
                ProofError::VerificationFailed(
                    if same_kind(sp.statements[i], proof[i]) {
                        FailureReason::MalformedStatementProof { index: i as usize }
                    } else {
                        FailureReason::KindMismatch { index: i as usize }
                    },
                ),
            )
        } else {
            let j = first_failed_statement(sp, proof, expected_challenge(sp, proof, nonce), 0);
            if j < n {
                Err(ProofError::VerificationFailed(FailureReason::StatementCheckFailed { index: j as usize }))
            } else {
                let g = first_disagreeing_group(sp, proof, 0);
                if g < sp.equalities.len() {
                    Err(ProofError::VerificationFailed(FailureReason::EqualityMismatch { group: g as usize }))
                } else {
                    Ok(())
                }
            }
        }
    }
}

// ---------------------------------------------------------------------------
// Checks
// ---------------------------------------------------------------------------

fn bytes_eq(a: &Bytes, b: &Bytes) -> (r: bool)
    ensures
        r == (a@ == b@),
{
    if a.len() != b.len() {
        return false;
    }
    let mut i: usize = 0;
    while i < a.len()
        invariant
            i <= a@.len(),
            a@.len() == b@.len(),
            forall|m: int| 0 <= m < i ==> a@[m] == b@[m],
        decreases a@.len() - i,
    {
        if a[i] != b[i] {
            return false;
        }
        i = i + 1;
    }
    assert(a@ =~= b@);
    true
}

fn ids_of(revealed: &Vec<(usize, Bytes)>) -> (r: Vec<usize>)
    ensures
        r@ == revealed_ids(indexed_view(revealed@)),
{
    let mut r: Vec<usize> = Vec::new();
    let mut k: usize = 0;
    while k < revealed.len()
        invariant
            k <= revealed@.len(),
            r@ == revealed_ids(indexed_view(revealed@)).take(k as int),
        decreases revealed@.len() - k,
    {
        r.push(revealed[k].0);
        k = k + 1;
        assert(r@ =~= revealed_ids(indexed_view(revealed@)).take(k as int));
    }
    assert(r@ =~= revealed_ids(indexed_view(revealed@)));
    r
}

fn contribution(spec: &ProofSpec, s: &Statement, p: &StatementProof) -> (r: Result<
    Bytes,
    FailureReason,
>)
    ensures
        r matches Ok(b) ==> proof_contribution(spec@, s@, p@) == Some(b@),
        r is Err ==> proof_contribution(spec@, s@, p@) is None,
        r matches Err(reason) ==> (reason is KindMismatch <==> !same_kind(s@, p@)),
{
    match (s, p) {
        (
            Statement::SignatureKnowledge { params, revealed, .. },
            StatementProof::SignatureKnowledge { proof },
        ) => {
            let pp = match sig_params_of(spec, *params) {
                Some(pp) => pp,
                None => return Err(FailureReason::MalformedStatementProof { index: 0 }),
            };
            match sig_proof_contribution(proof, revealed, pp) {
                Some(b) => Ok(b),
                None => Err(FailureReason::MalformedStatementProof { index: 0 }),
            }
        },
        (
            Statement::PedersenOpening { bases, commitment },
            StatementProof::PedersenOpening { t, .. },
        ) => match bases_of(spec, *bases) {
            Some(b) => Ok(build_pedersen_contribution(b, commitment, t)),
            None => Err(FailureReason::MalformedStatementProof { index: 0 }),
        },
        (
            Statement::AccumulatorMembership { params, public_key, proving_key, accumulated },
            StatementProof::AccumulatorMembership { proof },
        ) => match (accumulator_params_of(spec, *params), proving_key_of(spec, *proving_key)) {
            (Some(pp), Some(k)) => match mem_proof_contribution(proof, accumulated, public_key, pp, k) {
                Some(b) => Ok(b),
                None => Err(FailureReason::MalformedStatementProof { index: 0 }),
            },
            _ => Err(FailureReason::MalformedStatementProof { index: 0 }),
        },
        (
            Statement::AccumulatorNonMembership { params, public_key, proving_key, accumulated },
            StatementProof::AccumulatorNonMembership { proof },
        ) => match (accumulator_params_of(spec, *params), non_membership_key_of(spec, *proving_key)) {
            (Some(pp), Some(k)) => match nonmem_proof_contribution(proof, accumulated, public_key, pp, k) {
                Some(b) => Ok(b),
                None => Err(FailureReason::MalformedStatementProof { index: 0 }),
            },
            _ => Err(FailureReason::MalformedStatementProof { index: 0 }),
        },
        _ => Err(FailureReason::KindMismatch { index: 0 }),
    }
}

fn check_statement_proof(spec: &ProofSpec, s: &Statement, p: &StatementProof, c: &Bytes) -> (r: bool)
    requires
        statement_wf(spec@, s@),
    ensures
        r == statement_holds(spec@, s@, p@, c@),
{
    match (s, p) {
        (
            Statement::SignatureKnowledge { params, public_key, revealed },
            StatementProof::SignatureKnowledge { proof },
        ) => match sig_params_of(spec, *params) {
            Some(pp) => {
                proof {
                    if let Some(n) = sig_message_count_of(pp@) {
                        lemma_increasing_bounded(indexed_view(revealed@), n);
                    }
                }
                sig_proof_verify(proof, revealed, c, public_key, pp)
            },
            None => false,
        },
        (
            Statement::PedersenOpening { bases, commitment },
            StatementProof::PedersenOpening { t, responses },
        ) => {
            let b = match bases_of(spec, *bases) {
                Some(b) => b,
                None => return false,
            };
            if responses.len() != b.len() {
                return false;
            }
            schnorr_verify(b, commitment, t, responses, c)
        },
        (
            Statement::AccumulatorMembership { params, public_key, proving_key, accumulated },
            StatementProof::AccumulatorMembership { proof },
        ) => match (accumulator_params_of(spec, *params), proving_key_of(spec, *proving_key)) {
            (Some(pp), Some(k)) => mem_proof_verify(proof, accumulated, c, public_key, pp, k),
            _ => false,
        },
        (
            Statement::AccumulatorNonMembership { params, public_key, proving_key, accumulated },
            StatementProof::AccumulatorNonMembership { proof },
        ) => match (accumulator_params_of(spec, *params), non_membership_key_of(spec, *proving_key)) {
            (Some(pp), Some(k)) => nonmem_proof_verify(proof, accumulated, c, public_key, pp, k),
            _ => false,
        },
        _ => false,
    }
}

fn response_at(spec: &ProofSpec, proof: &Proof, r: (usize, usize)) -> (o: Option<Bytes>)
    ensures
        opt_bytes_view(o) == ref_response(spec@, proof@, r),
{
    let (i, j) = r;
    if i >= spec.statements.len() || i >= proof.statement_proofs.len() {
        return None;
    }
    assert(spec@.statements[i as int] == spec.statements@[i as int]@);
    assert(proof@[i as int] == proof.statement_proofs@[i as int]@);
    match (&spec.statements[i], &proof.statement_proofs[i]) {
        (
            Statement::SignatureKnowledge { revealed, .. },
            StatementProof::SignatureKnowledge { proof },
        ) => {
            let ids = ids_of(revealed);
            sig_response(proof, j, &ids)
        },
        (Statement::PedersenOpening { .. }, StatementProof::PedersenOpening { responses, .. }) => {
            if j < responses.len() {
                Some(copy_bytes(&responses[j]))
            } else {
                None
            }
        },
        (Statement::AccumulatorMembership { .. }, StatementProof::AccumulatorMembership { proof }) => {
            if j == 0 {
                mem_response(proof)
            } else {
                None
            }
        },
        (Statement::AccumulatorNonMembership { .. }, StatementProof::AccumulatorNonMembership { proof }) => {
            if j == 0 {
                nonmem_response(proof)
            } else {
                None
            }
        },
        _ => None,
    }
}

fn check_group(spec: &ProofSpec, proof: &Proof, refs: &Vec<(usize, usize)>) -> (r: bool)
    ensures
        r == group_agrees(spec@, proof@, refs@),
{
    if refs.len() == 0 {
        return true;
    }
    let first = match response_at(spec, proof, refs[0]) {
        Some(x) => x,
        None => return false,
    };
    let mut k: usize = 0;
    while k < refs.len()
        invariant
            0 < refs@.len(),
            k <= refs@.len(),
            ref_response(spec@, proof@, refs@[0]) == Some(first@),
            forall|m: int|
                0 <= m < k ==> #[trigger] ref_response(spec@, proof@, refs@[m]) == Some(first@),
        decreases refs@.len() - k,
    {
        match response_at(spec, proof, refs[k]) {
            Some(x) => {
                if !bytes_eq(&x, &first) {
                    return false;
                }
            },
            None => return false,
        }
        k = k + 1;
    }
    true
}

/// Verifies `proof` against `spec` and the nonce the prover used. The shape is checked
/// first, then the specification, then every sub-proof's contribution, every sub-proof
/// against the shared challenge, and every equality group, reporting the first failure.
pub fn verify(spec: &ProofSpec, proof: &Proof, nonce: &Option<Bytes>) -> (r: Result<(), ProofError>)
    ensures
        proof@.len() != spec@.statements.len() ==> r == Err::<(), ProofError>(ProofError::ProofShapeMismatch),
        proof@.len() == spec@.statements.len() && !spec_wf(spec@) ==> r == Err::<(), ProofError>(ProofError::MalformedSpec),
        r is Ok <==> accepts(spec@, proof@, opt_bytes_view(*nonce)),
        r matches Err(e) ==> (e is ProofShapeMismatch || e is MalformedSpec || e is VerificationFailed),
        r == verdict(spec@, proof@, opt_bytes_view(*nonce)),
{
    let n = spec.statements.len();
    if proof.statement_proofs.len() != n {
        return Err(ProofError::ProofShapeMismatch);
    }
    if !validate_spec(spec) {
        return Err(ProofError::MalformedSpec);
    }
    let ghost sp = spec@;
    let ghost pv = proof@;

    // Re-derive the shared challenge.
    let mut cs: Vec<Bytes> = Vec::new();
    let mut i: usize = 0;
    while i < n
        invariant
            n == sp.statements.len(),
            pv.len() == n,
            sp == spec@,
            pv == proof@,
            i <= n,
            spec_wf(sp),
            first_missing_contribution(sp, pv, 0) == first_missing_contribution(sp, pv, i as int),
            cs@.len() == i,
            forall|m: int| 0 <= m < i ==> proof_contribution(sp, sp.statements[m], pv[m]) == Some(#[trigger] cs@[m]@),
        decreases n - i,
    {
        assert(sp.statements[i as int] == spec.statements@[i as int]@);
        assert(pv[i as int] == proof.statement_proofs@[i as int]@);
        match contribution(spec, &spec.statements[i], &proof.statement_proofs[i]) {
            Ok(b) => cs.push(b),
            Err(reason) => {
                let reason = match reason {
                    FailureReason::KindMismatch { .. } => FailureReason::KindMismatch { index: i },
                    _ => FailureReason::MalformedStatementProof { index: i },
                };
                assert(!all_contribute(sp, pv));
                return Err(ProofError::VerificationFailed(reason));
            },
        }
        i = i + 1;
    }
    assert forall|m: int| 0 <= m < sp.statements.len() implies #[trigger] proof_contribution(sp, sp.statements[m], pv[m]) is Some by {
        assert(proof_contribution(sp, sp.statements[m], pv[m]) == Some(cs@[m]@));
    }
    assert(all_contribute(sp, pv));
    assert(blobs_view(cs@) =~= contributions(sp, pv));
    let t = build_transcript(&cs, &spec.context, nonce);
    let c = challenge(&t);
    assert(c@ == expected_challenge(sp, pv, opt_bytes_view(*nonce)));

    // Every sub-proof against the shared challenge.
    i = 0;
    while i < n
        invariant
            n == sp.statements.len(),
            pv.len() == n,
            sp == spec@,
            pv == proof@,
            i <= n,
            spec_wf(sp),
            all_contribute(sp, pv),
            first_missing_contribution(sp, pv, 0) == n as int,
            first_failed_statement(sp, pv, c@, 0) == first_failed_statement(sp, pv, c@, i as int),
            c@ == expected_challenge(sp, pv, opt_bytes_view(*nonce)),
            forall|m: int| 0 <= m < i ==> statement_holds(sp, #[trigger] sp.statements[m], pv[m], c@),
        decreases n - i,
    {
        assert(sp.statements[i as int] == spec.statements@[i as int]@);
        assert(pv[i as int] == proof.statement_proofs@[i as int]@);
        assert(statement_wf(sp, sp.statements[i as int]));
        if !check_statement_proof(spec, &spec.statements[i], &proof.statement_proofs[i], &c) {
            return Err(ProofError::VerificationFailed(FailureReason::StatementCheckFailed { index: i }));
        }
        i = i + 1;
    }

    // Every equality group on the responses.
    let mut g: usize = 0;
    while g < spec.equalities.len()
        invariant
            sp == spec@,
            pv == proof@,
            g <= sp.equalities.len(),
            pv.len() == sp.statements.len(),
            spec_wf(sp),
            all_contribute(sp, pv),
            first_missing_contribution(sp, pv, 0) == sp.statements.len() as int,
            first_failed_statement(sp, pv, expected_challenge(sp, pv, opt_bytes_view(*nonce)), 0) == sp.statements.len() as int,
            first_disagreeing_group(sp, pv, 0) == first_disagreeing_group(sp, pv, g as int),
            forall|m: int| 0 <= m < sp.statements.len() ==> statement_holds(sp, #[trigger] sp.statements[m], pv[m], expected_challenge(sp, pv, opt_bytes_view(*nonce))),
            forall|m: int| 0 <= m < g ==> group_agrees(sp, pv, #[trigger] sp.equalities[m]),
        decreases sp.equalities.len() - g,
    {
        assert(sp.equalities[g as int] == spec.equalities@[g as int]@);
        if !check_group(spec, proof, &spec.equalities[g].refs) {
            return Err(ProofError::VerificationFailed(FailureReason::EqualityMismatch { group: g }));
        }
        g = g + 1;
    }
    Ok(())
}

/// Equality soundness on the verifier's side: in a proof that `verify` accepts, any two
/// slots of one equality group hold the same response. Since every response is the shared
/// blinding plus the shared challenge times the slot's value, slots that held different
/// values cannot pass.
pub proof fn lemma_accepted_groups_agree(
    sp: ProofSpecModel,
    proof: Seq<StatementProofModel>,
    nonce: Option<Seq<u8>>,
    g: int,
    a: int,
    b: int,
)
    requires
        accepts(sp, proof, nonce),
        0 <= g < sp.equalities.len(),
        0 <= a < sp.equalities[g].len(),
        0 <= b < sp.equalities[g].len(),
    ensures
        ref_response(sp, proof, sp.equalities[g][a]) is Some,
        ref_response(sp, proof, sp.equalities[g][a]) == ref_response(sp, proof, sp.equalities[g][b]),
{
    assert(group_agrees(sp, proof, sp.equalities[g]));
    assert(ref_response(sp, proof, sp.equalities[g][a]) == ref_response(sp, proof, sp.equalities[g][0]));
    assert(ref_response(sp, proof, sp.equalities[g][b]) == ref_response(sp, proof, sp.equalities[g][0]));
}

/// Nonce binding: against one specification and one proof, two different nonces put two
/// different inputs into the challenge hash, so a proof made under one nonce is checked
/// against a different challenge under the other.
pub proof fn lemma_nonce_binds_challenge_input(
    sp: ProofSpecModel,
    proof: Seq<StatementProofModel>,
    n1: Option<Seq<u8>>,
    n2: Option<Seq<u8>>,
)
    requires
        n1 != n2,
        contributions_fit(contributions(sp, proof), sp.context, n1),
        contributions_fit(contributions(sp, proof), sp.context, n2),
    ensures
        transcript(contributions(sp, proof), sp.context, n1) != transcript(
            contributions(sp, proof),
            sp.context,
            n2,
        ),
{
    if transcript(contributions(sp, proof), sp.context, n1) == transcript(
        contributions(sp, proof),
        sp.context,
        n2,
    ) {
        lemma_transcript_injective(
            contributions(sp, proof),
            sp.context,
            n1,
            contributions(sp, proof),
            sp.context,
            n2,
        );
    }
}

} // verus!
