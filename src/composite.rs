//! Entry points: building statements, witnesses and equality groups, and proving or
//! verifying either against an assembled specification or against its parts.
use vstd::prelude::*;

use crate::checker::{accepts, verdict, verify};
use crate::codec::{decode_proof_spec, parse_spec};
use crate::model::{
    groups_view, params_view, statements_view, indexed_view, opt_bytes_view, witnesses_view, Bytes, EqualityGroup, Proof, ProofError,
    ProofSpecModel, SetupParam, Statement, StatementModel, Witness, WitnessModel,
};
use crate::prover::{prove, proving_outcome};
use crate::spec_builder::{generate_proof_spec_g1, spec_wf};
use ark_std::rand::rngs::StdRng;

verus! {

// ---------------------------------------------------------------------------
// Statements and witnesses
// ---------------------------------------------------------------------------

/// A statement of knowledge of a BBS+ signature; `params` is an index into the setup
/// parameter table and `revealed_msgs` lists the disclosed messages by increasing index.
pub fn generate_pok_bbs_sig_statement(
    params: usize,
    public_key: Bytes,
    revealed_msgs: Vec<(usize, Bytes)>,
) -> (r: Statement)
    ensures
        r@ == (StatementModel::SignatureKnowledge {
            params,
            public_key: public_key@,
            revealed: indexed_view(revealed_msgs@),
        }),
{
    Statement::SignatureKnowledge { params, public_key, revealed: revealed_msgs }
}

/// A statement of knowledge of an opening of `commitment` under the bases at setup index
/// `bases`.
pub fn generate_pedersen_commitment_g1_statement(bases: usize, commitment: Bytes) -> (r: Statement)
    ensures
        r@ == (StatementModel::PedersenOpening { bases, commitment: commitment@ }),
{
    Statement::PedersenOpening { bases, commitment }
}

/// A statement of membership of a hidden element in the accumulator whose value is
/// `accumulated`; `params` and `proving_key` are indices into the setup parameter table.
pub fn generate_accumulator_membership_statement(
    params: usize,
    public_key: Bytes,
    proving_key: usize,
    accumulated: Bytes,
) -> (r: Statement)
    ensures
        r@ == (StatementModel::AccumulatorMembership {
            params,
            public_key: public_key@,
            proving_key,
            accumulated: accumulated@,
        }),
{
    Statement::AccumulatorMembership { params, public_key, proving_key, accumulated }
}

/// The witness of an accumulator membership statement: the member and its witness.
pub fn generate_accumulator_membership_witness(element: Bytes, accum_witness: Bytes) -> (r: Witness)
    ensures
        r@ == (WitnessModel::AccumulatorMembership { element: element@, witness: accum_witness@ }),
{
    Witness::AccumulatorMembership { element, witness: accum_witness }
}

/// A statement of non-membership of a hidden element in the universal accumulator whose value is
/// `accumulated`; `params` and `proving_key` are indices into the setup parameter table.
pub fn generate_accumulator_non_membership_statement(
    params: usize,
    public_key: Bytes,
    proving_key: usize,
    accumulated: Bytes,
) -> (r: Statement)
    ensures
        r@ == (StatementModel::AccumulatorNonMembership {
            params,
            public_key: public_key@,
            proving_key,
            accumulated: accumulated@,
        }),
{
    Statement::AccumulatorNonMembership { params, public_key, proving_key, accumulated }
}

/// The witness of an accumulator non-membership statement: the absent element and its witness.
pub fn generate_accumulator_non_membership_witness(element: Bytes, accum_witness: Bytes) -> (r: Witness)
    ensures
        r@ == (WitnessModel::AccumulatorNonMembership { element: element@, witness: accum_witness@ }),
{
    Witness::AccumulatorNonMembership { element, witness: accum_witness }
}

/// The witness of a signature statement: the signature and its hidden messages by index.
pub fn generate_pok_bbs_sig_witness(signature: Bytes, unrevealed_msgs: Vec<(usize, Bytes)>) -> (r:
    Witness)
    ensures
        r@ == (WitnessModel::SignatureKnowledge {
            signature: signature@,
            unrevealed: indexed_view(unrevealed_msgs@),
        }),
{
    Witness::SignatureKnowledge { signature, unrevealed: unrevealed_msgs }
}

/// The witness of a Pedersen statement: the opened scalars, one per base.
pub fn generate_pedersen_commitment_witness(elements: Vec<Bytes>) -> (r: Witness)
    ensures
        r@ == (WitnessModel::PedersenOpening { openings: crate::model::blobs_view(elements@) }),
{
    Witness::PedersenOpening { openings: elements }
}

// ---------------------------------------------------------------------------
// Equality groups
// ---------------------------------------------------------------------------

pub open spec fn pair_lt(a: (usize, usize), b: (usize, usize)) -> bool {
    a.0 < b.0 || (a.0 == b.0 && a.1 < b.1)
}

/// Strictly increasing, so without repetitions.
pub open spec fn pairs_sorted(s: Seq<(usize, usize)>) -> bool {
    forall|a: int, b: int| 0 <= a < b < s.len() ==> pair_lt(#[trigger] s[a], #[trigger] s[b])
}

fn insert_sorted(v: &mut Vec<(usize, usize)>, p: (usize, usize))
    requires
        pairs_sorted(old(v)@),
    ensures
        pairs_sorted(final(v)@),
        forall|q: (usize, usize)| final(v)@.contains(q) <==> (old(v)@.contains(q) || q == p),
{
    let mut k: usize = 0;
    while k < v.len() && (v[k].0 < p.0 || (v[k].0 == p.0 && v[k].1 < p.1))
        invariant
            k <= v@.len(),
            v@ == old(v)@,
            forall|m: int| 0 <= m < k ==> pair_lt(#[trigger] v@[m], p),
        decreases v@.len() - k,
    {
        k = k + 1;
    }
    if k < v.len() && v[k].0 == p.0 && v[k].1 == p.1 {
        assert(v@[k as int] == p);
        return;
    }
    proof {
        assert forall|m: int| k <= m < v@.len() implies pair_lt(p, #[trigger] v@[m]) by {
            if m > k {
                assert(pair_lt(v@[k as int], v@[m]));
            }
        }
    }
    let ghost before = v@;
    v.insert(k, p);
    proof {
        let s = v@;
        assert(s == before.insert(k as int, p));
        assert forall|a: int, b: int| 0 <= a < b < s.len() implies pair_lt(#[trigger] s[a], #[trigger] s[b]) by {
            if b < k {
            } else if b == k {
            } else if a < k {
                assert(pair_lt(before[a], p));
                assert(pair_lt(p, before[b - 1]));
            } else if a == k {
                assert(pair_lt(p, before[b - 1]));
            } else {
                assert(pair_lt(before[a - 1], before[b - 1]));
            }
        }
        assert forall|q: (usize, usize)| s.contains(q) <==> (before.contains(q) || q == p) by {
            if s.contains(q) {
                let idx = choose|idx: int| 0 <= idx < s.len() && #[trigger] s[idx] == q;
                if idx < k {
                    assert(before[idx] == q);
                } else if idx > k {
                    assert(before[idx - 1] == q);
                }
            }
            if before.contains(q) {
                let idx = choose|idx: int| 0 <= idx < before.len() && #[trigger] before[idx] == q;
                if idx < k {
                    assert(s[idx] == q);
                } else {
                    assert(s[idx + 1] == q);
                }
            }
            if q == p {
                assert(s[k as int] == p);
            }
        }
    }
}

/// An equality group over the given (statement index, witness slot) pairs, each kept once,
/// in increasing order.
pub fn generate_witness_equality_meta_statement(equality: Vec<(usize, usize)>) -> (r: EqualityGroup)
    ensures
        pairs_sorted(r.refs@),
        forall|q: (usize, usize)| r.refs@.contains(q) <==> equality@.contains(q),
{
    let mut refs: Vec<(usize, usize)> = Vec::new();
    let mut k: usize = 0;
    while k < equality.len()
        invariant
            k <= equality@.len(),
            pairs_sorted(refs@),
            forall|q: (usize, usize)| refs@.contains(q) <==> equality@.take(k as int).contains(q),
        decreases equality@.len() - k,
    {
        let ghost before = refs@;
        insert_sorted(&mut refs, equality[k]);
        proof {
            assert forall|q: (usize, usize)| equality@.take(k + 1).contains(q) <==> (equality@.take(k as int).contains(q) || q == equality@[k as int]) by {
                if equality@.take(k + 1).contains(q) {
                    let idx = choose|idx: int| 0 <= idx < k + 1 && #[trigger] equality@.take(k + 1)[idx] == q;
                    if idx < k {
                        assert(equality@.take(k as int)[idx] == q);
                    }
                }
                if equality@.take(k as int).contains(q) {
                    let idx = choose|idx: int| 0 <= idx < k && #[trigger] equality@.take(k as int)[idx] == q;
                    assert(equality@.take(k + 1)[idx] == q);
                }
                if q == equality@[k as int] {
                    assert(equality@.take(k + 1)[k as int] == q);
                }
            }
            assert forall|q: (usize, usize)| refs@.contains(q) <==> equality@.take(k + 1).contains(q) by {
                assert(refs@.contains(q) <==> (before.contains(q) || q == equality@[k as int]));
                assert(before.contains(q) <==> equality@.take(k as int).contains(q));
            }
        }
        k = k + 1;
    }
    assert(equality@.take(equality@.len() as int) =~= equality@);
    EqualityGroup { refs }
}

// ---------------------------------------------------------------------------
// Proving and verifying from the parts of a specification
// ---------------------------------------------------------------------------

pub open spec fn assembled(
    statements: Seq<Statement>,
    setup_params: Seq<SetupParam>,
    equalities: Seq<EqualityGroup>,
    context: Option<Bytes>,
) -> ProofSpecModel {
    ProofSpecModel {
        statements: statements_view(statements),
        setup_params: params_view(setup_params),
        equalities: groups_view(equalities),
        context: opt_bytes_view(context),
    }
}

/// Assembles the specification from its parts, then proves it.
pub fn generate_composite_proof_g1_with_deconstructed_proof_spec(
    statements: Vec<Statement>,
    setup_params: Vec<SetupParam>,
    equalities: Vec<EqualityGroup>,
    witnesses: Vec<Witness>,
    context: Option<Bytes>,
    nonce: Option<Bytes>,
    rng: &mut StdRng,
) -> (r: Result<Proof, ProofError>)
    ensures
        ({
            let sp = assembled(statements@, setup_params@, equalities@, context);
            &&& !spec_wf(sp) ==> r == Err::<Proof, ProofError>(ProofError::MalformedSpec)
            &&& spec_wf(sp) ==> proving_outcome(sp, witnesses_view(witnesses@), opt_bytes_view(nonce), r)
        }),
{
    let spec = match generate_proof_spec_g1(statements, setup_params, equalities, context) {
        Ok(s) => s,
        Err(e) => return Err(e),
    };
    prove(&spec, witnesses, &nonce, rng)
}

/// Assembles the specification from its parts, then verifies `proof` against it.
pub fn verify_composite_proof_g1_with_deconstructed_proof_spec(
    proof: &Proof,
    statements: Vec<Statement>,
    setup_params: Vec<SetupParam>,
    equalities: Vec<EqualityGroup>,
    context: Option<Bytes>,
    nonce: Option<Bytes>,
) -> (r: Result<(), ProofError>)
    ensures
        ({
            let sp = assembled(statements@, setup_params@, equalities@, context);
            &&& !spec_wf(sp) ==> r == Err::<(), ProofError>(ProofError::MalformedSpec)
            &&& spec_wf(sp) && proof@.len() != sp.statements.len() ==> r == Err::<(), ProofError>(
                ProofError::ProofShapeMismatch,
            )
            &&& r is Ok <==> accepts(sp, proof@, opt_bytes_view(nonce))
            &&& spec_wf(sp) ==> r == verdict(sp, proof@, opt_bytes_view(nonce))
        }),
{
    let spec = match generate_proof_spec_g1(statements, setup_params, equalities, context) {
        Ok(s) => s,
        Err(e) => return Err(e),
    };
    verify(&spec, proof, &nonce)
}

// ---------------------------------------------------------------------------
// Proving and verifying against an encoded specification
// ---------------------------------------------------------------------------

/// Decodes the specification, then proves it; bytes that are no specification are
/// `MalformedSpec`.
pub fn generate_composite_proof_g1(
    proof_spec: &Vec<u8>,
    witnesses: Vec<Witness>,
    nonce: Option<Bytes>,
    rng: &mut StdRng,
) -> (r: Result<Proof, ProofError>)
    ensures
        parse_spec(proof_spec@) is None ==> r == Err::<Proof, ProofError>(ProofError::MalformedSpec),
        parse_spec(proof_spec@) matches Some(sp) ==> proving_outcome(
            sp,
            witnesses_view(witnesses@),
            opt_bytes_view(nonce),
            r,
        ),
{
    match decode_proof_spec(proof_spec) {
        Some(spec) => prove(&spec, witnesses, &nonce, rng),
        None => Err(ProofError::MalformedSpec),
    }
}

/// Decodes the specification, then verifies `proof` against it; bytes that are no
/// specification are `MalformedSpec`.
pub fn verify_composite_proof_g1(proof: &Proof, proof_spec: &Vec<u8>, nonce: Option<Bytes>) -> (r:
    Result<(), ProofError>)
    ensures
        parse_spec(proof_spec@) is None ==> r == Err::<(), ProofError>(ProofError::MalformedSpec),
        parse_spec(proof_spec@) matches Some(sp) ==> {
            &&& proof@.len() != sp.statements.len() ==> r == Err::<(), ProofError>(
                ProofError::ProofShapeMismatch,
            )
            &&& r is Ok <==> accepts(sp, proof@, opt_bytes_view(nonce))
            &&& r == verdict(sp, proof@, opt_bytes_view(nonce))
        },
{
    match decode_proof_spec(proof_spec) {
        Some(spec) => verify(&spec, proof, &nonce),
        None => Err(ProofError::MalformedSpec),
    }
}

} // verus!
