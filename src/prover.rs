//! The proof orchestrator: commit for every statement (sharing one blinding across each
//! equality group), derive the single challenge from all contributions, then respond.
use vstd::prelude::*;

use crate::crypto::{
    challenge_of, mem_gen_proof_of, mem_protocol_contribution_of, schnorr_t_of, schnorr_response_of,
    schnorr_commit, schnorr_respond, nonmem_gen_proof_of,
    nonmem_protocol_contribution_of, nonmem_witness_d_is_zero_of, sig_gen_proof_of,
    sig_message_count_of, sig_protocol_contribution_of, challenge, mem_gen_proof, mem_pok_init, mem_protocol_contribution, nonmem_gen_proof,
    nonmem_pok_init, nonmem_protocol_contribution, nonmem_witness_d_is_zero, random_scalar,
    scrub, sig_message_count,
    sig_pok_gen_proof, sig_pok_init, sig_protocol_contribution, MessageChoice,
};
use crate::model::{
    blobs_view, copy_bytes, indexed_view, opt_bytes_view, witnesses_view, Bytes, Proof, ProofError, ProofSpec,
    ProofSpecModel, Statement, StatementModel, StatementProof, StatementProofModel, Witness,
    WitnessModel,
};
use crate::spec_builder::{
    accumulator_params_at, non_membership_key_at, proving_key_at, sig_params_at, bases_at, accumulator_params_of, bases_of, is_revealed, non_membership_key_of, proving_key_of, revealed_contains, sig_params_of,
    spec_wf, validate_spec,
};
use crate::transcript::{build_pedersen_contribution, build_transcript, pedersen_contribution, transcript};
use ark_std::rand::rngs::StdRng;

verus! {

// ---------------------------------------------------------------------------
// Equality groups and blindings
// ---------------------------------------------------------------------------

pub open spec fn in_group(g: Seq<(usize, usize)>, i: usize, j: usize) -> bool {
    exists|k: int| 0 <= k < g.len() && #[trigger] g[k] == (i, j)
}

/// `g` is the first equality group that names slot `j` of statement `i`.
pub open spec fn is_first_group(groups: Seq<Seq<(usize, usize)>>, i: usize, j: usize, g: int) -> bool {
    &&& 0 <= g < groups.len()
    &&& in_group(groups[g], i, j)
    &&& forall|h: int| 0 <= h < g ==> !in_group(#[trigger] groups[h], i, j)
}

pub open spec fn in_no_group(groups: Seq<Seq<(usize, usize)>>, i: usize, j: usize) -> bool {
    forall|h: int| 0 <= h < groups.len() ==> !in_group(#[trigger] groups[h], i, j)
}

/// The blinding that slot `j` of statement `i` must use, when it is linked: that of the
/// first equality group naming it.
pub open spec fn linked_blinding(
    groups: Seq<Seq<(usize, usize)>>,
    group_blindings: Seq<Seq<u8>>,
    i: usize,
    j: usize,
    b: Seq<u8>,
) -> bool {
    forall|g: int| is_first_group(groups, i, j, g) ==> b == #[trigger] group_blindings[g]
}

/// Two slots whose first equality group is the same group `g` are blinded alike, whichever
/// statements they belong to: the blinding that `slot_blindings` and `message_choices` give
/// such a slot is the group's own.
pub proof fn lemma_linked_slots_share_blinding(
    groups: Seq<Seq<(usize, usize)>>,
    group_blindings: Seq<Seq<u8>>,
    g: int,
    i1: usize,
    j1: usize,
    b1: Seq<u8>,
    i2: usize,
    j2: usize,
    b2: Seq<u8>,
)
    requires
        is_first_group(groups, i1, j1, g),
        is_first_group(groups, i2, j2, g),
        linked_blinding(groups, group_blindings, i1, j1, b1),
        linked_blinding(groups, group_blindings, i2, j2, b2),
    ensures
        b1 == b2,
        b1 == group_blindings[g],
{
}

/// Finds the first equality group that names slot `j` of statement `i`.
pub fn find_group(spec: &ProofSpec, i: usize, j: usize) -> (r: Option<usize>)
    ensures
        r matches Some(g) ==> is_first_group(spec@.equalities, i, j, g as int),
        r is None ==> in_no_group(spec@.equalities, i, j),
{
    let mut g: usize = 0;
    while g < spec.equalities.len()
        invariant
            g <= spec@.equalities.len(),
            forall|h: int| 0 <= h < g ==> !in_group(#[trigger] spec@.equalities[h], i, j),
        decreases spec.equalities@.len() - g,
    {
        let refs = &spec.equalities[g].refs;
        let mut k: usize = 0;
        while k < refs.len()
            invariant
                k <= refs@.len(),
                g < spec@.equalities.len(),
                refs@ == spec@.equalities[g as int],
                forall|h: int| 0 <= h < g ==> !in_group(#[trigger] spec@.equalities[h], i, j),
                forall|m: int| 0 <= m < k ==> #[trigger] refs@[m] != (i, j),
            decreases refs@.len() - k,
        {
            if refs[k].0 == i && refs[k].1 == j {
                assert(refs@[k as int] == (i, j));
                return Some(g);
            }
            k = k + 1;
        }
        g = g + 1;
    }
    None
}

/// Draws one fresh blinding per equality group.
fn draw_group_blindings(count: usize, rng: &mut StdRng) -> (r: Vec<Bytes>)
    ensures
        r@.len() == count,
{
    let mut r: Vec<Bytes> = Vec::new();
    while r.len() < count
        invariant
            r@.len() <= count,
        decreases count - r@.len(),
    {
        r.push(random_scalar(rng));
    }
    r
}

/// The blinding of every slot of statement `i`: the group's shared blinding for a linked
/// slot, a fresh one otherwise.
pub fn slot_blindings(
    spec: &ProofSpec,
    i: usize,
    count: usize,
    group_blindings: &Vec<Bytes>,
    rng: &mut StdRng,
) -> (r: Vec<Bytes>)
    requires
        group_blindings@.len() == spec@.equalities.len(),
    ensures
        r@.len() == count,
        forall|j: int|
            0 <= j < count ==> linked_blinding(
                spec@.equalities,
                blobs_view(group_blindings@),
                i,
                j as usize,
                #[trigger] r@[j]@,
            ),
{
    let ghost gb = blobs_view(group_blindings@);
    let mut r: Vec<Bytes> = Vec::new();
    let mut j: usize = 0;
    while j < count
        invariant
            j <= count,
            r@.len() == j,
            group_blindings@.len() == spec@.equalities.len(),
            gb == blobs_view(group_blindings@),
            forall|m: int|
                0 <= m < j ==> linked_blinding(spec@.equalities, gb, i, m as usize, #[trigger] r@[m]@),
        decreases count - j,
    {
        match find_group(spec, i, j) {
            Some(g) => {
                r.push(copy_bytes(&group_blindings[g]));
            },
            None => {
                r.push(random_scalar(rng));
            },
        }
        proof {
            assert forall|g: int| is_first_group(spec@.equalities, i, j, g) implies r@[j as int]@
                == #[trigger] gb[g] by {
                assert forall|h: int| #![auto] is_first_group(spec@.equalities, i, j, h)
                    && is_first_group(spec@.equalities, i, j, g) implies h == g by {
                    if h < g {
                        assert(!in_group(spec@.equalities[h], i, j));
                    } else if g < h {
                        assert(!in_group(spec@.equalities[g], i, j));
                    }
                }
            }
        }
        j = j + 1;
    }
    r
}

/// The first entry of `v` for index `j` holds `m`.
pub open spec fn first_entry_is(v: Seq<(usize, Seq<u8>)>, j: usize, m: Seq<u8>) -> bool {
    exists|k: int|
        0 <= k < v.len() && #[trigger] v[k].0 == j && v[k].1 == m && forall|l: int|
            0 <= l < k ==> v[l].0 != j
}

/// Every message below `count` is either revealed or given in the witness.
pub open spec fn messages_complete(
    revealed: Seq<(usize, Seq<u8>)>,
    unrevealed: Seq<(usize, Seq<u8>)>,
    count: usize,
) -> bool {
    forall|j: usize| #![trigger is_revealed(revealed, j)] #![trigger is_revealed(unrevealed, j)]
        j < count ==> is_revealed(revealed, j) || is_revealed(unrevealed, j)
}

fn find_message(msgs: &Vec<(usize, Bytes)>, idx: usize) -> (r: Option<&Bytes>)
    ensures
        r matches Some(m) ==> first_entry_is(indexed_view(msgs@), idx, m@),
        r is None ==> !is_revealed(indexed_view(msgs@), idx),
{
    let ghost v = indexed_view(msgs@);
    let mut k: usize = 0;
    while k < msgs.len()
        invariant
            k <= msgs@.len(),
            v == indexed_view(msgs@),
            forall|l: int| 0 <= l < k ==> #[trigger] v[l].0 != idx,
        decreases msgs@.len() - k,
    {
        if msgs[k].0 == idx {
            assert(v[k as int].0 == idx && v[k as int].1 == msgs@[k as int].1@);
            return Some(&msgs[k].1);
        }
        assert(v[k as int].0 == msgs@[k as int].0);
        k = k + 1;
    }
    None
}

/// How each of the `count` messages of signature statement `i` enters its proof: revealed
/// messages are taken from the statement, hidden ones from the witness (the first entry for
/// the index in either); a hidden message that an equality group names is blinded with that
/// group's shared blinding, any other with a fresh one. There is no result when a message is
/// neither revealed nor in the witness.
pub fn message_choices(
    spec: &ProofSpec,
    i: usize,
    count: usize,
    revealed: &Vec<(usize, Bytes)>,
    unrevealed: &Vec<(usize, Bytes)>,
    group_blindings: &Vec<Bytes>,
    rng: &mut StdRng,
) -> (r: Option<Vec<MessageChoice>>)
    requires
        group_blindings@.len() == spec@.equalities.len(),
    ensures
        r is None <==> !messages_complete(indexed_view(revealed@), indexed_view(unrevealed@), count),
        r matches Some(cs) ==> cs@.len() == count && forall|j: int|
            0 <= j < count ==> {
                let c = #[trigger] cs@[j];
                &&& (c.1 is None) == is_revealed(indexed_view(revealed@), j as usize)
                &&& (c.1 is None ==> first_entry_is(indexed_view(revealed@), j as usize, c.0@))
                &&& (c.1 is Some ==> first_entry_is(indexed_view(unrevealed@), j as usize, c.0@))
                &&& (c.1 matches Some(b) ==> linked_blinding(
                    spec@.equalities,
                    blobs_view(group_blindings@),
                    i,
                    j as usize,
                    b@,
                ))
            },
{
    let ghost gb = blobs_view(group_blindings@);
    let ghost rv = indexed_view(revealed@);
    let ghost uv = indexed_view(unrevealed@);
    let mut cs: Vec<MessageChoice> = Vec::new();
    let mut j: usize = 0;
    while j < count
        invariant
            j <= count,
            cs@.len() == j,
            group_blindings@.len() == spec@.equalities.len(),
            gb == blobs_view(group_blindings@),
            rv == indexed_view(revealed@),
            uv == indexed_view(unrevealed@),
            forall|m: usize| #![trigger is_revealed(rv, m)] #![trigger is_revealed(uv, m)]
                m < j ==> is_revealed(rv, m) || is_revealed(uv, m),
            forall|m: int|
                0 <= m < j ==> {
                    let c = #[trigger] cs@[m];
                    &&& (c.1 is None) == is_revealed(rv, m as usize)
                    &&& (c.1 is None ==> first_entry_is(rv, m as usize, c.0@))
                    &&& (c.1 is Some ==> first_entry_is(uv, m as usize, c.0@))
                    &&& (c.1 matches Some(b) ==> linked_blinding(spec@.equalities, gb, i, m as usize, b@))
                },
        decreases count - j,
    {
        if revealed_contains(revealed, j) {
            match find_message(revealed, j) {
                Some(m) => cs.push((copy_bytes(m), None)),
                None => return None,
            }
        } else {
            let m = match find_message(unrevealed, j) {
                Some(m) => copy_bytes(m),
                None => {
                    assert(!(is_revealed(rv, j) || is_revealed(uv, j)));
                    return None;
                },
            };
            match find_group(spec, i, j) {
                Some(g) => {
                    let b = copy_bytes(&group_blindings[g]);
                    proof {
                        assert forall|h: int| is_first_group(spec@.equalities, i, j, h) implies b@
                            == #[trigger] gb[h] by {
                            if h < g {
                                assert(!in_group(spec@.equalities[h], i, j));
                            } else if g < h {
                                assert(!in_group(spec@.equalities[g as int], i, j));
                            }
                        }
                    }
                    cs.push((m, Some(b)));
                },
                None => {
                    cs.push((m, Some(random_scalar(rng))));
                },
            }
        }
        j = j + 1;
    }
    Some(cs)
}

// ---------------------------------------------------------------------------
// Kinds
// ---------------------------------------------------------------------------

pub open spec fn witness_fits(s: StatementModel, w: WitnessModel) -> bool {
    match (s, w) {
        (StatementModel::SignatureKnowledge { .. }, WitnessModel::SignatureKnowledge { .. }) => true,
        (StatementModel::PedersenOpening { .. }, WitnessModel::PedersenOpening { .. }) => true,
        (StatementModel::AccumulatorMembership { .. }, WitnessModel::AccumulatorMembership { .. }) => true,
        (StatementModel::AccumulatorNonMembership { .. }, WitnessModel::AccumulatorNonMembership { .. }) => true,
        _ => false,
    }
}

/// A sub-proof is of the kind of its statement, and a Pedersen opening proof holds one
/// response per base.
pub open spec fn proof_fits(sp: ProofSpecModel, s: StatementModel, p: StatementProofModel) -> bool {
    match (s, p) {
        (StatementModel::SignatureKnowledge { .. }, StatementProofModel::SignatureKnowledge { .. }) => true,
        (StatementModel::PedersenOpening { bases, .. }, StatementProofModel::PedersenOpening { responses, .. }) =>
            bases_at(sp, bases) matches Some(b) && responses.len() == b.len(),
        (StatementModel::AccumulatorMembership { .. }, StatementProofModel::AccumulatorMembership { .. }) => true,
        (StatementModel::AccumulatorNonMembership { .. }, StatementProofModel::AccumulatorNonMembership { .. }) => true,
        _ => false,
    }
}

/// Every witness is of the kind of the statement at its position.
pub open spec fn witnesses_fit(sp: ProofSpecModel, ws: Seq<WitnessModel>) -> bool {
    &&& ws.len() == sp.statements.len()
    &&& forall|i: int| 0 <= i < ws.len() ==> witness_fits(sp.statements[i], #[trigger] ws[i])
}

fn check_witness_kinds(spec: &ProofSpec, ws: &Vec<Witness>) -> (r: bool)
    requires
        ws@.len() == spec@.statements.len(),
    ensures
        r == witnesses_fit(spec@, witnesses_view(ws@)),
{
    let mut i: usize = 0;
    while i < ws.len()
        invariant
            i <= ws@.len(),
            ws@.len() == spec@.statements.len(),
            forall|m: int| 0 <= m < i ==> witness_fits(spec@.statements[m], #[trigger] ws@[m]@),
        decreases ws@.len() - i,
    {
        let ok = match (&spec.statements[i], &ws[i]) {
            (Statement::SignatureKnowledge { .. }, Witness::SignatureKnowledge { .. }) => true,
            (Statement::PedersenOpening { .. }, Witness::PedersenOpening { .. }) => true,
            (Statement::AccumulatorMembership { .. }, Witness::AccumulatorMembership { .. }) => true,
            (Statement::AccumulatorNonMembership { .. }, Witness::AccumulatorNonMembership { .. }) => true,
            _ => false,
        };
        assert(spec@.statements[i as int] == spec.statements@[i as int]@);
        assert(witnesses_view(ws@)[i as int] == ws@[i as int]@);
        if !ok {
            return false;
        }
        i = i + 1;
    }
    assert forall|m: int| 0 <= m < ws@.len() implies witness_fits(spec@.statements[m], #[trigger] witnesses_view(ws@)[m]) by {
        assert(witnesses_view(ws@)[m] == ws@[m]@);
    }
    true
}

// ---------------------------------------------------------------------------
// Commit and respond
// ---------------------------------------------------------------------------

/// What one statement keeps between the commit phase and the response phase.
enum Commitment {
    Signature { protocol: Bytes },
    Pedersen { blindings: Vec<Bytes>, t: Bytes },
    Membership { protocol: Bytes },
    NonMembership { protocol: Bytes },
}

/// The commitment was made for that statement with that witness.
spec fn commitment_fits(sp: ProofSpecModel, c: Commitment, s: StatementModel, w: WitnessModel) -> bool {
    match (c, s, w) {
        (Commitment::Signature { .. }, StatementModel::SignatureKnowledge { .. }, WitnessModel::SignatureKnowledge { .. }) => true,
        (Commitment::Membership { .. }, StatementModel::AccumulatorMembership { .. }, WitnessModel::AccumulatorMembership { .. }) => true,
        (Commitment::NonMembership { .. }, StatementModel::AccumulatorNonMembership { .. }, WitnessModel::AccumulatorNonMembership { .. }) => true,
        (Commitment::Pedersen { blindings, .. }, StatementModel::PedersenOpening { bases, .. }, WitnessModel::PedersenOpening { openings }) =>
            blindings@.len() == openings.len() && (bases_at(sp, bases) matches Some(b) && b.len() == openings.len()),
        _ => false,
    }
}

/// The library's own checks on a witness, before any outside call: a Pedersen opening has
/// one scalar per base, every message of a signature is revealed or in the witness, and a
/// non-membership witness has a non-zero `d`.
pub open spec fn witness_complete(sp: ProofSpecModel, s: StatementModel, w: WitnessModel) -> bool {
    match (s, w) {
        (
            StatementModel::SignatureKnowledge { params, revealed, .. },
            WitnessModel::SignatureKnowledge { unrevealed, .. },
        ) => match sig_params_at(sp, params) {
            Some(pp) => match sig_message_count_of(pp) {
                Some(n) => messages_complete(revealed, unrevealed, n),
                None => false,
            },
            None => false,
        },
        (StatementModel::PedersenOpening { bases, .. }, WitnessModel::PedersenOpening { openings }) =>
            match bases_at(sp, bases) {
            Some(b) => b.len() == openings.len(),
            None => false,
        },
        (StatementModel::AccumulatorMembership { .. }, WitnessModel::AccumulatorMembership { .. }) => true,
        (
            StatementModel::AccumulatorNonMembership { .. },
            WitnessModel::AccumulatorNonMembership { witness, .. },
        ) => nonmem_witness_d_is_zero_of(witness) == Some(false),
        _ => false,
    }
}

/// Sub-proof `p` of statement `i` was made from witness `w` under challenge `c`, and
/// `contribution` is what its commit phase put into the transcript. For a Pedersen opening,
/// `blindings` are its blindings (each linked slot holding its group's blinding), `t` their
/// commitment and every response `blinding + opening * c`; for the other kinds `protocol` is
/// the commit-phase state from which the contribution and the proof are derived.
pub open spec fn sub_proof_made(
    sp: ProofSpecModel,
    i: int,
    s: StatementModel,
    w: WitnessModel,
    p: StatementProofModel,
    contribution: Seq<u8>,
    blindings: Seq<Seq<u8>>,
    protocol: Seq<u8>,
    group_blindings: Seq<Seq<u8>>,
    c: Seq<u8>,
) -> bool {
    match (s, w, p) {
        (
            StatementModel::SignatureKnowledge { params, revealed, .. },
            WitnessModel::SignatureKnowledge { .. },
            StatementProofModel::SignatureKnowledge { proof },
        ) => match sig_params_at(sp, params) {
            Some(pp) => sig_protocol_contribution_of(protocol, revealed, pp) == Some(contribution)
                && sig_gen_proof_of(protocol, c) == Some(proof),
            None => false,
        },
        (
            StatementModel::PedersenOpening { bases, commitment },
            WitnessModel::PedersenOpening { openings },
            StatementProofModel::PedersenOpening { t, responses },
        ) => match bases_at(sp, bases) {
            Some(b) => {
                &&& blindings.len() == b.len()
                &&& openings.len() == b.len()
                &&& responses.len() == b.len()
                &&& forall|j: int|
                    0 <= j < b.len() ==> linked_blinding(
                        sp.equalities,
                        group_blindings,
                        i as usize,
                        j as usize,
                        #[trigger] blindings[j],
                    )
                &&& schnorr_t_of(b, blindings) == Some(t)
                &&& contribution == pedersen_contribution(b, commitment, t)
                &&& forall|j: int|
                    0 <= j < b.len() ==> #[trigger] responses[j] == schnorr_response_of(
                        blindings[j],
                        openings[j],
                        c,
                    )
            },
            None => false,
        },
        (
            StatementModel::AccumulatorMembership { params, public_key, proving_key, accumulated },
            WitnessModel::AccumulatorMembership { .. },
            StatementProofModel::AccumulatorMembership { proof },
        ) => match (accumulator_params_at(sp, params), proving_key_at(sp, proving_key)) {
            (Some(pp), Some(k)) => mem_protocol_contribution_of(protocol, accumulated, public_key, pp, k)
                == Some(contribution) && mem_gen_proof_of(protocol, c) == Some(proof),
            _ => false,
        },
        (
            StatementModel::AccumulatorNonMembership { params, public_key, proving_key, accumulated },
            WitnessModel::AccumulatorNonMembership { .. },
            StatementProofModel::AccumulatorNonMembership { proof },
        ) => match (accumulator_params_at(sp, params), non_membership_key_at(sp, proving_key)) {
            (Some(pp), Some(k)) => nonmem_protocol_contribution_of(
                protocol,
                accumulated,
                public_key,
                pp,
                k,
            ) == Some(contribution) && nonmem_gen_proof_of(protocol, c) == Some(proof),
            _ => false,
        },
        _ => false,
    }
}

/// The whole proof was made from the witnesses: every sub-proof answers the one challenge
/// that hashes the contributions of all statements, in order, with the context and the nonce.
pub open spec fn proof_made(
    sp: ProofSpecModel,
    ws: Seq<WitnessModel>,
    nonce: Option<Seq<u8>>,
    proof: Seq<StatementProofModel>,
    contributions: Seq<Seq<u8>>,
    blindings: Seq<Seq<Seq<u8>>>,
    protocols: Seq<Seq<u8>>,
    group_blindings: Seq<Seq<u8>>,
) -> bool {
    &&& proof.len() == sp.statements.len()
    &&& contributions.len() == sp.statements.len()
    &&& blindings.len() == sp.statements.len()
    &&& protocols.len() == sp.statements.len()
    &&& group_blindings.len() == sp.equalities.len()
    &&& forall|i: int|
        0 <= i < sp.statements.len() ==> sub_proof_made(
            sp,
            i,
            sp.statements[i],
            ws[i],
            #[trigger] proof[i],
            contributions[i],
            blindings[i],
            protocols[i],
            group_blindings,
            challenge_of(transcript(contributions, sp.context, nonce)),
        )
}

/// Everything that `prove` promises of its result.
pub open spec fn proving_outcome(
    sp: ProofSpecModel,
    ws: Seq<WitnessModel>,
    nonce: Option<Seq<u8>>,
    r: Result<Proof, ProofError>,
) -> bool {
    let n = sp.statements.len();
    &&& ws.len() != n ==> r == Err::<Proof, ProofError>(ProofError::WitnessCountMismatch)
    &&& ws.len() == n ==> (r == Err::<Proof, ProofError>(ProofError::MalformedSpec) <==> !(spec_wf(sp)
        && witnesses_fit(sp, ws)))
    &&& ws.len() == n && spec_wf(sp) && witnesses_fit(sp, ws) ==> forall|i: int|
        0 <= i < n && !#[trigger] witness_complete(sp, sp.statements[i], ws[i]) && (forall|k: int|
            0 <= k < i ==> witness_complete(sp, sp.statements[k], ws[k])) ==> r == Err::<
            Proof,
            ProofError,
        >(ProofError::StatementProvingError { index: i as usize })
    &&& n == 0 && ws.len() == 0 && spec_wf(sp) ==> r is Ok
    &&& r matches Err(ProofError::StatementProvingError { index }) ==> index < n
    &&& r matches Err(e) ==> (e is WitnessCountMismatch || e is MalformedSpec || e is StatementProvingError)
    &&& r matches Ok(p) ==> {
        &&& forall|i: int| 0 <= i < n ==> #[trigger] witness_complete(sp, sp.statements[i], ws[i])
        &&& p@.len() == n
        &&& forall|i: int| 0 <= i < n ==> proof_fits(sp, sp.statements[i], #[trigger] p@[i])
        &&& exists|cs: Seq<Seq<u8>>, bl: Seq<Seq<Seq<u8>>>, pr: Seq<Seq<u8>>, gb: Seq<Seq<u8>>|
            proof_made(sp, ws, nonce, p@, cs, bl, pr, gb)
    }
}

/// The number of responses of a Pedersen opening proof.
pub open spec fn response_count(p: StatementProofModel) -> int {
    match p {
        StatementProofModel::PedersenOpening { responses, .. } => responses.len() as int,
        _ => 0,
    }
}

/// Response `j` of a Pedersen opening proof.
pub open spec fn response_at(p: StatementProofModel, j: int) -> Seq<u8> {
    match p {
        StatementProofModel::PedersenOpening { responses, .. } => responses[j],
        _ => Seq::empty(),
    }
}

/// Opening `j` of a Pedersen opening witness.
pub open spec fn opening_at(w: WitnessModel, j: int) -> Seq<u8> {
    match w {
        WitnessModel::PedersenOpening { openings } => openings[j],
        _ => Seq::empty(),
    }
}

/// In a proof made from the witnesses, two Pedersen slots that one equality group names first
/// and that open to the same scalar carry the same response: both were blinded with the
/// group's blinding and both answer the one challenge.
pub proof fn lemma_linked_pedersen_responses_agree(
    sp: ProofSpecModel,
    ws: Seq<WitnessModel>,
    nonce: Option<Seq<u8>>,
    proof: Seq<StatementProofModel>,
    cs: Seq<Seq<u8>>,
    bl: Seq<Seq<Seq<u8>>>,
    pr: Seq<Seq<u8>>,
    gb: Seq<Seq<u8>>,
    g: int,
    i1: int,
    j1: int,
    i2: int,
    j2: int,
)
    requires
        proof_made(sp, ws, nonce, proof, cs, bl, pr, gb),
        0 <= i1 < sp.statements.len(),
        0 <= i2 < sp.statements.len(),
        sp.statements[i1] is PedersenOpening,
        sp.statements[i2] is PedersenOpening,
        0 <= j1 < response_count(proof[i1]),
        0 <= j2 < response_count(proof[i2]),
        is_first_group(sp.equalities, i1 as usize, j1 as usize, g),
        is_first_group(sp.equalities, i2 as usize, j2 as usize, g),
        opening_at(ws[i1], j1) == opening_at(ws[i2], j2),
    ensures
        response_at(proof[i1], j1) == response_at(proof[i2], j2),
{
    let c = challenge_of(transcript(cs, sp.context, nonce));
    assert(sub_proof_made(sp, i1, sp.statements[i1], ws[i1], proof[i1], cs[i1], bl[i1], pr[i1], gb, c));
    assert(sub_proof_made(sp, i2, sp.statements[i2], ws[i2], proof[i2], cs[i2], bl[i2], pr[i2], gb, c));
    assert(bl[i1][j1] == gb[g]);
    assert(bl[i2][j2] == gb[g]);
}

/// What the commit phase of statement `i` produced.
spec fn commit_made(
    sp: ProofSpecModel,
    i: int,
    c: Commitment,
    s: StatementModel,
    contribution: Seq<u8>,
    gb: Seq<Seq<u8>>,
) -> bool {
    match (c, s) {
        (Commitment::Signature { protocol }, StatementModel::SignatureKnowledge { params, revealed, .. }) =>
            match sig_params_at(sp, params) {
            Some(pp) => sig_protocol_contribution_of(protocol@, revealed, pp) == Some(contribution),
            None => false,
        },
        (Commitment::Pedersen { blindings, t }, StatementModel::PedersenOpening { bases, commitment }) =>
            match bases_at(sp, bases) {
            Some(b) => {
                &&& blindings@.len() == b.len()
                &&& forall|j: int|
                    0 <= j < b.len() ==> linked_blinding(
                        sp.equalities,
                        gb,
                        i as usize,
                        j as usize,
                        #[trigger] blindings@[j]@,
                    )
                &&& schnorr_t_of(b, blobs_view(blindings@)) == Some(t@)
                &&& contribution == pedersen_contribution(b, commitment, t@)
            },
            None => false,
        },
        (
            Commitment::Membership { protocol },
            StatementModel::AccumulatorMembership { params, public_key, proving_key, accumulated },
        ) => match (accumulator_params_at(sp, params), proving_key_at(sp, proving_key)) {
            (Some(pp), Some(k)) => mem_protocol_contribution_of(protocol@, accumulated, public_key, pp, k)
                == Some(contribution),
            _ => false,
        },
        (
            Commitment::NonMembership { protocol },
            StatementModel::AccumulatorNonMembership { params, public_key, proving_key, accumulated },
        ) => match (accumulator_params_at(sp, params), non_membership_key_at(sp, proving_key)) {
            (Some(pp), Some(k)) => nonmem_protocol_contribution_of(
                protocol@,
                accumulated,
                public_key,
                pp,
                k,
            ) == Some(contribution),
            _ => false,
        },
        _ => false,
    }
}

/// What the response phase produced from a commitment.
spec fn respond_made(c: Commitment, w: WitnessModel, p: StatementProofModel, ch: Seq<u8>) -> bool {
    match (c, w, p) {
        (Commitment::Signature { protocol }, _, StatementProofModel::SignatureKnowledge { proof }) =>
            sig_gen_proof_of(protocol@, ch) == Some(proof),
        (Commitment::Membership { protocol }, _, StatementProofModel::AccumulatorMembership { proof }) =>
            mem_gen_proof_of(protocol@, ch) == Some(proof),
        (
            Commitment::NonMembership { protocol },
            _,
            StatementProofModel::AccumulatorNonMembership { proof },
        ) => nonmem_gen_proof_of(protocol@, ch) == Some(proof),
        (
            Commitment::Pedersen { blindings, t },
            WitnessModel::PedersenOpening { openings },
            StatementProofModel::PedersenOpening { t: t2, responses },
        ) => t2 == t@ && responses.len() == openings.len() && forall|j: int|
            0 <= j < responses.len() ==> #[trigger] responses[j] == schnorr_response_of(
                blindings@[j]@,
                openings[j],
                ch,
            ),
        _ => false,
    }
}

spec fn commitment_blindings(c: Commitment) -> Seq<Seq<u8>> {
    match c {
        Commitment::Pedersen { blindings, .. } => blobs_view(blindings@),
        _ => Seq::empty(),
    }
}

spec fn commitment_protocol(c: Commitment) -> Seq<u8> {
    match c {
        Commitment::Signature { protocol } => protocol@,
        Commitment::Membership { protocol } => protocol@,
        Commitment::NonMembership { protocol } => protocol@,
        _ => Seq::empty(),
    }
}

proof fn lemma_sub_proof_made(
    sp: ProofSpecModel,
    i: int,
    c: Commitment,
    s: StatementModel,
    w: WitnessModel,
    p: StatementProofModel,
    contribution: Seq<u8>,
    gb: Seq<Seq<u8>>,
    ch: Seq<u8>,
)
    requires
        commitment_fits(sp, c, s, w),
        commit_made(sp, i, c, s, contribution, gb),
        respond_made(c, w, p, ch),
    ensures
        sub_proof_made(sp, i, s, w, p, contribution, commitment_blindings(c), commitment_protocol(c), gb, ch),
{
    match (c, s, w, p) {
        (
            Commitment::Pedersen { blindings, t },
            StatementModel::PedersenOpening { bases, .. },
            WitnessModel::PedersenOpening { openings },
            StatementProofModel::PedersenOpening { responses, .. },
        ) => {
            let bl = commitment_blindings(c);
            assert forall|j: int| 0 <= j < bl.len() implies bl[j] == #[trigger] blindings@[j]@ by {}
            assert forall|j: int| 0 <= j < bl.len() implies linked_blinding(
                sp.equalities,
                gb,
                i as usize,
                j as usize,
                #[trigger] bl[j],
            ) by {
                assert(bl[j] == blindings@[j]@);
            }
            assert forall|j: int| 0 <= j < bl.len() implies #[trigger] responses[j] == schnorr_response_of(
                bl[j],
                openings[j],
                ch,
            ) by {
                assert(bl[j] == blindings@[j]@);
            }
        },
        _ => {},
    }
}

fn check_messages_complete(revealed: &Vec<(usize, Bytes)>, unrevealed: &Vec<(usize, Bytes)>, n: usize) -> (r:
    bool)
    ensures
        r == messages_complete(indexed_view(revealed@), indexed_view(unrevealed@), n),
{
    let ghost rv = indexed_view(revealed@);
    let ghost uv = indexed_view(unrevealed@);
    let mut j: usize = 0;
    while j < n
        invariant
            j <= n,
            rv == indexed_view(revealed@),
            uv == indexed_view(unrevealed@),
            forall|m: usize| #![trigger is_revealed(rv, m)] #![trigger is_revealed(uv, m)]
                m < j ==> is_revealed(rv, m) || is_revealed(uv, m),
        decreases n - j,
    {
        if !revealed_contains(revealed, j) && !revealed_contains(unrevealed, j) {
            assert(!(is_revealed(rv, j) || is_revealed(uv, j)));
            return false;
        }
        j = j + 1;
    }
    true
}

fn check_witness_complete(spec: &ProofSpec, s: &Statement, w: &Witness) -> (r: bool)
    ensures
        r == witness_complete(spec@, s@, w@),
{
    match (s, w) {
        (
            Statement::SignatureKnowledge { params, revealed, .. },
            Witness::SignatureKnowledge { unrevealed, .. },
        ) => {
            let p = match sig_params_of(spec, *params) {
                Some(p) => p,
                None => return false,
            };
            let n = match sig_message_count(p) {
                Some(n) => n,
                None => return false,
            };
            check_messages_complete(revealed, unrevealed, n)
        },
        (Statement::PedersenOpening { bases, .. }, Witness::PedersenOpening { openings }) => {
            match bases_of(spec, *bases) {
                Some(b) => b.len() == openings.len(),
                None => false,
            }
        },
        (Statement::AccumulatorMembership { .. }, Witness::AccumulatorMembership { .. }) => true,
        (Statement::AccumulatorNonMembership { .. }, Witness::AccumulatorNonMembership { witness, .. }) => {
            match nonmem_witness_d_is_zero(witness) {
                Some(z) => !z,
                None => false,
            }
        },
        _ => false,
    }
}

/// The commit phase of statement `i`: its state for the response phase and its challenge
/// contribution.
fn commit_statement(
    spec: &ProofSpec,
    i: usize,
    w: &Witness,
    group_blindings: &Vec<Bytes>,
    rng: &mut StdRng,
) -> (r: Option<(Commitment, Bytes)>)
    requires
        i < spec@.statements.len(),
        group_blindings@.len() == spec@.equalities.len(),
        witness_complete(spec@, spec@.statements[i as int], w@),
    ensures
        r matches Some((c, contribution)) ==> commitment_fits(spec@, c, spec@.statements[i as int], w@)
            && commit_made(spec@, i as int, c, spec@.statements[i as int], contribution@, blobs_view(group_blindings@)),
{
    assert(spec@.statements[i as int] == spec.statements@[i as int]@);
    match (&spec.statements[i], w) {
        (
            Statement::SignatureKnowledge { params, revealed, .. },
            Witness::SignatureKnowledge { signature, unrevealed },
        ) => {
            let p = match sig_params_of(spec, *params) {
                Some(p) => p,
                None => return None,
            };
            let count = match sig_message_count(p) {
                Some(n) => n,
                None => return None,
            };
            let choices = match message_choices(spec, i, count, revealed, unrevealed, group_blindings, rng) {
                Some(cs) => cs,
                None => return None,
            };
            let protocol = match sig_pok_init(rng, signature, p, &choices) {
                Some(pr) => pr,
                None => return None,
            };
            match sig_protocol_contribution(&protocol, revealed, p) {
                Some(contribution) => Some((Commitment::Signature { protocol }, contribution)),
                None => None,
            }
        },
        (Statement::PedersenOpening { bases, commitment }, Witness::PedersenOpening { openings }) => {
            let b = match bases_of(spec, *bases) {
                Some(b) => b,
                None => return None,
            };
            let blindings = slot_blindings(spec, i, b.len(), group_blindings, rng);
            let t = match schnorr_commit(b, &blindings) {
                Some(t) => t,
                None => return None,
            };
            let contribution = build_pedersen_contribution(b, commitment, &t);
            assert(w@ == WitnessModel::PedersenOpening { openings: crate::model::blobs_view(openings@) });
            Some((Commitment::Pedersen { blindings, t }, contribution))
        },
        (
            Statement::AccumulatorMembership { params, public_key, proving_key, accumulated },
            Witness::AccumulatorMembership { element, witness },
        ) => {
            let p = match accumulator_params_of(spec, *params) {
                Some(p) => p,
                None => return None,
            };
            let k = match proving_key_of(spec, *proving_key) {
                Some(k) => k,
                None => return None,
            };
            let blindings = slot_blindings(spec, i, 1, group_blindings, rng);
            let r = mem_pok_init(rng, element, &blindings[0], witness, public_key, p, k);
            scrub_all(blindings);
            let protocol = match r {
                Some(pr) => pr,
                None => return None,
            };
            match mem_protocol_contribution(&protocol, accumulated, public_key, p, k) {
                Some(contribution) => Some((Commitment::Membership { protocol }, contribution)),
                None => None,
            }
        },
        (
            Statement::AccumulatorNonMembership { params, public_key, proving_key, accumulated },
            Witness::AccumulatorNonMembership { element, witness },
        ) => {
            let p = match accumulator_params_of(spec, *params) {
                Some(p) => p,
                None => return None,
            };
            let k = match non_membership_key_of(spec, *proving_key) {
                Some(k) => k,
                None => return None,
            };
            let blindings = slot_blindings(spec, i, 1, group_blindings, rng);
            let r = nonmem_pok_init(rng, element, &blindings[0], witness, public_key, p, k);
            scrub_all(blindings);
            let protocol = match r {
                Some(pr) => pr,
                None => return None,
            };
            match nonmem_protocol_contribution(&protocol, accumulated, public_key, p, k) {
                Some(contribution) => Some((Commitment::NonMembership { protocol }, contribution)),
                None => None,
            }
        },
        _ => None,
    }
}

/// The response phase of one statement.
fn respond(c: &Commitment, w: &Witness, challenge: &Bytes) -> (r: Option<StatementProof>)
    requires
        match (*c, w@) {
            (Commitment::Signature { .. }, WitnessModel::SignatureKnowledge { .. }) => true,
            (Commitment::Membership { .. }, WitnessModel::AccumulatorMembership { .. }) => true,
            (Commitment::NonMembership { .. }, WitnessModel::AccumulatorNonMembership { .. }) => true,
            (Commitment::Pedersen { blindings, .. }, WitnessModel::PedersenOpening { openings }) =>
                blindings@.len() == openings.len(),
            _ => false,
        },
    ensures
        r matches Some(p) ==> respond_made(*c, w@, p@, challenge@),
{
    match (c, w) {
        (Commitment::Signature { protocol }, _) => match sig_pok_gen_proof(protocol, challenge) {
            Some(proof) => Some(StatementProof::SignatureKnowledge { proof }),
            None => None,
        },
        (Commitment::Membership { protocol }, _) => match mem_gen_proof(protocol, challenge) {
            Some(proof) => Some(StatementProof::AccumulatorMembership { proof }),
            None => None,
        },
        (Commitment::NonMembership { protocol }, _) => match nonmem_gen_proof(protocol, challenge) {
            Some(proof) => Some(StatementProof::AccumulatorNonMembership { proof }),
            None => None,
        },
        (Commitment::Pedersen { blindings, t }, Witness::PedersenOpening { openings }) => {
            assert(w@ == WitnessModel::PedersenOpening { openings: crate::model::blobs_view(openings@) });
            match schnorr_respond(blindings, openings, challenge) {
                Some(responses) => {
                    let p = StatementProof::PedersenOpening { t: copy_bytes(t), responses };
                    assert forall|j: int| 0 <= j < responses@.len() implies #[trigger] blobs_view(
                        responses@,
                    )[j] == schnorr_response_of(blindings@[j]@, blobs_view(openings@)[j], challenge@) by {
                        assert(blobs_view(openings@)[j] == openings@[j]@);
                        assert(blobs_view(responses@)[j] == responses@[j]@);
                    }
                    Some(p)
                },
                None => None,
            }
        },
        _ => None,
    }
}

fn scrub_commitments(commitments: Vec<Commitment>) {
    let mut cs = commitments;
    while cs.len() > 0
        decreases cs@.len(),
    {
        match cs.pop() {
            Some(Commitment::Signature { protocol }) => {
                let mut protocol = protocol;
                scrub(&mut protocol);
            },
            Some(Commitment::Pedersen { blindings, .. }) => scrub_all(blindings),
            Some(Commitment::Membership { protocol }) => {
                let mut protocol = protocol;
                scrub(&mut protocol);
            },
            Some(Commitment::NonMembership { protocol }) => {
                let mut protocol = protocol;
                scrub(&mut protocol);
            },
            None => {},
        }
    }
}

fn scrub_all(secrets: Vec<Bytes>) {
    let mut secrets = secrets;
    while secrets.len() > 0
        decreases secrets@.len(),
    {
        match secrets.pop() {
            Some(s) => {
                let mut s = s;
                scrub(&mut s);
            },
            None => {},
        }
    }
}

fn scrub_indexed(secrets: Vec<(usize, Bytes)>) {
    let mut secrets = secrets;
    while secrets.len() > 0
        decreases secrets@.len(),
    {
        match secrets.pop() {
            Some((_, s)) => {
                let mut s = s;
                scrub(&mut s);
            },
            None => {},
        }
    }
}

/// Overwrites every secret that the witness table holds.
fn scrub_witnesses(witnesses: Vec<Witness>) {
    let mut ws = witnesses;
    while ws.len() > 0
        decreases ws@.len(),
    {
        match ws.pop() {
            Some(Witness::SignatureKnowledge { signature, unrevealed }) => {
                let mut signature = signature;
                scrub(&mut signature);
                scrub_indexed(unrevealed);
            },
            Some(Witness::PedersenOpening { openings }) => scrub_all(openings),
            Some(Witness::AccumulatorMembership { element, witness }) => {
                let mut element = element;
                scrub(&mut element);
                let mut witness = witness;
                scrub(&mut witness);
            },
            Some(Witness::AccumulatorNonMembership { element, witness }) => {
                let mut element = element;
                scrub(&mut element);
                let mut witness = witness;
                scrub(&mut witness);
            },
            None => {},
        }
    }
}

// ---------------------------------------------------------------------------
// The orchestrator
// ---------------------------------------------------------------------------

/// Proves every statement of `spec` with the witness at its position, under one challenge
/// derived from all commitments, the context and the nonce. The witnesses and all blindings
/// are scrubbed before it returns.
pub fn prove(
    spec: &ProofSpec,
    witnesses: Vec<Witness>,
    nonce: &Option<Bytes>,
    rng: &mut StdRng,
) -> (r: Result<Proof, ProofError>)
    ensures
        proving_outcome(spec@, witnesses_view(witnesses@), opt_bytes_view(*nonce), r),
{
    let ghost sp = spec@;
    let ghost ws = witnesses_view(witnesses@);
    let n = spec.statements.len();
    if witnesses.len() != n {
        scrub_witnesses(witnesses);
        return Err(ProofError::WitnessCountMismatch);
    }
    if !validate_spec(spec) || !check_witness_kinds(spec, &witnesses) {
        scrub_witnesses(witnesses);
        return Err(ProofError::MalformedSpec);
    }

    // The library's own checks on every witness, before any outside call.
    let mut i: usize = 0;
    while i < n
        invariant
            n == sp.statements.len(),
            sp == spec@,
            ws == witnesses_view(witnesses@),
            witnesses@.len() == n,
            spec_wf(sp),
            witnesses_fit(sp, ws),
            i <= n,
            forall|m: int| 0 <= m < i ==> #[trigger] witness_complete(sp, sp.statements[m], ws[m]),
        decreases n - i,
    {
        assert(sp.statements[i as int] == spec.statements@[i as int]@);
        assert(ws[i as int] == witnesses@[i as int]@);
        if !check_witness_complete(spec, &spec.statements[i], &witnesses[i]) {
            proof {
                assert forall|i2: int|
                    0 <= i2 < n && !#[trigger] witness_complete(sp, sp.statements[i2], ws[i2]) && (forall|k: int|
                        0 <= k < i2 ==> witness_complete(sp, sp.statements[k], ws[k])) implies i2 == i by {
                    if i2 > i {
                        assert(witness_complete(sp, sp.statements[i as int], ws[i as int]));
                    }
                }
            }
            scrub_witnesses(witnesses);
            return Err(ProofError::StatementProvingError { index: i });
        }
        i = i + 1;
    }

    let group_blindings = draw_group_blindings(spec.equalities.len(), rng);
    let ghost gb = blobs_view(group_blindings@);

    // Commit phase.
    let mut commitments: Vec<Commitment> = Vec::new();
    let mut contributions: Vec<Bytes> = Vec::new();
    i = 0;
    while i < n
        invariant
            n == sp.statements.len(),
            sp == spec@,
            ws == witnesses_view(witnesses@),
            witnesses@.len() == n,
            spec_wf(sp),
            witnesses_fit(sp, ws),
            forall|m: int| 0 <= m < n ==> #[trigger] witness_complete(sp, sp.statements[m], ws[m]),
            i <= n,
            commitments@.len() == i,
            contributions@.len() == i,
            group_blindings@.len() == sp.equalities.len(),
            gb == blobs_view(group_blindings@),
            forall|m: int| 0 <= m < i ==> commitment_fits(sp, #[trigger] commitments@[m], sp.statements[m], witnesses@[m]@),
            forall|m: int| 0 <= m < i ==> commit_made(sp, m, #[trigger] commitments@[m], sp.statements[m], contributions@[m]@, gb),
        decreases n - i,
    {
        assert(ws[i as int] == witnesses@[i as int]@);
        assert(witness_complete(sp, sp.statements[i as int], ws[i as int]));
        match commit_statement(spec, i, &witnesses[i], &group_blindings, rng) {
            Some((c, contribution)) => {
                commitments.push(c);
                contributions.push(contribution);
            },
            None => {
                scrub_all(group_blindings);
                scrub_witnesses(witnesses);
                return Err(ProofError::StatementProvingError { index: i });
            },
        }
        i = i + 1;
    }
    scrub_all(group_blindings);

    // The one challenge shared by every statement.
    let input = build_transcript(&contributions, &spec.context, nonce);
    let c = challenge(&input);
    let ghost cs = blobs_view(contributions@);
    assert(sp.context == opt_bytes_view(spec.context));
    assert(c@ == challenge_of(transcript(cs, sp.context, opt_bytes_view(*nonce))));

    // Response phase, in statement order.
    let mut proofs: Vec<StatementProof> = Vec::new();
    i = 0;
    while i < n
        invariant
            n == sp.statements.len(),
            sp == spec@,
            ws == witnesses_view(witnesses@),
            witnesses@.len() == n,
            spec_wf(sp),
            witnesses_fit(sp, ws),
            forall|m: int| 0 <= m < n ==> #[trigger] witness_complete(sp, sp.statements[m], ws[m]),
            commitments@.len() == n,
            i <= n,
            proofs@.len() == i,
            forall|m: int| 0 <= m < n ==> commitment_fits(sp, #[trigger] commitments@[m], sp.statements[m], witnesses@[m]@),
            forall|m: int| 0 <= m < i ==> proof_fits(sp, sp.statements[m], #[trigger] proofs@[m]@),
            forall|m: int| 0 <= m < i ==> respond_made(commitments@[m], witnesses@[m]@, #[trigger] proofs@[m]@, c@),
        decreases n - i,
    {
        let ghost cm = commitments@[i as int];
        assert(commitment_fits(sp, cm, sp.statements[i as int], witnesses@[i as int]@));
        match respond(&commitments[i], &witnesses[i], &c) {
            Some(p) => proofs.push(p),
            None => {
                scrub_commitments(commitments);
                scrub_witnesses(witnesses);
                return Err(ProofError::StatementProvingError { index: i });
            },
        }
        i = i + 1;
    }
    let proof = Proof { statement_proofs: proofs };
    proof {
        let bl = Seq::new(n as nat, |m: int| commitment_blindings(commitments@[m]));
        let pr = Seq::new(n as nat, |m: int| commitment_protocol(commitments@[m]));
        assert forall|m: int| 0 <= m < n implies sub_proof_made(
            sp,
            m,
            sp.statements[m],
            ws[m],
            #[trigger] proof@[m],
            cs[m],
            bl[m],
            pr[m],
            gb,
            challenge_of(transcript(cs, sp.context, opt_bytes_view(*nonce))),
        ) by {
            assert(proof@[m] == proofs@[m]@);
            assert(ws[m] == witnesses@[m]@);
            assert(cs[m] == contributions@[m]@);
            lemma_sub_proof_made(sp, m, commitments@[m], sp.statements[m], ws[m], proof@[m], cs[m], gb, c@);
        }
        assert(proof_made(sp, ws, opt_bytes_view(*nonce), proof@, cs, bl, pr, gb));
        assert forall|m: int| 0 <= m < n implies proof_fits(sp, sp.statements[m], #[trigger] proof@[m]) by {
            assert(proof@[m] == proofs@[m]@);
        }
    }
    scrub_commitments(commitments);
    scrub_witnesses(witnesses);
    Ok(proof)
}

} // verus!
