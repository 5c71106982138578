//! Assembly of a proof specification from its tables, and the checks that make it
//! well formed: every handle names a parameter of the right kind, every equality
//! reference names an existing witness slot.
use vstd::prelude::*;

use crate::crypto::{sig_message_count, sig_message_count_of};
use crate::model::{
    groups_view, params_view, statements_view, blobs_view, indexed_view, opt_bytes_view, Bytes, EqualityGroup, ProofError, ProofSpec,
    ProofSpecModel, SetupParam, SetupParamModel, Statement, StatementModel,
};

verus! {

// ---------------------------------------------------------------------------
// Well-formedness
// ---------------------------------------------------------------------------

/// The signature parameters at setup index `h`, if that entry holds some.
pub open spec fn sig_params_at(sp: ProofSpecModel, h: usize) -> Option<Seq<u8>> {
    if h < sp.setup_params.len() {
        match sp.setup_params[h as int] {
            SetupParamModel::SignatureParams(p) => Some(p),
            _ => None,
        }
    } else {
        None
    }
}

/// The Pedersen bases at setup index `h`, if that entry holds some.
pub open spec fn bases_at(sp: ProofSpecModel, h: usize) -> Option<Seq<Seq<u8>>> {
    if h < sp.setup_params.len() {
        match sp.setup_params[h as int] {
            SetupParamModel::PedersenBases(b) => Some(b),
            _ => None,
        }
    } else {
        None
    }
}

/// The accumulator parameters at setup index `h`, if that entry holds some.
pub open spec fn accumulator_params_at(sp: ProofSpecModel, h: usize) -> Option<Seq<u8>> {
    if h < sp.setup_params.len() {
        match sp.setup_params[h as int] {
            SetupParamModel::AccumulatorParams(p) => Some(p),
            _ => None,
        }
    } else {
        None
    }
}

/// The membership proving key at setup index `h`, if that entry holds one.
pub open spec fn proving_key_at(sp: ProofSpecModel, h: usize) -> Option<Seq<u8>> {
    if h < sp.setup_params.len() {
        match sp.setup_params[h as int] {
            SetupParamModel::MembershipProvingKey(k) => Some(k),
            _ => None,
        }
    } else {
        None
    }
}

/// The non-membership proving key at setup index `h`, if that entry holds one.
pub open spec fn non_membership_key_at(sp: ProofSpecModel, h: usize) -> Option<Seq<u8>> {
    if h < sp.setup_params.len() {
        match sp.setup_params[h as int] {
            SetupParamModel::NonMembershipProvingKey(k) => Some(k),
            _ => None,
        }
    } else {
        None
    }
}

pub open spec fn indices_increasing(revealed: Seq<(usize, Seq<u8>)>) -> bool {
    forall|k: int| 0 <= k < revealed.len() - 1 ==> #[trigger] revealed[k].0 < revealed[k + 1].0
}

proof fn lemma_increasing_from(revealed: Seq<(usize, Seq<u8>)>, k: int)
    requires
        indices_increasing(revealed),
        0 <= k < revealed.len(),
    ensures
        revealed[k].0 >= k,
    decreases k,
{
    if k > 0 {
        lemma_increasing_from(revealed, k - 1);
        assert(revealed[k - 1].0 < revealed[k].0);
    }
}

/// Strictly increasing indices below `n` are at most `n`.
pub proof fn lemma_increasing_bounded(revealed: Seq<(usize, Seq<u8>)>, n: usize)
    requires
        indices_increasing(revealed),
        forall|k: int| 0 <= k < revealed.len() ==> #[trigger] revealed[k].0 < n,
    ensures
        revealed.len() <= n,
{
    if revealed.len() > n {
        lemma_increasing_from(revealed, n as int);
    }
}

pub open spec fn is_revealed(revealed: Seq<(usize, Seq<u8>)>, j: usize) -> bool {
    exists|k: int| 0 <= k < revealed.len() && #[trigger] revealed[k].0 == j
}

/// The number of witness slots of a statement: the messages of a signature, the bases of
/// a Pedersen commitment, the one element of an accumulator statement.
pub open spec fn slot_count(sp: ProofSpecModel, s: StatementModel) -> Option<usize> {
    match s {
        StatementModel::SignatureKnowledge { params, .. } => match sig_params_at(sp, params) {
            Some(p) => sig_message_count_of(p),
            None => None,
        },
        StatementModel::PedersenOpening { bases, .. } => match bases_at(sp, bases) {
            Some(b) => Some(b.len() as usize),
            None => None,
        },
        StatementModel::AccumulatorMembership { params, proving_key, .. } => if accumulator_params_at(
            sp,
            params,
        ) is Some && proving_key_at(sp, proving_key) is Some {
            Some(1)
        } else {
            None
        },
        StatementModel::AccumulatorNonMembership { params, proving_key, .. } => if accumulator_params_at(
            sp,
            params,
        ) is Some && non_membership_key_at(sp, proving_key) is Some {
            Some(1)
        } else {
            None
        },
    }
}

pub open spec fn statement_wf(sp: ProofSpecModel, s: StatementModel) -> bool {
    match slot_count(sp, s) {
        Some(n) => match s {
            StatementModel::SignatureKnowledge { revealed, .. } => indices_increasing(revealed)
                && forall|k: int| 0 <= k < revealed.len() ==> #[trigger] revealed[k].0 < n,
            _ => true,
        },
        None => false,
    }
}

/// Slot `j` of statement `i` exists and holds a hidden value.
pub open spec fn slot_exists(sp: ProofSpecModel, i: usize, j: usize) -> bool {
    &&& i < sp.statements.len()
    &&& slot_count(sp, sp.statements[i as int]) matches Some(n)
    &&& j < n
    &&& (sp.statements[i as int] matches StatementModel::SignatureKnowledge { revealed, .. }
        ==> !is_revealed(revealed, j))
}

pub open spec fn group_wf(sp: ProofSpecModel, g: Seq<(usize, usize)>) -> bool {
    forall|k: int| 0 <= k < g.len() ==> slot_exists(sp, #[trigger] g[k].0, g[k].1)
}

pub open spec fn spec_wf(sp: ProofSpecModel) -> bool {
    &&& forall|i: int| 0 <= i < sp.statements.len() ==> statement_wf(sp, #[trigger] sp.statements[i])
    &&& forall|g: int| 0 <= g < sp.equalities.len() ==> group_wf(sp, #[trigger] sp.equalities[g])
}

// ---------------------------------------------------------------------------
// Checks
// ---------------------------------------------------------------------------

pub(crate) fn sig_params_of<'a>(spec: &'a ProofSpec, h: usize) -> (r: Option<&'a Bytes>)
    ensures
        r matches Some(p) ==> sig_params_at(spec@, h) == Some(p@),
        r is None ==> sig_params_at(spec@, h) is None,
{
    if h < spec.setup_params.len() {
        match &spec.setup_params[h] {
            SetupParam::SignatureParams(p) => Some(p),
            _ => None,
        }
    } else {
        None
    }
}

pub(crate) fn accumulator_params_of<'a>(spec: &'a ProofSpec, h: usize) -> (r: Option<&'a Bytes>)
    ensures
        r matches Some(p) ==> accumulator_params_at(spec@, h) == Some(p@),
        r is None ==> accumulator_params_at(spec@, h) is None,
{
    if h < spec.setup_params.len() {
        match &spec.setup_params[h] {
            SetupParam::AccumulatorParams(p) => Some(p),
            _ => None,
        }
    } else {
        None
    }
}

pub(crate) fn proving_key_of<'a>(spec: &'a ProofSpec, h: usize) -> (r: Option<&'a Bytes>)
    ensures
        r matches Some(k) ==> proving_key_at(spec@, h) == Some(k@),
        r is None ==> proving_key_at(spec@, h) is None,
{
    if h < spec.setup_params.len() {
        match &spec.setup_params[h] {
            SetupParam::MembershipProvingKey(k) => Some(k),
            _ => None,
        }
    } else {
        None
    }
}

pub(crate) fn non_membership_key_of<'a>(spec: &'a ProofSpec, h: usize) -> (r: Option<&'a Bytes>)
    ensures
        r matches Some(k) ==> non_membership_key_at(spec@, h) == Some(k@),
        r is None ==> non_membership_key_at(spec@, h) is None,
{
    if h < spec.setup_params.len() {
        match &spec.setup_params[h] {
            SetupParam::NonMembershipProvingKey(k) => Some(k),
            _ => None,
        }
    } else {
        None
    }
}

pub(crate) fn bases_of<'a>(spec: &'a ProofSpec, h: usize) -> (r: Option<&'a Vec<Bytes>>)
    ensures
        r matches Some(b) ==> bases_at(spec@, h) == Some(blobs_view(b@)),
        r is None ==> bases_at(spec@, h) is None,
{
    if h < spec.setup_params.len() {
        match &spec.setup_params[h] {
            SetupParam::PedersenBases(b) => Some(b),
            _ => None,
        }
    } else {
        None
    }
}

fn statement_slot_count(spec: &ProofSpec, s: &Statement) -> (r: Option<usize>)
    ensures
        r == slot_count(spec@, s@),
{
    match s {
        Statement::SignatureKnowledge { params, .. } => match sig_params_of(spec, *params) {
            Some(p) => sig_message_count(p),
            None => None,
        },
        Statement::PedersenOpening { bases, .. } => match bases_of(spec, *bases) {
            Some(b) => Some(b.len()),
            None => None,
        },
        Statement::AccumulatorMembership { params, proving_key, .. } => {
            if accumulator_params_of(spec, *params).is_some() && proving_key_of(spec, *proving_key).is_some() {
                Some(1)
            } else {
                None
            }
        },
        Statement::AccumulatorNonMembership { params, proving_key, .. } => {
            if accumulator_params_of(spec, *params).is_some() && non_membership_key_of(spec, *proving_key).is_some() {
                Some(1)
            } else {
                None
            }
        },
    }
}

pub(crate) fn revealed_contains(revealed: &Vec<(usize, Bytes)>, j: usize) -> (r: bool)
    ensures
        r == is_revealed(indexed_view(revealed@), j),
{
    let mut k: usize = 0;
    while k < revealed.len()
        invariant
            k <= revealed@.len(),
            forall|m: int| 0 <= m < k ==> #[trigger] revealed@[m].0 != j,
        decreases revealed@.len() - k,
    {
        if revealed[k].0 == j {
            assert(indexed_view(revealed@)[k as int].0 == j);
            return true;
        }
        k = k + 1;
    }
    assert forall|m: int| 0 <= m < revealed@.len() implies #[trigger] indexed_view(revealed@)[m].0
        != j by {
        assert(revealed@[m].0 != j);
    }
    false
}

fn check_statement(spec: &ProofSpec, s: &Statement) -> (r: bool)
    ensures
        r == statement_wf(spec@, s@),
{
    match statement_slot_count(spec, s) {
        None => false,
        Some(n) => match s {
            Statement::SignatureKnowledge { revealed, .. } => {
                let ghost rv = indexed_view(revealed@);
                let mut k: usize = 0;
                while k < revealed.len()
                    invariant
                        k <= revealed@.len(),
                        rv == indexed_view(revealed@),
                        slot_count(spec@, s@) == Some(n),
                        s@ matches StatementModel::SignatureKnowledge { revealed: r2, .. } && r2 == rv,
                        forall|m: int| 0 <= m < k ==> #[trigger] rv[m].0 < n,
                        forall|m: int| 0 <= m < k - 1 ==> #[trigger] rv[m].0 < rv[m + 1].0,
                    decreases revealed@.len() - k,
                {
                    assert(rv[k as int].0 == revealed@[k as int].0);
                    if revealed[k].0 >= n {
                        return false;
                    }
                    if k > 0 && revealed[k - 1].0 >= revealed[k].0 {
                        assert(rv[k - 1].0 == revealed@[k - 1].0);
                        assert(rv[(k - 1) as int].0 >= rv[(k - 1) + 1].0);
                        return false;
                    }
                    k = k + 1;
                }
                true
            },
            _ => true,
        },
    }
}

fn check_slot(spec: &ProofSpec, i: usize, j: usize) -> (r: bool)
    ensures
        r == slot_exists(spec@, i, j),
{
    if i >= spec.statements.len() {
        return false;
    }
    let s = &spec.statements[i];
    match statement_slot_count(spec, s) {
        None => false,
        Some(n) => {
            if j >= n {
                return false;
            }
            match s {
                Statement::SignatureKnowledge { revealed, .. } => !revealed_contains(revealed, j),
                _ => true,
            }
        },
    }
}

/// Whether every statement and every equality reference of `spec` is well formed.
pub fn validate_spec(spec: &ProofSpec) -> (r: bool)
    ensures
        r == spec_wf(spec@),
{
    let mut i: usize = 0;
    while i < spec.statements.len()
        invariant
            i <= spec.statements@.len(),
            forall|m: int| 0 <= m < i ==> statement_wf(spec@, #[trigger] spec@.statements[m]),
        decreases spec.statements@.len() - i,
    {
        assert(spec@.statements[i as int] == spec.statements@[i as int]@);
        if !check_statement(spec, &spec.statements[i]) {
            return false;
        }
        i = i + 1;
    }
    assert(forall|m: int| 0 <= m < spec@.statements.len() ==> statement_wf(spec@, #[trigger] spec@.statements[m]));
    let mut g: usize = 0;
    while g < spec.equalities.len()
        invariant
            g <= spec.equalities@.len(),
            forall|m: int| 0 <= m < spec@.statements.len() ==> statement_wf(spec@, #[trigger] spec@.statements[m]),
            forall|m: int| 0 <= m < g ==> group_wf(spec@, #[trigger] spec@.equalities[m]),
        decreases spec.equalities@.len() - g,
    {
        let refs = &spec.equalities[g].refs;
        let mut k: usize = 0;
        while k < refs.len()
            invariant
                k <= refs@.len(),
                g < spec@.equalities.len(),
                refs@ == spec@.equalities[g as int],
                forall|m: int| 0 <= m < k ==> slot_exists(spec@, #[trigger] refs@[m].0, refs@[m].1),
            decreases refs@.len() - k,
        {
            if !check_slot(spec, refs[k].0, refs[k].1) {
                assert(!group_wf(spec@, spec@.equalities[g as int]));
                return false;
            }
            k = k + 1;
        }
        assert(group_wf(spec@, spec@.equalities[g as int]));
        g = g + 1;
    }
    true
}

/// Assembles a proof specification, rejecting it with `MalformedSpec` unless it is well formed.
pub fn generate_proof_spec_g1(
    statements: Vec<Statement>,
    setup_params: Vec<SetupParam>,
    equalities: Vec<EqualityGroup>,
    context: Option<Bytes>,
) -> (r: Result<ProofSpec, ProofError>)
    ensures
        ({
            let model = ProofSpecModel {
                statements: statements_view(statements@),
                setup_params: params_view(setup_params@),
                equalities: groups_view(equalities@),
                context: opt_bytes_view(context),
            };
            match r {
                Ok(spec) => spec@ == model && spec_wf(model),
                Err(e) => e == ProofError::MalformedSpec && !spec_wf(model),
            }
        }),
{
    let spec = ProofSpec { statements, setup_params, equalities, context };
    if validate_spec(&spec) {
        Ok(spec)
    } else {
        Err(ProofError::MalformedSpec)
    }
}

} // verus!
