//! The data model: statements, witnesses, setup parameters, equality groups,
//! proof specifications and proofs, with their mathematical views.
use vstd::prelude::*;

verus! {

/// A canonical compressed encoding of a group element, scalar or parameter object.
pub type Bytes = Vec<u8>;

/// Public description of one fact to be proven. Large shared parameters are not
/// embedded: a statement names them by their index in the setup parameter table.
pub enum Statement {
    /// Knowledge of a BBS+ signature (G1) under `public_key` (G2) with the signature
    /// parameters at setup index `params`; the messages listed in `revealed` are disclosed.
    SignatureKnowledge { params: usize, public_key: Bytes, revealed: Vec<(usize, Bytes)> },
    /// Knowledge of an opening of `commitment` (G1) under the bases at setup index `bases`.
    PedersenOpening { bases: usize, commitment: Bytes },
    /// Membership of a hidden element in the positive accumulator whose value is
    /// `accumulated` (G1), under the manager's `public_key` (G2), the accumulator parameters
    /// at setup index `params` and the membership proving key at setup index `proving_key`.
    AccumulatorMembership { params: usize, public_key: Bytes, proving_key: usize, accumulated: Bytes },
    /// Non-membership of a hidden element in the universal accumulator whose value is
    /// `accumulated`, with the non-membership proving key at setup index `proving_key`.
    AccumulatorNonMembership { params: usize, public_key: Bytes, proving_key: usize, accumulated: Bytes },
}

/// Secret data proving the statement at the same position of the statement table.
pub enum Witness {
    /// A BBS+ signature and the messages that stay hidden, by message index.
    SignatureKnowledge { signature: Bytes, unrevealed: Vec<(usize, Bytes)> },
    /// The opened scalars, aligned with the bases of the matching statement.
    PedersenOpening { openings: Vec<Bytes> },
    /// The accumulated element and its membership witness.
    AccumulatorMembership { element: Bytes, witness: Bytes },
    /// The absent element and its non-membership witness.
    AccumulatorNonMembership { element: Bytes, witness: Bytes },
}

/// A shared public parameter object, referenced by index from statements.
pub enum SetupParam {
    /// BBS+ signature parameters in G1.
    SignatureParams(Bytes),
    /// Bases of a Pedersen commitment in G1.
    PedersenBases(Vec<Bytes>),
    /// Accumulator setup parameters.
    AccumulatorParams(Bytes),
    /// The proving key of accumulator membership proofs.
    MembershipProvingKey(Bytes),
    /// The proving key of accumulator non-membership proofs.
    NonMembershipProvingKey(Bytes),
}

/// A set of (statement index, witness slot) references whose witness values are
/// asserted to be one and the same scalar.
pub struct EqualityGroup {
    pub refs: Vec<(usize, usize)>,
}

/// The public, shared description of what a proof proves.
pub struct ProofSpec {
    pub statements: Vec<Statement>,
    pub setup_params: Vec<SetupParam>,
    pub equalities: Vec<EqualityGroup>,
    pub context: Option<Bytes>,
}

/// The response part of one statement's sub-proof.
pub enum StatementProof {
    /// A serialized BBS+ proof of knowledge of a signature.
    SignatureKnowledge { proof: Bytes },
    /// A Schnorr proof of knowledge of a Pedersen opening: the commitment to the
    /// blindings and one response per base.
    PedersenOpening { t: Bytes, responses: Vec<Bytes> },
    /// A serialized accumulator membership proof.
    AccumulatorMembership { proof: Bytes },
    /// A serialized accumulator non-membership proof.
    AccumulatorNonMembership { proof: Bytes },
}

/// One sub-proof per statement, aligned with the statement table.
pub struct Proof {
    pub statement_proofs: Vec<StatementProof>,
}

/// Why a proof was rejected.
#[derive(Debug, PartialEq, Eq, Structural, Clone, Copy)]
pub enum FailureReason {
    /// A sub-proof is not of the kind of its statement.
    KindMismatch { index: usize },
    /// A sub-proof's challenge contribution could not be formed.
    MalformedStatementProof { index: usize },
    /// A sub-proof does not verify against the shared challenge.
    StatementCheckFailed { index: usize },
    /// The responses of an equality group do not agree.
    EqualityMismatch { group: usize },
}

/// Errors of assembly, proving and verification.
#[derive(Debug, PartialEq, Eq, Structural, Clone, Copy)]
pub enum ProofError {
    /// An index is out of range, a handle names a parameter of the wrong kind, or a
    /// witness is not of the kind of its statement.
    MalformedSpec,
    /// The witness table and the statement table differ in length.
    WitnessCountMismatch,
    /// The proof and the statement table differ in length.
    ProofShapeMismatch,
    /// The sub-protocol of one statement could not produce its part of the proof.
    StatementProvingError { index: usize },
    /// The proof was checked and rejected.
    VerificationFailed(FailureReason),
}

// ---------------------------------------------------------------------------
// Views
// ---------------------------------------------------------------------------

pub ghost enum StatementModel {
    SignatureKnowledge { params: usize, public_key: Seq<u8>, revealed: Seq<(usize, Seq<u8>)> },
    PedersenOpening { bases: usize, commitment: Seq<u8> },
    AccumulatorMembership { params: usize, public_key: Seq<u8>, proving_key: usize, accumulated: Seq<u8> },
    AccumulatorNonMembership { params: usize, public_key: Seq<u8>, proving_key: usize, accumulated: Seq<u8> },
}

pub ghost enum SetupParamModel {
    SignatureParams(Seq<u8>),
    PedersenBases(Seq<Seq<u8>>),
    AccumulatorParams(Seq<u8>),
    MembershipProvingKey(Seq<u8>),
    NonMembershipProvingKey(Seq<u8>),
}

pub ghost struct ProofSpecModel {
    pub statements: Seq<StatementModel>,
    pub setup_params: Seq<SetupParamModel>,
    pub equalities: Seq<Seq<(usize, usize)>>,
    pub context: Option<Seq<u8>>,
}

pub ghost enum WitnessModel {
    SignatureKnowledge { signature: Seq<u8>, unrevealed: Seq<(usize, Seq<u8>)> },
    PedersenOpening { openings: Seq<Seq<u8>> },
    AccumulatorMembership { element: Seq<u8>, witness: Seq<u8> },
    AccumulatorNonMembership { element: Seq<u8>, witness: Seq<u8> },
}

pub ghost enum StatementProofModel {
    SignatureKnowledge { proof: Seq<u8> },
    PedersenOpening { t: Seq<u8>, responses: Seq<Seq<u8>> },
    AccumulatorMembership { proof: Seq<u8> },
    AccumulatorNonMembership { proof: Seq<u8> },
}

impl View for Statement {
    type V = StatementModel;

    open spec fn view(&self) -> StatementModel {
        match self {
            Statement::SignatureKnowledge { params, public_key, revealed } =>
                StatementModel::SignatureKnowledge {
                    params: *params,
                    public_key: public_key@,
                    revealed: indexed_view(revealed@),
                },
            Statement::PedersenOpening { bases, commitment } =>
                StatementModel::PedersenOpening { bases: *bases, commitment: commitment@ },
            Statement::AccumulatorMembership { params, public_key, proving_key, accumulated } =>
                StatementModel::AccumulatorMembership {
                    params: *params,
                    public_key: public_key@,
                    proving_key: *proving_key,
                    accumulated: accumulated@,
                },
            Statement::AccumulatorNonMembership { params, public_key, proving_key, accumulated } =>
                StatementModel::AccumulatorNonMembership {
                    params: *params,
                    public_key: public_key@,
                    proving_key: *proving_key,
                    accumulated: accumulated@,
                },
        }
    }
}

impl View for SetupParam {
    type V = SetupParamModel;

    open spec fn view(&self) -> SetupParamModel {
        match self {
            SetupParam::SignatureParams(p) => SetupParamModel::SignatureParams(p@),
            SetupParam::PedersenBases(b) => SetupParamModel::PedersenBases(blobs_view(b@)),
            SetupParam::AccumulatorParams(p) => SetupParamModel::AccumulatorParams(p@),
            SetupParam::MembershipProvingKey(k) => SetupParamModel::MembershipProvingKey(k@),
            SetupParam::NonMembershipProvingKey(k) => SetupParamModel::NonMembershipProvingKey(k@),
        }
    }
}

impl View for EqualityGroup {
    type V = Seq<(usize, usize)>;

    open spec fn view(&self) -> Seq<(usize, usize)> {
        self.refs@
    }
}

impl View for Witness {
    type V = WitnessModel;

    open spec fn view(&self) -> WitnessModel {
        match self {
            Witness::SignatureKnowledge { signature, unrevealed } =>
                WitnessModel::SignatureKnowledge {
                    signature: signature@,
                    unrevealed: indexed_view(unrevealed@),
                },
            Witness::PedersenOpening { openings } =>
                WitnessModel::PedersenOpening { openings: blobs_view(openings@) },
            Witness::AccumulatorMembership { element, witness } =>
                WitnessModel::AccumulatorMembership { element: element@, witness: witness@ },
            Witness::AccumulatorNonMembership { element, witness } =>
                WitnessModel::AccumulatorNonMembership { element: element@, witness: witness@ },
        }
    }
}

impl View for StatementProof {
    type V = StatementProofModel;

    open spec fn view(&self) -> StatementProofModel {
        match self {
            StatementProof::SignatureKnowledge { proof } =>
                StatementProofModel::SignatureKnowledge { proof: proof@ },
            StatementProof::PedersenOpening { t, responses } =>
                StatementProofModel::PedersenOpening { t: t@, responses: blobs_view(responses@) },
            StatementProof::AccumulatorMembership { proof } =>
                StatementProofModel::AccumulatorMembership { proof: proof@ },
            StatementProof::AccumulatorNonMembership { proof } =>
                StatementProofModel::AccumulatorNonMembership { proof: proof@ },
        }
    }
}

impl View for ProofSpec {
    type V = ProofSpecModel;

    open spec fn view(&self) -> ProofSpecModel {
        ProofSpecModel {
            statements: statements_view(self.statements@),
            setup_params: params_view(self.setup_params@),
            equalities: groups_view(self.equalities@),
            context: match self.context {
                Some(c) => Some(c@),
                None => None,
            },
        }
    }
}

impl View for Proof {
    type V = Seq<StatementProofModel>;

    open spec fn view(&self) -> Seq<StatementProofModel> {
        sub_proofs_view(self.statement_proofs@)
    }
}

pub open spec fn blobs_view(v: Seq<Bytes>) -> Seq<Seq<u8>> {
    v.map_values(|b: Bytes| b@)
}

pub open spec fn indexed_view(v: Seq<(usize, Bytes)>) -> Seq<(usize, Seq<u8>)> {
    v.map_values(|p: (usize, Bytes)| (p.0, p.1@))
}

pub open spec fn pairs_view(v: Seq<(usize, usize)>) -> Seq<(usize, usize)> {
    v
}

pub open spec fn statements_view(v: Seq<Statement>) -> Seq<StatementModel> {
    v.map_values(|s: Statement| s@)
}

pub open spec fn params_view(v: Seq<SetupParam>) -> Seq<SetupParamModel> {
    v.map_values(|p: SetupParam| p@)
}

pub open spec fn groups_view(v: Seq<EqualityGroup>) -> Seq<Seq<(usize, usize)>> {
    v.map_values(|g: EqualityGroup| g@)
}

pub open spec fn sub_proofs_view(v: Seq<StatementProof>) -> Seq<StatementProofModel> {
    v.map_values(|p: StatementProof| p@)
}

pub open spec fn witnesses_view(ws: Seq<Witness>) -> Seq<WitnessModel> {
    ws.map_values(|w: Witness| w@)
}

pub open spec fn opt_bytes_view(o: Option<Bytes>) -> Option<Seq<u8>> {
    match o {
        Some(b) => Some(b@),
        None => None,
    }
}

/// Copies a byte string.
pub fn copy_bytes(b: &Bytes) -> (r: Bytes)
    ensures
        r@ == b@,
{
    let mut r: Vec<u8> = Vec::new();
    let mut i: usize = 0;
    while i < b.len()
        invariant
            i <= b@.len(),
            r@ == b@.subrange(0, i as int),
        decreases b@.len() - i,
    {
        r.push(b[i]);
        i = i + 1;
        assert(r@ =~= b@.subrange(0, i as int));
    }
    assert(r@ =~= b@);
    r
}

} // verus!
