//! The capability providers on BLS12-381: the Schnorr proof of a Pedersen opening
//! (schnorr_pok), randomness (arkworks), the challenge hash (dock_crypto_utils with BLAKE2b),
//! the BBS+ proof of knowledge of a signature (bbs_plus) and the accumulator (non-)membership
//! proofs (vb_accumulator). Every value crosses this boundary as a canonical compressed
//! encoding; a value that does not decode makes the operation yield nothing.
use vstd::prelude::*;

use crate::model::{blobs_view, indexed_view, opt_bytes_view, Bytes};
use ark_bls12_381::{Bls12_381, Fr, G1Affine};
use ark_serialize::{CanonicalDeserialize, CanonicalSerialize};
use ark_std::rand::rngs::StdRng;
use ark_std::{UniformRand, Zero};
use bbs_plus::prelude::{
    PoKOfSignatureG1Proof, PoKOfSignatureG1Protocol, PublicKeyG2, SignatureG1, SignatureParamsG1,
};
use blake2::Blake2b512;
use schnorr_pok::{SchnorrCommitment, SchnorrResponse};
use dock_crypto_utils::hashing_utils::field_elem_from_try_and_incr;
use dock_crypto_utils::signature::MessageOrBlinding;
use std::collections::{BTreeMap, BTreeSet};
use vb_accumulator::prelude::{
    MembershipProof, MembershipProofProtocol, MembershipProvingKey, MembershipWitness,
    NonMembershipProof, NonMembershipProofProtocol, NonMembershipProvingKey, NonMembershipWitness,
    PublicKey, SetupParams,
};

verus! {

/// The source of randomness threaded through the commit phase.
#[verifier::external_type_specification]
#[verifier::external_body]
pub struct ExStdRng(StdRng);

/// One message of a signature as it enters the proof of knowledge: revealed when the
/// blinding is `None`, otherwise hidden behind the given blinding.
pub type MessageChoice = (Bytes, Option<Bytes>);

// ---------------------------------------------------------------------------
// Names of the providers' results
// ---------------------------------------------------------------------------

/// The encoding of the Schnorr commitment `sum_i blindings[i] * bases[i]` in G1, if every
/// encoding decodes.
pub uninterp spec fn schnorr_t_of(bases: Seq<Seq<u8>>, blindings: Seq<Seq<u8>>) -> Option<Seq<u8>>;

/// The encoding of the Schnorr response `blinding + witness * challenge`.
pub uninterp spec fn schnorr_response_of(blinding: Seq<u8>, witness: Seq<u8>, challenge: Seq<u8>) -> Seq<u8>;

/// Whether `sum_i responses[i] * bases[i] - challenge * y == t` in G1, every encoding decoding
/// and the responses being as many as the bases.
pub uninterp spec fn schnorr_valid(
    bases: Seq<Seq<u8>>,
    y: Seq<u8>,
    t: Seq<u8>,
    responses: Seq<Seq<u8>>,
    challenge: Seq<u8>,
) -> bool;

/// The encoding of the scalar that the challenge hash gives for `transcript`.
pub uninterp spec fn challenge_of(transcript: Seq<u8>) -> Seq<u8>;

/// The number of messages that the BBS+ parameters `params` support, if they decode.
pub uninterp spec fn sig_message_count_of(params: Seq<u8>) -> Option<usize>;

/// The challenge contribution of the commit phase of a BBS+ proof of knowledge.
pub uninterp spec fn sig_protocol_contribution_of(
    protocol: Seq<u8>,
    revealed: Seq<(usize, Seq<u8>)>,
    params: Seq<u8>,
) -> Option<Seq<u8>>;

/// The BBS+ proof of knowledge that the response phase gives for a challenge.
pub uninterp spec fn sig_gen_proof_of(protocol: Seq<u8>, challenge: Seq<u8>) -> Option<Seq<u8>>;

/// The bases `h_0` and `h_1 .. h_n` of BBS+ parameters, if they decode.
pub uninterp spec fn sig_params_bases_of(params: Seq<u8>) -> Option<(Seq<u8>, Seq<Seq<u8>>)>;

/// The challenge contribution of a BBS+ proof of knowledge, if everything decodes.
pub uninterp spec fn sig_proof_contribution_of(
    proof: Seq<u8>,
    revealed: Seq<(usize, Seq<u8>)>,
    params: Seq<u8>,
) -> Option<Seq<u8>>;

/// Whether a BBS+ proof of knowledge verifies for the challenge, public key and parameters.
pub uninterp spec fn sig_proof_valid(
    proof: Seq<u8>,
    revealed: Seq<(usize, Seq<u8>)>,
    challenge: Seq<u8>,
    public_key: Seq<u8>,
    params: Seq<u8>,
) -> bool;

/// The response that a BBS+ proof of knowledge holds for a hidden message.
pub uninterp spec fn sig_response_of(proof: Seq<u8>, message: usize, revealed: Seq<usize>) -> Option<
    Seq<u8>,
>;

// ---------------------------------------------------------------------------
// The Schnorr proof of a Pedersen opening, randomness, the challenge hash
// ---------------------------------------------------------------------------

/// Relies on schnorr_pok's `SchnorrCommitment::new` in G1 of BLS12-381: step 1 of the
/// Schnorr protocol for a Pedersen opening.
#[verifier::external_body]
pub(crate) fn schnorr_commit(bases: &Vec<Bytes>, blindings: &Vec<Bytes>) -> (r: Option<Bytes>)
    ensures
        opt_bytes_view(r) == schnorr_t_of(blobs_view(bases@), blobs_view(blindings@)),
{
    let mut b: Vec<G1Affine> = Vec::new();
    for x in bases.iter() {
        b.push(G1Affine::deserialize_compressed(&x[..]).ok()?);
    }
    let mut s: Vec<Fr> = Vec::new();
    for x in blindings.iter() {
        s.push(Fr::deserialize_compressed(&x[..]).ok()?);
    }
    let mut out = Vec::new();
    SchnorrCommitment::new(&b, s).t.serialize_compressed(&mut out).ok()?;
    Some(out)
}

/// Relies on schnorr_pok's `SchnorrCommitment::response`: one response per witness, each
/// `blinding + witness * challenge`; it fails when the counts differ. The responses do not
/// depend on the bases, and `SchnorrCommitment::new` ignores blindings without a base.
#[verifier::external_body]
pub(crate) fn schnorr_respond(blindings: &Vec<Bytes>, witnesses: &Vec<Bytes>, challenge: &Bytes) -> (r:
    Option<Vec<Bytes>>)
    ensures
        blindings@.len() != witnesses@.len() ==> r is None,
        r matches Some(rs) ==> rs@.len() == witnesses@.len() && forall|j: int|
            0 <= j < rs@.len() ==> #[trigger] rs@[j]@ == schnorr_response_of(blindings@[j]@, witnesses@[j]@, challenge@),
{
    let de = |v: &Vec<Bytes>| v.iter().map(|x| Fr::deserialize_compressed(&x[..]).ok()).collect::<Option<Vec<Fr>>>();
    let (s, w, c) = (de(blindings)?, de(witnesses)?, Fr::deserialize_compressed(&challenge[..]).ok()?);
    let resp = SchnorrCommitment::<G1Affine>::new(&[], s).response(&w, &c).ok()?;
    let mut out = Vec::new();
    for x in resp.0.iter() {
        let mut o = Vec::new();
        x.serialize_compressed(&mut o).ok()?;
        out.push(o);
    }
    Some(out)
}

/// Relies on schnorr_pok's `SchnorrResponse::is_valid` in G1 of BLS12-381; an encoding that
/// does not decode makes the proof invalid.
#[verifier::external_body]
pub(crate) fn schnorr_verify(
    bases: &Vec<Bytes>,
    y: &Bytes,
    t: &Bytes,
    responses: &Vec<Bytes>,
    challenge: &Bytes,
) -> (r: bool)
    ensures
        r == schnorr_valid(blobs_view(bases@), y@, t@, blobs_view(responses@), challenge@),
{
    let de = |x: &Bytes| G1Affine::deserialize_compressed(&x[..]).ok();
    let b: Option<Vec<G1Affine>> = bases.iter().map(de).collect();
    let rs: Option<Vec<Fr>> = responses.iter().map(|x| Fr::deserialize_compressed(&x[..]).ok()).collect();
    let c = Fr::deserialize_compressed(&challenge[..]).ok();
    let (Some(b), Some(y), Some(t), Some(rs), Some(c)) = (b, de(y), de(t), rs, c) else { return false };
    SchnorrResponse(rs).is_valid(&b, &y, &t, &c).is_ok()
}

/// Relies on arkworks' `UniformRand` for the scalar field of BLS12-381, drawn from `rng`.
#[verifier::external_body]
pub(crate) fn random_scalar(rng: &mut StdRng) -> (r: Bytes) {
    let mut out = Vec::new();
    let _ = Fr::rand(rng).serialize_compressed(&mut out);
    out
}

/// Relies on dock_crypto_utils' `field_elem_from_try_and_incr` with BLAKE2b-512: a hash of
/// `transcript` to a scalar of BLS12-381.
#[verifier::external_body]
pub(crate) fn challenge(transcript: &Bytes) -> (r: Bytes)
    ensures
        r@ == challenge_of(transcript@),
{
    let c: Fr = field_elem_from_try_and_incr::<Fr, Blake2b512>(&transcript[..]);
    let mut out = Vec::new();
    let _ = c.serialize_compressed(&mut out);
    out
}

// ---------------------------------------------------------------------------
// BBS+ proof of knowledge of a signature
// ---------------------------------------------------------------------------

/// Relies on bbs_plus' `SignatureParamsG1::supported_message_count`.
#[verifier::external_body]
pub(crate) fn sig_message_count(params: &Bytes) -> (r: Option<usize>)
    ensures
        r == sig_message_count_of(params@),
{
    Some(SignatureParamsG1::<Bls12_381>::deserialize_compressed(&params[..]).ok()?.h.len())
}

/// Relies on bbs_plus' `SignatureParamsG1` fields `h_0` and `h`.
#[verifier::external_body]
pub(crate) fn sig_params_bases(params: &Bytes) -> (r: Option<(Bytes, Vec<Bytes>)>)
    ensures
        r matches Some((h0, h)) ==> sig_params_bases_of(params@) == Some((h0@, blobs_view(h@))),
        r is None ==> sig_params_bases_of(params@) is None,
{
    let params = SignatureParamsG1::<Bls12_381>::deserialize_compressed(&params[..]).ok()?;
    let mut h0 = Vec::new();
    params.h_0.serialize_compressed(&mut h0).ok()?;
    let mut h = Vec::new();
    for b in params.h.iter() {
        let mut out = Vec::new();
        b.serialize_compressed(&mut out).ok()?;
        h.push(out);
    }
    Some((h0, h))
}

/// Relies on bbs_plus' `PoKOfSignatureG1Protocol::init`: the commit phase of the proof of
/// knowledge of `signature`, each message revealed or blinded with its given blinding.
#[verifier::external_body]
pub(crate) fn sig_pok_init(
    rng: &mut StdRng,
    signature: &Bytes,
    params: &Bytes,
    choices: &Vec<MessageChoice>,
) -> (r: Option<Bytes>)
    ensures
        sig_message_count_of(params@) is None ==> r is None,
        sig_message_count_of(params@) matches Some(n) && choices@.len() != n ==> r is None,
{
    let mut ms = Vec::new();
    for (m, b) in choices.iter() {
        let b = b.as_ref().map(|b| Fr::deserialize_compressed(&**b)).transpose().ok()?;
        ms.push((Fr::deserialize_compressed(&**m).ok()?, b));
    }
    let mut out = Vec::new();
    PoKOfSignatureG1Protocol::<Bls12_381>::init(
        rng,
        &SignatureG1::deserialize_compressed(&**signature).ok()?,
        &SignatureParamsG1::deserialize_compressed(&**params).ok()?,
        ms.iter().map(|(m, b)| b.map_or(MessageOrBlinding::RevealMessage(m), |b| MessageOrBlinding::blind_message_with(m, b))),
    ).ok()?.serialize_compressed(&mut out).ok()?;
    Some(out)
}

/// Relies on bbs_plus' `PoKOfSignatureG1Protocol::challenge_contribution`.
#[verifier::external_body]
pub(crate) fn sig_protocol_contribution(
    protocol: &Bytes,
    revealed: &Vec<(usize, Bytes)>,
    params: &Bytes,
) -> (r: Option<Bytes>)
    ensures
        opt_bytes_view(r) == sig_protocol_contribution_of(protocol@, indexed_view(revealed@), params@),
{
    let p = PoKOfSignatureG1Protocol::<Bls12_381>::deserialize_compressed(&protocol[..]).ok()?;
    let mut msgs: BTreeMap<usize, Fr> = BTreeMap::new();
    for (i, m) in revealed.iter() {
        msgs.insert(*i, Fr::deserialize_compressed(&m[..]).ok()?);
    }
    let params = SignatureParamsG1::<Bls12_381>::deserialize_compressed(&params[..]).ok()?;
    let mut out = Vec::new();
    p.challenge_contribution(&msgs, &params, &mut out).ok()?;
    Some(out)
}

/// Relies on bbs_plus' `PoKOfSignatureG1Protocol::gen_proof`: the response phase.
#[verifier::external_body]
pub(crate) fn sig_pok_gen_proof(protocol: &Bytes, challenge: &Bytes) -> (r: Option<Bytes>)
    ensures
        opt_bytes_view(r) == sig_gen_proof_of(protocol@, challenge@),
{
    let p = PoKOfSignatureG1Protocol::<Bls12_381>::deserialize_compressed(&protocol[..]).ok()?;
    let c = Fr::deserialize_compressed(&challenge[..]).ok()?;
    let mut out = Vec::new();
    p.gen_proof(&c).ok()?.serialize_compressed(&mut out).ok()?;
    Some(out)
}

/// Relies on bbs_plus' `PoKOfSignatureG1Proof::challenge_contribution`.
#[verifier::external_body]
pub(crate) fn sig_proof_contribution(
    proof: &Bytes,
    revealed: &Vec<(usize, Bytes)>,
    params: &Bytes,
) -> (r: Option<Bytes>)
    ensures
        opt_bytes_view(r) == sig_proof_contribution_of(proof@, indexed_view(revealed@), params@),
{
    let p = PoKOfSignatureG1Proof::<Bls12_381>::deserialize_compressed(&proof[..]).ok()?;
    let mut msgs: BTreeMap<usize, Fr> = BTreeMap::new();
    for (i, m) in revealed.iter() {
        msgs.insert(*i, Fr::deserialize_compressed(&m[..]).ok()?);
    }
    let params = SignatureParamsG1::<Bls12_381>::deserialize_compressed(&params[..]).ok()?;
    let mut out = Vec::new();
    p.challenge_contribution(&msgs, &params, &mut out).ok()?;
    Some(out)
}

/// Relies on bbs_plus' `PoKOfSignatureG1Proof::verify`; an encoding that does not decode
/// makes the proof invalid. More revealed messages than the parameters support would make
/// its capacity computation underflow, so they are left out.
#[verifier::external_body]
pub(crate) fn sig_proof_verify(
    proof: &Bytes,
    revealed: &Vec<(usize, Bytes)>,
    challenge: &Bytes,
    public_key: &Bytes,
    params: &Bytes,
) -> (r: bool)
    requires
        sig_message_count_of(params@) matches Some(n) ==> revealed@.len() <= n,
    ensures
        r == sig_proof_valid(proof@, indexed_view(revealed@), challenge@, public_key@, params@),
{
    let (Ok(p), Ok(c)) = (PoKOfSignatureG1Proof::<Bls12_381>::deserialize_compressed(&proof[..]), Fr::deserialize_compressed(&challenge[..])) else { return false };
    let (Ok(pk), Ok(params)) = (PublicKeyG2::<Bls12_381>::deserialize_compressed(&public_key[..]), SignatureParamsG1::<Bls12_381>::deserialize_compressed(&params[..])) else { return false };
    let mut msgs: BTreeMap<usize, Fr> = BTreeMap::new();
    for (i, m) in revealed.iter() {
        let Ok(m) = Fr::deserialize_compressed(&m[..]) else { return false };
        msgs.insert(*i, m);
    }
    p.verify(&msgs, &c, pk, params).is_ok()
}

/// Relies on bbs_plus' `PoKOfSignatureG1Proof::get_resp_for_message`.
#[verifier::external_body]
pub(crate) fn sig_response(proof: &Bytes, message: usize, revealed: &Vec<usize>) -> (r: Option<Bytes>)
    ensures
        opt_bytes_view(r) == sig_response_of(proof@, message, revealed@),
{
    let p = PoKOfSignatureG1Proof::<Bls12_381>::deserialize_compressed(&proof[..]).ok()?;
    let ids: BTreeSet<usize> = revealed.iter().copied().collect();
    let mut out = Vec::new();
    p.get_resp_for_message(message, &ids).ok()?.serialize_compressed(&mut out).ok()?;
    Some(out)
}

// ---------------------------------------------------------------------------
// Accumulator membership
// ---------------------------------------------------------------------------

/// The challenge contribution of an accumulator membership proof, if everything decodes.
pub uninterp spec fn mem_proof_contribution_of(
    proof: Seq<u8>,
    accumulated: Seq<u8>,
    public_key: Seq<u8>,
    params: Seq<u8>,
    proving_key: Seq<u8>,
) -> Option<Seq<u8>>;

/// Whether an accumulator membership proof verifies for the challenge and public data.
pub uninterp spec fn mem_proof_valid(
    proof: Seq<u8>,
    accumulated: Seq<u8>,
    challenge: Seq<u8>,
    public_key: Seq<u8>,
    params: Seq<u8>,
    proving_key: Seq<u8>,
) -> bool;

/// The response that an accumulator membership proof holds for the member.
pub uninterp spec fn mem_response_of(proof: Seq<u8>) -> Option<Seq<u8>>;

/// Relies on vb_accumulator's `MembershipProofProtocol::init`: the commit phase of a proof
/// that `element` is in the accumulator, its blinding for the element being `blinding`.
#[verifier::external_body]
pub(crate) fn mem_pok_init(
    rng: &mut StdRng,
    element: &Bytes,
    blinding: &Bytes,
    witness: &Bytes,
    public_key: &Bytes,
    params: &Bytes,
    proving_key: &Bytes,
) -> (r: Option<Bytes>) {
    let y = Fr::deserialize_compressed(&**element).ok()?;
    let b = Fr::deserialize_compressed(&**blinding).ok()?;
    let w = MembershipWitness::<G1Affine>::deserialize_compressed(&**witness).ok()?;
    let pk = PublicKey::<Bls12_381>::deserialize_compressed(&**public_key).ok()?;
    let params = SetupParams::<Bls12_381>::deserialize_compressed(&**params).ok()?;
    let prk = MembershipProvingKey::<G1Affine>::deserialize_compressed(&**proving_key).ok()?;
    let mut out = Vec::new();
    MembershipProofProtocol::init(rng, y, Some(b), &w, &pk, &params, &prk).serialize_compressed(&mut out).ok()?;
    Some(out)
}

/// The challenge contribution of the commit phase of an accumulator membership proof.
pub uninterp spec fn mem_protocol_contribution_of(
    protocol: Seq<u8>,
    accumulated: Seq<u8>,
    public_key: Seq<u8>,
    params: Seq<u8>,
    proving_key: Seq<u8>,
) -> Option<Seq<u8>>;

/// The accumulator membership proof that the response phase gives for a challenge.
pub uninterp spec fn mem_gen_proof_of(protocol: Seq<u8>, challenge: Seq<u8>) -> Option<Seq<u8>>;

/// Relies on vb_accumulator's `MembershipProofProtocol::challenge_contribution`.
#[verifier::external_body]
pub(crate) fn mem_protocol_contribution(
    protocol: &Bytes,
    accumulated: &Bytes,
    public_key: &Bytes,
    params: &Bytes,
    proving_key: &Bytes,
) -> (r: Option<Bytes>)
    ensures
        opt_bytes_view(r) == mem_protocol_contribution_of(protocol@, accumulated@, public_key@, params@, proving_key@),
{
    let p = MembershipProofProtocol::<Bls12_381>::deserialize_compressed(&**protocol).ok()?;
    let v = G1Affine::deserialize_compressed(&**accumulated).ok()?;
    let pk = PublicKey::<Bls12_381>::deserialize_compressed(&**public_key).ok()?;
    let params = SetupParams::<Bls12_381>::deserialize_compressed(&**params).ok()?;
    let prk = MembershipProvingKey::<G1Affine>::deserialize_compressed(&**proving_key).ok()?;
    let mut out = Vec::new();
    p.challenge_contribution(&v, &pk, &params, &prk, &mut out).ok()?;
    Some(out)
}

/// Relies on vb_accumulator's `MembershipProofProtocol::gen_proof`: the response phase.
#[verifier::external_body]
pub(crate) fn mem_gen_proof(protocol: &Bytes, challenge: &Bytes) -> (r: Option<Bytes>)
    ensures
        opt_bytes_view(r) == mem_gen_proof_of(protocol@, challenge@),
{
    let p = MembershipProofProtocol::<Bls12_381>::deserialize_compressed(&**protocol).ok()?;
    let c = Fr::deserialize_compressed(&**challenge).ok()?;
    let mut out = Vec::new();
    p.gen_proof(&c).ok()?.serialize_compressed(&mut out).ok()?;
    Some(out)
}

/// Relies on vb_accumulator's `MembershipProof::challenge_contribution`.
#[verifier::external_body]
pub(crate) fn mem_proof_contribution(
    proof: &Bytes,
    accumulated: &Bytes,
    public_key: &Bytes,
    params: &Bytes,
    proving_key: &Bytes,
) -> (r: Option<Bytes>)
    ensures
        opt_bytes_view(r) == mem_proof_contribution_of(proof@, accumulated@, public_key@, params@, proving_key@),
{
    let p = MembershipProof::<Bls12_381>::deserialize_compressed(&**proof).ok()?;
    let v = G1Affine::deserialize_compressed(&**accumulated).ok()?;
    let pk = PublicKey::<Bls12_381>::deserialize_compressed(&**public_key).ok()?;
    let params = SetupParams::<Bls12_381>::deserialize_compressed(&**params).ok()?;
    let prk = MembershipProvingKey::<G1Affine>::deserialize_compressed(&**proving_key).ok()?;
    let mut out = Vec::new();
    p.challenge_contribution(&v, &pk, &params, &prk, &mut out).ok()?;
    Some(out)
}

/// Relies on vb_accumulator's `MembershipProof::verify`; an encoding that does not decode
/// makes the proof invalid.
#[verifier::external_body]
pub(crate) fn mem_proof_verify(
    proof: &Bytes,
    accumulated: &Bytes,
    challenge: &Bytes,
    public_key: &Bytes,
    params: &Bytes,
    proving_key: &Bytes,
) -> (r: bool)
    ensures
        r == mem_proof_valid(proof@, accumulated@, challenge@, public_key@, params@, proving_key@),
{
    let (Ok(p), Ok(v)) = (MembershipProof::<Bls12_381>::deserialize_compressed(&**proof), G1Affine::deserialize_compressed(&**accumulated)) else { return false };
    let Ok(c) = Fr::deserialize_compressed(&**challenge) else { return false };
    let Ok(pk) = PublicKey::<Bls12_381>::deserialize_compressed(&**public_key) else { return false };
    let Ok(params) = SetupParams::<Bls12_381>::deserialize_compressed(&**params) else { return false };
    let Ok(prk) = MembershipProvingKey::<G1Affine>::deserialize_compressed(&**proving_key) else { return false };
    p.verify(&v, &c, pk, params, &prk).is_ok()
}

/// Relies on vb_accumulator's `MembershipProof::get_schnorr_response_for_element`.
#[verifier::external_body]
pub(crate) fn mem_response(proof: &Bytes) -> (r: Option<Bytes>)
    ensures
        opt_bytes_view(r) == mem_response_of(proof@),
{
    let p = MembershipProof::<Bls12_381>::deserialize_compressed(&**proof).ok()?;
    let mut out = Vec::new();
    p.get_schnorr_response_for_element()?.serialize_compressed(&mut out).ok()?;
    Some(out)
}

// ---------------------------------------------------------------------------
// Accumulator non-membership
// ---------------------------------------------------------------------------

/// The challenge contribution of an accumulator non-membership proof, if everything decodes.
pub uninterp spec fn nonmem_proof_contribution_of(
    proof: Seq<u8>,
    accumulated: Seq<u8>,
    public_key: Seq<u8>,
    params: Seq<u8>,
    proving_key: Seq<u8>,
) -> Option<Seq<u8>>;

/// Whether an accumulator non-membership proof verifies for the challenge and public data.
pub uninterp spec fn nonmem_proof_valid(
    proof: Seq<u8>,
    accumulated: Seq<u8>,
    challenge: Seq<u8>,
    public_key: Seq<u8>,
    params: Seq<u8>,
    proving_key: Seq<u8>,
) -> bool;

/// The response that an accumulator non-membership proof holds for the non-member.
pub uninterp spec fn nonmem_response_of(proof: Seq<u8>) -> Option<Seq<u8>>;

/// Whether the `d` of a non-membership witness is zero, if the witness decodes.
pub uninterp spec fn nonmem_witness_d_is_zero_of(witness: Seq<u8>) -> Option<bool>;

/// Relies on vb_accumulator's `NonMembershipWitness` field `d` and arkworks' `Zero::is_zero`.
#[verifier::external_body]
pub(crate) fn nonmem_witness_d_is_zero(witness: &Bytes) -> (r: Option<bool>)
    ensures
        r == nonmem_witness_d_is_zero_of(witness@),
{
    Some(NonMembershipWitness::<G1Affine>::deserialize_compressed(&**witness).ok()?.d.is_zero())
}

/// Relies on vb_accumulator's `NonMembershipProofProtocol::init`: the commit phase of a proof
/// that `element` is not in the accumulator, its blinding for the element being `blinding`.
/// It inverts the witness's `d`, so a witness whose `d` is zero is left out.
#[verifier::external_body]
pub(crate) fn nonmem_pok_init(
    rng: &mut StdRng,
    element: &Bytes,
    blinding: &Bytes,
    witness: &Bytes,
    public_key: &Bytes,
    params: &Bytes,
    proving_key: &Bytes,
) -> (r: Option<Bytes>)
    requires
        nonmem_witness_d_is_zero_of(witness@) != Some(true),
{
    let y = Fr::deserialize_compressed(&**element).ok()?;
    let b = Fr::deserialize_compressed(&**blinding).ok()?;
    let w = NonMembershipWitness::<G1Affine>::deserialize_compressed(&**witness).ok()?;
    let pk = PublicKey::<Bls12_381>::deserialize_compressed(&**public_key).ok()?;
    let params = SetupParams::<Bls12_381>::deserialize_compressed(&**params).ok()?;
    let prk = NonMembershipProvingKey::<G1Affine>::deserialize_compressed(&**proving_key).ok()?;
    let mut out = Vec::new();
    NonMembershipProofProtocol::init(rng, y, Some(b), &w, &pk, &params, &prk).serialize_compressed(&mut out).ok()?;
    Some(out)
}

/// The challenge contribution of the commit phase of an accumulator non-membership proof.
pub uninterp spec fn nonmem_protocol_contribution_of(
    protocol: Seq<u8>,
    accumulated: Seq<u8>,
    public_key: Seq<u8>,
    params: Seq<u8>,
    proving_key: Seq<u8>,
) -> Option<Seq<u8>>;

/// The accumulator non-membership proof that the response phase gives for a challenge.
pub uninterp spec fn nonmem_gen_proof_of(protocol: Seq<u8>, challenge: Seq<u8>) -> Option<Seq<u8>>;

/// Relies on vb_accumulator's `NonMembershipProofProtocol::challenge_contribution`.
#[verifier::external_body]
pub(crate) fn nonmem_protocol_contribution(
    protocol: &Bytes,
    accumulated: &Bytes,
    public_key: &Bytes,
    params: &Bytes,
    proving_key: &Bytes,
) -> (r: Option<Bytes>)
    ensures
        opt_bytes_view(r) == nonmem_protocol_contribution_of(protocol@, accumulated@, public_key@, params@, proving_key@),
{
    let p = NonMembershipProofProtocol::<Bls12_381>::deserialize_compressed(&**protocol).ok()?;
    let v = G1Affine::deserialize_compressed(&**accumulated).ok()?;
    let pk = PublicKey::<Bls12_381>::deserialize_compressed(&**public_key).ok()?;
    let params = SetupParams::<Bls12_381>::deserialize_compressed(&**params).ok()?;
    let prk = NonMembershipProvingKey::<G1Affine>::deserialize_compressed(&**proving_key).ok()?;
    let mut out = Vec::new();
    p.challenge_contribution(&v, &pk, &params, &prk, &mut out).ok()?;
    Some(out)
}

/// Relies on vb_accumulator's `NonMembershipProofProtocol::gen_proof`: the response phase.
#[verifier::external_body]
pub(crate) fn nonmem_gen_proof(protocol: &Bytes, challenge: &Bytes) -> (r: Option<Bytes>)
    ensures
        opt_bytes_view(r) == nonmem_gen_proof_of(protocol@, challenge@),
{
    let p = NonMembershipProofProtocol::<Bls12_381>::deserialize_compressed(&**protocol).ok()?;
    let c = Fr::deserialize_compressed(&**challenge).ok()?;
    let mut out = Vec::new();
    p.gen_proof(&c).ok()?.serialize_compressed(&mut out).ok()?;
    Some(out)
}

/// Relies on vb_accumulator's `NonMembershipProof::challenge_contribution`.
#[verifier::external_body]
pub(crate) fn nonmem_proof_contribution(
    proof: &Bytes,
    accumulated: &Bytes,
    public_key: &Bytes,
    params: &Bytes,
    proving_key: &Bytes,
) -> (r: Option<Bytes>)
    ensures
        opt_bytes_view(r) == nonmem_proof_contribution_of(proof@, accumulated@, public_key@, params@, proving_key@),
{
    let p = NonMembershipProof::<Bls12_381>::deserialize_compressed(&**proof).ok()?;
    let v = G1Affine::deserialize_compressed(&**accumulated).ok()?;
    let pk = PublicKey::<Bls12_381>::deserialize_compressed(&**public_key).ok()?;
    let params = SetupParams::<Bls12_381>::deserialize_compressed(&**params).ok()?;
    let prk = NonMembershipProvingKey::<G1Affine>::deserialize_compressed(&**proving_key).ok()?;
    let mut out = Vec::new();
    p.challenge_contribution(&v, &pk, &params, &prk, &mut out).ok()?;
    Some(out)
}

/// Relies on vb_accumulator's `NonMembershipProof::verify`; an encoding that does not decode
/// makes the proof invalid.
#[verifier::external_body]
pub(crate) fn nonmem_proof_verify(
    proof: &Bytes,
    accumulated: &Bytes,
    challenge: &Bytes,
    public_key: &Bytes,
    params: &Bytes,
    proving_key: &Bytes,
) -> (r: bool)
    ensures
        r == nonmem_proof_valid(proof@, accumulated@, challenge@, public_key@, params@, proving_key@),
{
    let (Ok(p), Ok(v)) = (NonMembershipProof::<Bls12_381>::deserialize_compressed(&**proof), G1Affine::deserialize_compressed(&**accumulated)) else { return false };
    let Ok(c) = Fr::deserialize_compressed(&**challenge) else { return false };
    let Ok(pk) = PublicKey::<Bls12_381>::deserialize_compressed(&**public_key) else { return false };
    let Ok(params) = SetupParams::<Bls12_381>::deserialize_compressed(&**params) else { return false };
    let Ok(prk) = NonMembershipProvingKey::<G1Affine>::deserialize_compressed(&**proving_key) else { return false };
    p.verify(&v, &c, pk, params, &prk).is_ok()
}

/// Relies on vb_accumulator's `NonMembershipProof::get_schnorr_response_for_element`.
#[verifier::external_body]
pub(crate) fn nonmem_response(proof: &Bytes) -> (r: Option<Bytes>)
    ensures
        opt_bytes_view(r) == nonmem_response_of(proof@),
{
    let p = NonMembershipProof::<Bls12_381>::deserialize_compressed(&**proof).ok()?;
    let mut out = Vec::new();
    p.get_schnorr_response_for_element()?.serialize_compressed(&mut out).ok()?;
    Some(out)
}

// ---------------------------------------------------------------------------
// Scrubbing secrets
// ---------------------------------------------------------------------------

/// Relies on zeroize's `Zeroize` for `Vec<u8>`: overwrites the bytes, then clears the vector.
#[verifier::external_body]
pub(crate) fn scrub(secret: &mut Bytes)
    ensures
        final(secret)@.len() == 0,
{
    zeroize::Zeroize::zeroize(secret);
}

} // verus!
