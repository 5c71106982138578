//! The BBS+ proof of knowledge of a signature on its own: its commit phase with chosen
//! blindings, its challenge contributions, its response phase and its verification.
use vstd::prelude::*;

use crate::crypto::{
    random_scalar, sig_gen_proof_of, sig_message_count, sig_message_count_of, sig_params_bases,
    sig_params_bases_of, sig_pok_gen_proof, sig_pok_init, sig_proof_contribution,
    sig_proof_contribution_of, sig_proof_valid, sig_proof_verify, sig_protocol_contribution,
    sig_protocol_contribution_of, MessageChoice,
};
use crate::model::{blobs_view, copy_bytes, indexed_view, opt_bytes_view, Bytes};
use ark_std::rand::rngs::StdRng;

verus! {

/// The number of messages that BBS+ parameters support.
pub fn bbs_plus_params_g1_max_supported_msgs(params: &Bytes) -> (r: Option<usize>)
    ensures
        r == sig_message_count_of(params@),
{
    sig_message_count(params)
}

/// The bases for a commitment to chosen messages: `h_0`, then `h_i` for each index.
pub open spec fn commitment_bases(h0: Seq<u8>, h: Seq<Seq<u8>>, indices: Seq<usize>) -> Seq<Seq<u8>> {
    seq![h0] + indices.map_values(|i: usize| h[i as int])
}

/// The bases for committing to the messages at `indices_to_commit`; `None` when the
/// parameters do not decode or an index is not below their message count.
pub fn bbs_plus_get_bases_for_commitment_g1(params: &Bytes, indices_to_commit: &Vec<usize>) -> (r:
    Option<Vec<Bytes>>)
    ensures
        match sig_params_bases_of(params@) {
            Some((h0, h)) => if forall|k: int|
                0 <= k < indices_to_commit@.len() ==> #[trigger] indices_to_commit@[k] < h.len() {
                r matches Some(b) && blobs_view(b@) == commitment_bases(h0, h, indices_to_commit@)
            } else {
                r is None
            },
            None => r is None,
        },
{
    let (h0, h) = match sig_params_bases(params) {
        Some(x) => x,
        None => return None,
    };
    let ghost hv = blobs_view(h@);
    let ghost h0v = h0@;
    let mut bases: Vec<Bytes> = Vec::new();
    bases.push(h0);
    let mut k: usize = 0;
    while k < indices_to_commit.len()
        invariant
            k <= indices_to_commit@.len(),
            hv == blobs_view(h@),
            sig_params_bases_of(params@) == Some((h0v, hv)),
            forall|m: int| 0 <= m < k ==> #[trigger] indices_to_commit@[m] < hv.len(),
            blobs_view(bases@) == commitment_bases(h0v, hv, indices_to_commit@.take(k as int)),
        decreases indices_to_commit@.len() - k,
    {
        let i = indices_to_commit[k];
        if i >= h.len() {
            return None;
        }
        let ghost before = bases@;
        bases.push(copy_bytes(&h[i]));
        proof {
            assert(indices_to_commit@.take(k + 1) =~= indices_to_commit@.take(k as int).push(i));
            assert(indices_to_commit@.take(k + 1).map_values(|i: usize| hv[i as int]) =~= indices_to_commit@.take(
                k as int,
            ).map_values(|i: usize| hv[i as int]).push(hv[i as int]));
            assert(blobs_view(bases@) =~= blobs_view(before).push(hv[i as int]));
            assert(blobs_view(bases@) =~= commitment_bases(h0v, hv, indices_to_commit@.take(k + 1)));
        }
        k = k + 1;
    }
    assert(indices_to_commit@.take(indices_to_commit@.len() as int) =~= indices_to_commit@);
    Some(bases)
}

fn find_blinding(blindings: &Vec<(usize, Bytes)>, idx: usize) -> (r: Option<&Bytes>)
    ensures
        r matches Some(b) ==> exists|k: int| 0 <= k < blindings@.len() && #[trigger] blindings@[k] == (idx, *b),
        r is None ==> forall|k: int| 0 <= k < blindings@.len() ==> #[trigger] blindings@[k].0 != idx,
{
    let mut k: usize = 0;
    while k < blindings.len()
        invariant
            k <= blindings@.len(),
            forall|m: int| 0 <= m < k ==> #[trigger] blindings@[m].0 != idx,
        decreases blindings@.len() - k,
    {
        if blindings[k].0 == idx {
            return Some(&blindings[k].1);
        }
        k = k + 1;
    }
    None
}

fn contains_index(v: &Vec<usize>, idx: usize) -> (r: bool)
    ensures
        r == v@.contains(idx),
{
    let mut k: usize = 0;
    while k < v.len()
        invariant
            k <= v@.len(),
            forall|m: int| 0 <= m < k ==> v@[m] != idx,
        decreases v@.len() - k,
    {
        if v[k] == idx {
            assert(v@[k as int] == idx);
            return true;
        }
        k = k + 1;
    }
    false
}

/// How each message enters the proof of knowledge: revealed when its index is listed,
/// otherwise blinded with the blinding given for it, or with a fresh one.
pub fn choose_message_roles(
    messages: &Vec<Bytes>,
    blindings: &Vec<(usize, Bytes)>,
    revealed_indices: &Vec<usize>,
    rng: &mut StdRng,
) -> (r: Vec<MessageChoice>)
    ensures
        r@.len() == messages@.len(),
        forall|j: int|
            0 <= j < r@.len() ==> {
                let c = #[trigger] r@[j];
                &&& c.0@ == messages@[j]@
                &&& (c.1 is None) == revealed_indices@.contains(j as usize)
                &&& (c.1 is Some && (exists|k: int| 0 <= k < blindings@.len() && #[trigger] blindings@[k].0
                    == j as usize) ==> exists|k: int|
                    0 <= k < blindings@.len() && #[trigger] blindings@[k].0 == j as usize && blindings@[k].1@ == c.1.unwrap()@)
            },
{
    let mut r: Vec<MessageChoice> = Vec::new();
    let mut j: usize = 0;
    while j < messages.len()
        invariant
            j <= messages@.len(),
            r@.len() == j,
            forall|m: int|
                0 <= m < j ==> {
                    let c = #[trigger] r@[m];
                    &&& c.0@ == messages@[m]@
                    &&& (c.1 is None) == revealed_indices@.contains(m as usize)
                    &&& (c.1 is Some && (exists|k: int| 0 <= k < blindings@.len() && #[trigger] blindings@[k].0
                        == m as usize) ==> exists|k: int|
                        0 <= k < blindings@.len() && #[trigger] blindings@[k].0 == m as usize && blindings@[k].1@ == c.1.unwrap()@)
                },
        decreases messages@.len() - j,
    {
        let m = copy_bytes(&messages[j]);
        if contains_index(revealed_indices, j) {
            r.push((m, None));
        } else {
            match find_blinding(blindings, j) {
                Some(b) => {
                    proof {
                        let kk = choose|kk: int| 0 <= kk < blindings@.len() && #[trigger] blindings@[kk] == (j, *b);
                        assert(blindings@[kk].0 == j && blindings@[kk].1@ == b@);
                    }
                    r.push((m, Some(copy_bytes(b))));
                },
                None => r.push((m, Some(random_scalar(rng)))),
            }
        }
        j = j + 1;
    }
    r
}

/// The commit phase of a proof of knowledge of `signature` over `messages`: the messages at
/// `revealed_indices` are disclosed, the others are blinded, with the blinding that
/// `blindings` gives for their index where it gives one (the roles are those of
/// `choose_message_roles`). Parameters that do not decode, or a number of messages other than
/// theirs, give no result.
pub fn bbs_plus_initialize_proof_of_knowledge_of_signature(
    signature: &Bytes,
    params: &Bytes,
    messages: &Vec<Bytes>,
    blindings: &Vec<(usize, Bytes)>,
    revealed_indices: &Vec<usize>,
    rng: &mut StdRng,
) -> (r: Option<Bytes>)
    ensures
        sig_message_count_of(params@) is None ==> r is None,
        sig_message_count_of(params@) matches Some(n) && messages@.len() != n ==> r is None,
{
    let choices = choose_message_roles(messages, blindings, revealed_indices, rng);
    sig_pok_init(rng, signature, params, &choices)
}

/// The response phase of a proof of knowledge for `challenge`.
pub fn bbs_plus_gen_proof(protocol: &Bytes, challenge: &Bytes) -> (r: Option<Bytes>)
    ensures
        opt_bytes_view(r) == sig_gen_proof_of(protocol@, challenge@),
{
    sig_pok_gen_proof(protocol, challenge)
}

/// Whether a proof of knowledge verifies for the revealed messages, the challenge, the
/// public key and the parameters; parameters that do not decode, or more revealed messages
/// than they support, fail.
pub fn bbs_plus_verify_proof(
    proof: &Bytes,
    revealed_msgs: &Vec<(usize, Bytes)>,
    challenge: &Bytes,
    public_key: &Bytes,
    params: &Bytes,
) -> (r: bool)
    ensures
        r == match sig_message_count_of(params@) {
            Some(n) => revealed_msgs@.len() <= n && sig_proof_valid(
                proof@,
                indexed_view(revealed_msgs@),
                challenge@,
                public_key@,
                params@,
            ),
            None => false,
        },
{
    match sig_message_count(params) {
        Some(n) => revealed_msgs.len() <= n && sig_proof_verify(proof, revealed_msgs, challenge, public_key, params),
        None => false,
    }
}

/// The challenge contribution of the commit phase.
pub fn bbs_plus_challenge_contribution_from_protocol(
    protocol: &Bytes,
    revealed_msgs: &Vec<(usize, Bytes)>,
    params: &Bytes,
) -> (r: Option<Bytes>)
    ensures
        opt_bytes_view(r) == sig_protocol_contribution_of(protocol@, indexed_view(revealed_msgs@), params@),
{
    sig_protocol_contribution(protocol, revealed_msgs, params)
}

/// The challenge contribution of a finished proof; equal to that of its commit phase.
pub fn bbs_plus_challenge_contribution_from_proof(
    proof: &Bytes,
    revealed_msgs: &Vec<(usize, Bytes)>,
    params: &Bytes,
) -> (r: Option<Bytes>)
    ensures
        opt_bytes_view(r) == sig_proof_contribution_of(proof@, indexed_view(revealed_msgs@), params@),
{
    sig_proof_contribution(proof, revealed_msgs, params)
}

} // verus!
