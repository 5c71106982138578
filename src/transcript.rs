//! The challenge transcript: every statement's contribution, then the context and the
//! nonce, each framed so that no two different inputs give the same bytes.
use vstd::prelude::*;

use crate::codec::{
    all_ok, enc_blob, enc_list, enc_opt_blob, fits, le64, lemma_blob_inverts, lemma_le64,
    lemma_list_round_trip, lemma_opt_blob_round_trip, parse_blob, parse_list, parse_opt_blob,
    write_blob, write_blob_list, write_opt_blob, write_u64,
};
use crate::model::{blobs_view, opt_bytes_view, Bytes};

verus! {

/// Domain separation tag that opens every challenge transcript.
pub const CHALLENGE_DOMAIN: u64 = 0x4346_5250_4d4f_4301;

pub open spec fn transcript(
    contributions: Seq<Seq<u8>>,
    context: Option<Seq<u8>>,
    nonce: Option<Seq<u8>>,
) -> Seq<u8> {
    le64(CHALLENGE_DOMAIN) + enc_list(contributions, |b: Seq<u8>| enc_blob(b)) + enc_opt_blob(context)
        + enc_opt_blob(nonce)
}

pub open spec fn contributions_fit(c: Seq<Seq<u8>>, context: Option<Seq<u8>>, nonce: Option<Seq<u8>>) -> bool {
    &&& c.len() <= usize::MAX
    &&& all_ok(c, |b: Seq<u8>| fits(b))
    &&& (context matches Some(x) ==> fits(x))
    &&& (nonce matches Some(x) ==> fits(x))
}

proof fn lemma_transcript_parse(c: Seq<Seq<u8>>, context: Option<Seq<u8>>, nonce: Option<Seq<u8>>)
    requires
        contributions_fit(c, context, nonce),
    ensures
        ({
            let t = transcript(c, context, nonce).skip(8);
            match parse_list(t, |s: Seq<u8>| parse_blob(s)) {
                Some((c2, r)) => c2 == c && match parse_opt_blob(r) {
                    Some((x, r2)) => x == context && parse_opt_blob(r2) == Some((nonce, Seq::<u8>::empty())),
                    None => false,
                },
                None => false,
            }
        }),
{
    lemma_le64(CHALLENGE_DOMAIN);
    let f = |b: Seq<u8>| enc_blob(b);
    let p = |s: Seq<u8>| parse_blob(s);
    let tail = enc_opt_blob(context) + enc_opt_blob(nonce);
    assert(transcript(c, context, nonce).skip(8) =~= enc_list(c, f) + tail);
    lemma_blob_inverts();
    lemma_list_round_trip(c, tail, f, p, |b: Seq<u8>| fits(b));
    lemma_opt_blob_round_trip(context, enc_opt_blob(nonce));
    lemma_opt_blob_round_trip(nonce, Seq::empty());
    assert(enc_opt_blob(nonce) + Seq::<u8>::empty() =~= enc_opt_blob(nonce));
}

/// Different statement contributions, context bytes or nonces never give the same
/// transcript: in particular a proof made with one nonce is hashed differently from one
/// checked with another.
pub proof fn lemma_transcript_injective(
    c1: Seq<Seq<u8>>,
    x1: Option<Seq<u8>>,
    n1: Option<Seq<u8>>,
    c2: Seq<Seq<u8>>,
    x2: Option<Seq<u8>>,
    n2: Option<Seq<u8>>,
)
    requires
        contributions_fit(c1, x1, n1),
        contributions_fit(c2, x2, n2),
        transcript(c1, x1, n1) == transcript(c2, x2, n2),
    ensures
        c1 == c2,
        x1 == x2,
        n1 == n2,
{
    lemma_transcript_parse(c1, x1, n1);
    lemma_transcript_parse(c2, x2, n2);
}

/// The challenge contribution of a Pedersen opening proof: the bases, the commitment and
/// the commitment to the blindings.
pub open spec fn pedersen_contribution(bases: Seq<Seq<u8>>, commitment: Seq<u8>, t: Seq<u8>) -> Seq<u8> {
    enc_list(bases, |b: Seq<u8>| enc_blob(b)) + enc_blob(commitment) + enc_blob(t)
}

pub fn build_pedersen_contribution(bases: &Vec<Bytes>, commitment: &Bytes, t: &Bytes) -> (r: Bytes)
    ensures
        r@ == pedersen_contribution(blobs_view(bases@), commitment@, t@),
{
    let mut out: Vec<u8> = Vec::new();
    write_blob_list(&mut out, bases);
    write_blob(&mut out, commitment);
    write_blob(&mut out, t);
    assert(out@ =~= pedersen_contribution(blobs_view(bases@), commitment@, t@));
    out
}

/// Builds the transcript from the contributions in statement order.
pub fn build_transcript(
    contributions: &Vec<Bytes>,
    context: &Option<Bytes>,
    nonce: &Option<Bytes>,
) -> (r: Bytes)
    ensures
        r@ == transcript(blobs_view(contributions@), opt_bytes_view(*context), opt_bytes_view(*nonce)),
{
    let mut out: Vec<u8> = Vec::new();
    write_u64(&mut out, CHALLENGE_DOMAIN);
    write_blob_list(&mut out, contributions);
    write_opt_blob(&mut out, context);
    write_opt_blob(&mut out, nonce);
    assert(out@ =~= transcript(blobs_view(contributions@), opt_bytes_view(*context), opt_bytes_view(*nonce)));
    out
}

} // verus!
