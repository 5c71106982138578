//! Canonical byte encoding: every integer is eight little-endian bytes, every byte string is
//! length-prefixed, every list is count-prefixed. Encoding is a pure function of content and
//! decoding inverts it.
use vstd::prelude::*;

use crate::model::{
    blobs_view, groups_view, indexed_view, opt_bytes_view, pairs_view, params_view, statements_view,
    sub_proofs_view, Bytes, EqualityGroup, Proof, ProofSpec, ProofSpecModel, SetupParam,
    SetupParamModel, Statement, StatementModel, StatementProof, StatementProofModel,
};

verus! {

// ---------------------------------------------------------------------------
// Primitive encodings
// ---------------------------------------------------------------------------

pub open spec fn le64(n: u64) -> Seq<u8> {
    seq![
        (n & 0xff) as u8,
        ((n >> 8u64) & 0xff) as u8,
        ((n >> 16u64) & 0xff) as u8,
        ((n >> 24u64) & 0xff) as u8,
        ((n >> 32u64) & 0xff) as u8,
        ((n >> 40u64) & 0xff) as u8,
        ((n >> 48u64) & 0xff) as u8,
        ((n >> 56u64) & 0xff) as u8,
    ]
}

pub open spec fn read_le64(s: Seq<u8>) -> u64 {
    (s[0] as u64) | ((s[1] as u64) << 8u64) | ((s[2] as u64) << 16u64) | ((s[3] as u64)
        << 24u64) | ((s[4] as u64) << 32u64) | ((s[5] as u64) << 40u64) | ((s[6] as u64)
        << 48u64) | ((s[7] as u64) << 56u64)
}

pub open spec fn enc_usize(n: usize) -> Seq<u8> {
    le64(n as u64)
}

pub open spec fn parse_usize(s: Seq<u8>) -> Option<(usize, Seq<u8>)> {
    if s.len() < 8 {
        None
    } else {
        let v = read_le64(s);
        if v > usize::MAX {
            None
        } else {
            Some((v as usize, s.skip(8)))
        }
    }
}

pub open spec fn enc_blob(b: Seq<u8>) -> Seq<u8> {
    enc_usize(b.len() as usize) + b
}

pub open spec fn parse_blob(s: Seq<u8>) -> Option<(Seq<u8>, Seq<u8>)> {
    match parse_usize(s) {
        Some((n, r)) => if n <= r.len() {
            Some((r.take(n as int), r.skip(n as int)))
        } else {
            None
        },
        None => None,
    }
}

pub open spec fn enc_opt_blob(o: Option<Seq<u8>>) -> Seq<u8> {
    match o {
        Some(b) => seq![1u8] + enc_blob(b),
        None => seq![0u8],
    }
}

pub open spec fn parse_opt_blob(s: Seq<u8>) -> Option<(Option<Seq<u8>>, Seq<u8>)> {
    if s.len() == 0 {
        None
    } else if s[0] == 0 {
        Some((None, s.skip(1)))
    } else if s[0] == 1 {
        match parse_blob(s.skip(1)) {
            Some((b, r)) => Some((Some(b), r)),
            None => None,
        }
    } else {
        None
    }
}

// ---------------------------------------------------------------------------
// Lists
// ---------------------------------------------------------------------------

/// The concatenated encodings of the items, without a count.
pub open spec fn enc_items<T>(xs: Seq<T>, f: spec_fn(T) -> Seq<u8>) -> Seq<u8>
    decreases xs.len(),
{
    if xs.len() == 0 {
        Seq::empty()
    } else {
        enc_items(xs.drop_last(), f) + f(xs.last())
    }
}

/// Parses `n` items one after another.
pub open spec fn parse_items<T>(
    s: Seq<u8>,
    n: nat,
    p: spec_fn(Seq<u8>) -> Option<(T, Seq<u8>)>,
) -> Option<(Seq<T>, Seq<u8>)>
    decreases n,
{
    if n == 0 {
        Some((Seq::empty(), s))
    } else {
        match parse_items(s, (n - 1) as nat, p) {
            Some((xs, r)) => match p(r) {
                Some((x, r2)) => Some((xs.push(x), r2)),
                None => None,
            },
            None => None,
        }
    }
}

pub open spec fn enc_list<T>(xs: Seq<T>, f: spec_fn(T) -> Seq<u8>) -> Seq<u8> {
    enc_usize(xs.len() as usize) + enc_items(xs, f)
}

pub open spec fn parse_list<T>(s: Seq<u8>, p: spec_fn(Seq<u8>) -> Option<(T, Seq<u8>)>) -> Option<
    (Seq<T>, Seq<u8>),
> {
    match parse_usize(s) {
        Some((n, r)) => parse_items(r, n as nat, p),
        None => None,
    }
}

/// `p` reads back what `f` writes for every value that `ok` admits, whatever follows it.
pub open spec fn inverts<T>(
    f: spec_fn(T) -> Seq<u8>,
    p: spec_fn(Seq<u8>) -> Option<(T, Seq<u8>)>,
    ok: spec_fn(T) -> bool,
) -> bool {
    forall|x: T, rest: Seq<u8>| ok(x) ==> #[trigger] p(f(x) + rest) == Some((x, rest))
}

pub open spec fn all_ok<T>(xs: Seq<T>, ok: spec_fn(T) -> bool) -> bool {
    forall|i: int| 0 <= i < xs.len() ==> ok(#[trigger] xs[i])
}

// ---------------------------------------------------------------------------
// Inverse lemmas
// ---------------------------------------------------------------------------

pub proof fn lemma_le64(n: u64)
    ensures
        le64(n).len() == 8,
        read_le64(le64(n)) == n,
{
    let s = le64(n);
    let b0 = (n & 0xff) as u8;
    let b1 = ((n >> 8u64) & 0xff) as u8;
    let b2 = ((n >> 16u64) & 0xff) as u8;
    let b3 = ((n >> 24u64) & 0xff) as u8;
    let b4 = ((n >> 32u64) & 0xff) as u8;
    let b5 = ((n >> 40u64) & 0xff) as u8;
    let b6 = ((n >> 48u64) & 0xff) as u8;
    let b7 = ((n >> 56u64) & 0xff) as u8;
    assert(s[0] == b0 && s[1] == b1 && s[2] == b2 && s[3] == b3);
    assert(s[4] == b4 && s[5] == b5 && s[6] == b6 && s[7] == b7);
    assert(n == ((((n & 0xff) as u8) as u64) | (((((n >> 8u64) & 0xff) as u8) as u64) << 8u64)
        | (((((n >> 16u64) & 0xff) as u8) as u64) << 16u64) | (((((n >> 24u64) & 0xff) as u8) as u64)
        << 24u64) | (((((n >> 32u64) & 0xff) as u8) as u64) << 32u64) | (((((n >> 40u64) & 0xff) as u8)
        as u64) << 40u64) | (((((n >> 48u64) & 0xff) as u8) as u64) << 48u64) | (((((n >> 56u64)
        & 0xff) as u8) as u64) << 56u64))) by (bit_vector);
}

pub proof fn lemma_usize_round_trip(n: usize, rest: Seq<u8>)
    ensures
        parse_usize(enc_usize(n) + rest) == Some((n, rest)),
        enc_usize(n).len() == 8,
{
    lemma_le64(n as u64);
    let s = enc_usize(n) + rest;
    assert(s.subrange(0, 8) =~= enc_usize(n));
    assert(read_le64(s) == read_le64(enc_usize(n)));
    assert(s.skip(8) =~= rest);
}

pub proof fn lemma_blob_round_trip(b: Seq<u8>, rest: Seq<u8>)
    requires
        b.len() <= usize::MAX,
    ensures
        parse_blob(enc_blob(b) + rest) == Some((b, rest)),
{
    lemma_usize_round_trip(b.len() as usize, b + rest);
    assert(enc_blob(b) + rest =~= enc_usize(b.len() as usize) + (b + rest));
    assert((b + rest).take(b.len() as int) =~= b);
    assert((b + rest).skip(b.len() as int) =~= rest);
}

pub open spec fn fits(b: Seq<u8>) -> bool {
    b.len() <= usize::MAX
}

pub proof fn lemma_blob_inverts()
    ensures
        inverts(|b: Seq<u8>| enc_blob(b), |s: Seq<u8>| parse_blob(s), |b: Seq<u8>| fits(b)),
{
    assert forall|b: Seq<u8>, rest: Seq<u8>| fits(b) implies #[trigger] parse_blob(enc_blob(b) + rest)
        == Some((b, rest)) by {
        lemma_blob_round_trip(b, rest);
    }
}

pub proof fn lemma_opt_blob_round_trip(o: Option<Seq<u8>>, rest: Seq<u8>)
    requires
        o matches Some(b) ==> b.len() <= usize::MAX,
    ensures
        parse_opt_blob(enc_opt_blob(o) + rest) == Some((o, rest)),
{
    match o {
        Some(b) => {
            lemma_blob_round_trip(b, rest);
            assert((enc_opt_blob(o) + rest).skip(1) =~= enc_blob(b) + rest);
        },
        None => {
            assert((enc_opt_blob(o) + rest).skip(1) =~= rest);
        },
    }
}

pub proof fn lemma_items_round_trip<T>(
    xs: Seq<T>,
    rest: Seq<u8>,
    f: spec_fn(T) -> Seq<u8>,
    p: spec_fn(Seq<u8>) -> Option<(T, Seq<u8>)>,
    ok: spec_fn(T) -> bool,
)
    requires
        inverts(f, p, ok),
        all_ok(xs, ok),
    ensures
        parse_items(enc_items(xs, f) + rest, xs.len(), p) == Some((xs, rest)),
    decreases xs.len(),
{
    if xs.len() > 0 {
        let init = xs.drop_last();
        let tail = f(xs.last()) + rest;
        assert(all_ok(init, ok));
        assert(ok(xs[xs.len() - 1]));
        lemma_items_round_trip(init, tail, f, p, ok);
        assert(enc_items(xs, f) + rest =~= enc_items(init, f) + tail);
        assert(p(f(xs.last()) + rest) == Some((xs.last(), rest)));
        assert(init.push(xs.last()) =~= xs);
    } else {
        assert(enc_items(xs, f) + rest =~= rest);
    }
}

pub proof fn lemma_list_round_trip<T>(
    xs: Seq<T>,
    rest: Seq<u8>,
    f: spec_fn(T) -> Seq<u8>,
    p: spec_fn(Seq<u8>) -> Option<(T, Seq<u8>)>,
    ok: spec_fn(T) -> bool,
)
    requires
        inverts(f, p, ok),
        all_ok(xs, ok),
        xs.len() <= usize::MAX,
    ensures
        parse_list(enc_list(xs, f) + rest, p) == Some((xs, rest)),
{
    lemma_usize_round_trip(xs.len() as usize, enc_items(xs, f) + rest);
    assert(enc_list(xs, f) + rest =~= enc_usize(xs.len() as usize) + (enc_items(xs, f) + rest));
    lemma_items_round_trip(xs, rest, f, p, ok);
}

// ---------------------------------------------------------------------------
// Executable primitives
// ---------------------------------------------------------------------------

pub fn write_usize(out: &mut Vec<u8>, n: usize)
    ensures
        final(out)@ == old(out)@ + enc_usize(n),
{
    write_u64(out, n as u64);
}

pub fn write_u64(out: &mut Vec<u8>, v: u64)
    ensures
        final(out)@ == old(out)@ + le64(v),
{
    out.push((v & 0xff) as u8);
    out.push(((v >> 8u64) & 0xff) as u8);
    out.push(((v >> 16u64) & 0xff) as u8);
    out.push(((v >> 24u64) & 0xff) as u8);
    out.push(((v >> 32u64) & 0xff) as u8);
    out.push(((v >> 40u64) & 0xff) as u8);
    out.push(((v >> 48u64) & 0xff) as u8);
    out.push(((v >> 56u64) & 0xff) as u8);
    assert(final(out)@ =~= old(out)@ + le64(v));
}

pub fn write_bytes(out: &mut Vec<u8>, b: &Vec<u8>)
    ensures
        final(out)@ == old(out)@ + b@,
{
    let mut i: usize = 0;
    while i < b.len()
        invariant
            i <= b@.len(),
            out@ == old(out)@ + b@.subrange(0, i as int),
        decreases b@.len() - i,
    {
        out.push(b[i]);
        i = i + 1;
        assert(out@ =~= old(out)@ + b@.subrange(0, i as int));
    }
    assert(b@.subrange(0, b@.len() as int) =~= b@);
}

pub fn write_blob(out: &mut Vec<u8>, b: &Vec<u8>)
    ensures
        final(out)@ == old(out)@ + enc_blob(b@),
{
    write_usize(out, b.len());
    write_bytes(out, b);
    assert(final(out)@ =~= old(out)@ + enc_blob(b@));
}

pub fn write_opt_blob(out: &mut Vec<u8>, o: &Option<Vec<u8>>)
    ensures
        final(out)@ == old(out)@ + enc_opt_blob(opt_bytes_view(*o)),
{
    match o {
        Some(b) => {
            out.push(1u8);
            write_blob(out, b);
            assert(final(out)@ =~= old(out)@ + enc_opt_blob(opt_bytes_view(*o)));
        },
        None => {
            out.push(0u8);
            assert(final(out)@ =~= old(out)@ + enc_opt_blob(opt_bytes_view(*o)));
        },
    }
}

// ---------------------------------------------------------------------------
// Structured encodings
// ---------------------------------------------------------------------------

pub open spec fn tail(data: Seq<u8>, pos: int) -> Seq<u8> {
    data.subrange(pos, data.len() as int)
}

pub open spec fn enc_pair(p: (usize, usize)) -> Seq<u8> {
    enc_usize(p.0) + enc_usize(p.1)
}

pub open spec fn parse_pair(s: Seq<u8>) -> Option<((usize, usize), Seq<u8>)> {
    match parse_usize(s) {
        Some((a, r)) => match parse_usize(r) {
            Some((b, r2)) => Some(((a, b), r2)),
            None => None,
        },
        None => None,
    }
}

pub open spec fn pair_fits(p: (usize, usize)) -> bool {
    true
}

pub open spec fn enc_indexed(e: (usize, Seq<u8>)) -> Seq<u8> {
    enc_usize(e.0) + enc_blob(e.1)
}

pub open spec fn parse_indexed(s: Seq<u8>) -> Option<((usize, Seq<u8>), Seq<u8>)> {
    match parse_usize(s) {
        Some((i, r)) => match parse_blob(r) {
            Some((b, r2)) => Some(((i, b), r2)),
            None => None,
        },
        None => None,
    }
}

pub open spec fn indexed_fits(e: (usize, Seq<u8>)) -> bool {
    fits(e.1)
}


pub open spec fn enc_blob_list(xs: Seq<Seq<u8>>) -> Seq<u8> {
    enc_list(xs, |x: Seq<u8>| enc_blob(x))
}

pub open spec fn parse_blob_list(s: Seq<u8>) -> Option<(Seq<Seq<u8>>, Seq<u8>)> {
    parse_list(s, |x: Seq<u8>| parse_blob(x))
}

pub open spec fn blob_list_fits(xs: Seq<Seq<u8>>) -> bool {
    xs.len() <= usize::MAX && all_ok(xs, |x: Seq<u8>| fits(x))
}


pub open spec fn enc_pair_list(xs: Seq<(usize, usize)>) -> Seq<u8> {
    enc_list(xs, |x: (usize, usize)| enc_pair(x))
}

pub open spec fn parse_pair_list(s: Seq<u8>) -> Option<(Seq<(usize, usize)>, Seq<u8>)> {
    parse_list(s, |x: Seq<u8>| parse_pair(x))
}

pub open spec fn pair_list_fits(xs: Seq<(usize, usize)>) -> bool {
    xs.len() <= usize::MAX && all_ok(xs, |x: (usize, usize)| pair_fits(x))
}


pub open spec fn enc_indexed_list(xs: Seq<(usize, Seq<u8>)>) -> Seq<u8> {
    enc_list(xs, |x: (usize, Seq<u8>)| enc_indexed(x))
}

pub open spec fn parse_indexed_list(s: Seq<u8>) -> Option<(Seq<(usize, Seq<u8>)>, Seq<u8>)> {
    parse_list(s, |x: Seq<u8>| parse_indexed(x))
}

pub open spec fn indexed_list_fits(xs: Seq<(usize, Seq<u8>)>) -> bool {
    xs.len() <= usize::MAX && all_ok(xs, |x: (usize, Seq<u8>)| indexed_fits(x))
}


pub open spec fn enc_statement_list(xs: Seq<StatementModel>) -> Seq<u8> {
    enc_list(xs, |x: StatementModel| enc_statement(x))
}

pub open spec fn parse_statement_list(s: Seq<u8>) -> Option<(Seq<StatementModel>, Seq<u8>)> {
    parse_list(s, |x: Seq<u8>| parse_statement(x))
}

pub open spec fn statement_list_fits(xs: Seq<StatementModel>) -> bool {
    xs.len() <= usize::MAX && all_ok(xs, |x: StatementModel| statement_fits(x))
}


pub open spec fn enc_param_list(xs: Seq<SetupParamModel>) -> Seq<u8> {
    enc_list(xs, |x: SetupParamModel| enc_param(x))
}

pub open spec fn parse_param_list(s: Seq<u8>) -> Option<(Seq<SetupParamModel>, Seq<u8>)> {
    parse_list(s, |x: Seq<u8>| parse_param(x))
}

pub open spec fn param_list_fits(xs: Seq<SetupParamModel>) -> bool {
    xs.len() <= usize::MAX && all_ok(xs, |x: SetupParamModel| param_fits(x))
}


pub open spec fn enc_group_list(xs: Seq<Seq<(usize, usize)>>) -> Seq<u8> {
    enc_list(xs, |x: Seq<(usize, usize)>| enc_pair_list(x))
}

pub open spec fn parse_group_list(s: Seq<u8>) -> Option<(Seq<Seq<(usize, usize)>>, Seq<u8>)> {
    parse_list(s, |x: Seq<u8>| parse_pair_list(x))
}

pub open spec fn group_list_fits(xs: Seq<Seq<(usize, usize)>>) -> bool {
    xs.len() <= usize::MAX && all_ok(xs, |x: Seq<(usize, usize)>| pair_list_fits(x))
}


pub open spec fn enc_statement(s: StatementModel) -> Seq<u8> {
    match s {
        StatementModel::SignatureKnowledge { params, public_key, revealed } => seq![0u8] + enc_usize(
            params,
        ) + enc_blob(public_key) + enc_indexed_list(revealed),
        StatementModel::PedersenOpening { bases, commitment } => seq![1u8] + enc_usize(bases)
            + enc_blob(commitment),
        StatementModel::AccumulatorMembership { params, public_key, proving_key, accumulated } =>
            seq![2u8] + enc_usize(params) + enc_blob(public_key) + enc_usize(proving_key) + enc_blob(
            accumulated,
        ),
        StatementModel::AccumulatorNonMembership { params, public_key, proving_key, accumulated } =>
            seq![3u8] + enc_usize(params) + enc_blob(public_key) + enc_usize(proving_key) + enc_blob(
            accumulated,
        ),
    }
}

pub open spec fn parse_statement(s: Seq<u8>) -> Option<(StatementModel, Seq<u8>)> {
    if s.len() == 0 {
        None
    } else if s[0] == 0 {
        match parse_usize(s.skip(1)) {
            Some((params, r1)) => match parse_blob(r1) {
                Some((public_key, r2)) => match parse_indexed_list(r2) {
                    Some((revealed, r3)) => Some(
                        (StatementModel::SignatureKnowledge { params, public_key, revealed }, r3),
                    ),
                    None => None,
                },
                None => None,
            },
            None => None,
        }
    } else if s[0] == 1 {
        match parse_usize(s.skip(1)) {
            Some((bases, r1)) => match parse_blob(r1) {
                Some((commitment, r2)) => Some((StatementModel::PedersenOpening { bases, commitment }, r2)),
                None => None,
            },
            None => None,
        }
    } else if s[0] == 2 {
        match parse_usize(s.skip(1)) {
            Some((params, r1)) => match parse_blob(r1) {
                Some((public_key, r2)) => match parse_usize(r2) {
                    Some((proving_key, r3)) => match parse_blob(r3) {
                        Some((accumulated, r4)) => Some(
                            (
                                StatementModel::AccumulatorMembership {
                                    params,
                                    public_key,
                                    proving_key,
                                    accumulated,
                                },
                                r4,
                            ),
                        ),
                        None => None,
                    },
                    None => None,
                },
                None => None,
            },
            None => None,
        }
    } else if s[0] == 3 {
        match parse_usize(s.skip(1)) {
            Some((params, r1)) => match parse_blob(r1) {
                Some((public_key, r2)) => match parse_usize(r2) {
                    Some((proving_key, r3)) => match parse_blob(r3) {
                        Some((accumulated, r4)) => Some(
                            (
                                StatementModel::AccumulatorNonMembership {
                                    params,
                                    public_key,
                                    proving_key,
                                    accumulated,
                                },
                                r4,
                            ),
                        ),
                        None => None,
                    },
                    None => None,
                },
                None => None,
            },
            None => None,
        }
    } else {
        None
    }
}

pub open spec fn statement_fits(s: StatementModel) -> bool {
    match s {
        StatementModel::SignatureKnowledge { public_key, revealed, .. } => fits(public_key)
            && indexed_list_fits(revealed),
        StatementModel::PedersenOpening { commitment, .. } => fits(commitment),
        StatementModel::AccumulatorMembership { public_key, accumulated, .. } => fits(public_key) && fits(
            accumulated,
        ),
        StatementModel::AccumulatorNonMembership { public_key, accumulated, .. } => fits(public_key) && fits(
            accumulated,
        ),
    }
}

pub open spec fn enc_param(p: SetupParamModel) -> Seq<u8> {
    match p {
        SetupParamModel::SignatureParams(b) => seq![0u8] + enc_blob(b),
        SetupParamModel::PedersenBases(bs) => seq![1u8] + enc_blob_list(bs),
        SetupParamModel::AccumulatorParams(b) => seq![2u8] + enc_blob(b),
        SetupParamModel::MembershipProvingKey(b) => seq![3u8] + enc_blob(b),
        SetupParamModel::NonMembershipProvingKey(b) => seq![4u8] + enc_blob(b),
    }
}

pub open spec fn parse_param(s: Seq<u8>) -> Option<(SetupParamModel, Seq<u8>)> {
    if s.len() == 0 {
        None
    } else if s[0] == 0 {
        match parse_blob(s.skip(1)) {
            Some((b, r)) => Some((SetupParamModel::SignatureParams(b), r)),
            None => None,
        }
    } else if s[0] == 1 {
        match parse_blob_list(s.skip(1)) {
            Some((bs, r)) => Some((SetupParamModel::PedersenBases(bs), r)),
            None => None,
        }
    } else if s[0] == 2 {
        match parse_blob(s.skip(1)) {
            Some((b, r)) => Some((SetupParamModel::AccumulatorParams(b), r)),
            None => None,
        }
    } else if s[0] == 3 {
        match parse_blob(s.skip(1)) {
            Some((b, r)) => Some((SetupParamModel::MembershipProvingKey(b), r)),
            None => None,
        }
    } else if s[0] == 4 {
        match parse_blob(s.skip(1)) {
            Some((b, r)) => Some((SetupParamModel::NonMembershipProvingKey(b), r)),
            None => None,
        }
    } else {
        None
    }
}

pub open spec fn param_fits(p: SetupParamModel) -> bool {
    match p {
        SetupParamModel::SignatureParams(b) => fits(b),
        SetupParamModel::PedersenBases(bs) => blob_list_fits(bs),
        SetupParamModel::AccumulatorParams(b) => fits(b),
        SetupParamModel::MembershipProvingKey(b) => fits(b),
        SetupParamModel::NonMembershipProvingKey(b) => fits(b),
    }
}

/// The canonical encoding of a proof specification.
pub open spec fn enc_spec(m: ProofSpecModel) -> Seq<u8> {
    enc_statement_list(m.statements) + enc_param_list(m.setup_params) + enc_group_list(m.equalities)
        + enc_opt_blob(m.context)
}

/// Decoding of a whole byte string as a proof specification; trailing bytes are refused.
pub open spec fn parse_spec(s: Seq<u8>) -> Option<ProofSpecModel> {
    match parse_statement_list(s) {
        Some((statements, r1)) => match parse_param_list(r1) {
            Some((setup_params, r2)) => match parse_group_list(r2) {
                Some((equalities, r3)) => match parse_opt_blob(r3) {
                    Some((context, r4)) => if r4.len() == 0 {
                        Some(ProofSpecModel { statements, setup_params, equalities, context })
                    } else {
                        None
                    },
                    None => None,
                },
                None => None,
            },
            None => None,
        },
        None => None,
    }
}

pub open spec fn spec_fits(m: ProofSpecModel) -> bool {
    &&& statement_list_fits(m.statements)
    &&& param_list_fits(m.setup_params)
    &&& group_list_fits(m.equalities)
    &&& (m.context matches Some(c) ==> fits(c))
}

// ---------------------------------------------------------------------------
// Inverse lemmas of the structured encodings
// ---------------------------------------------------------------------------

proof fn lemma_pair_inverts()
    ensures
        inverts(|x: (usize, usize)| enc_pair(x), |x: Seq<u8>| parse_pair(x), |x: (usize, usize)| pair_fits(x)),
{
    assert forall|p: (usize, usize), rest: Seq<u8>| pair_fits(p) implies #[trigger] parse_pair(enc_pair(p) + rest)
        == Some((p, rest)) by {
        lemma_usize_round_trip(p.0, enc_usize(p.1) + rest);
        lemma_usize_round_trip(p.1, rest);
        assert(enc_pair(p) + rest =~= enc_usize(p.0) + (enc_usize(p.1) + rest));
    }
}

proof fn lemma_indexed_inverts()
    ensures
        inverts(|x: (usize, Seq<u8>)| enc_indexed(x), |x: Seq<u8>| parse_indexed(x), |x: (usize, Seq<u8>)| indexed_fits(x)),
{
    assert forall|e: (usize, Seq<u8>), rest: Seq<u8>| indexed_fits(e) implies #[trigger] parse_indexed(enc_indexed(e) + rest)
        == Some((e, rest)) by {
        lemma_usize_round_trip(e.0, enc_blob(e.1) + rest);
        lemma_blob_round_trip(e.1, rest);
        assert(enc_indexed(e) + rest =~= enc_usize(e.0) + (enc_blob(e.1) + rest));
    }
}

proof fn lemma_blob_list_round_trip(v: Seq<Seq<u8>>, rest: Seq<u8>)
    requires
        blob_list_fits(v),
    ensures
        parse_blob_list(enc_blob_list(v) + rest) == Some((v, rest)),
{
    lemma_blob_inverts();
    lemma_list_round_trip(v, rest, |x: Seq<u8>| enc_blob(x), |x: Seq<u8>| parse_blob(x), |x: Seq<u8>| fits(x));
}

proof fn lemma_indexed_list_round_trip(v: Seq<(usize, Seq<u8>)>, rest: Seq<u8>)
    requires
        indexed_list_fits(v),
    ensures
        parse_indexed_list(enc_indexed_list(v) + rest) == Some((v, rest)),
{
    lemma_indexed_inverts();
    lemma_list_round_trip(v, rest, |x: (usize, Seq<u8>)| enc_indexed(x), |x: Seq<u8>| parse_indexed(x), |x: (usize, Seq<u8>)| indexed_fits(x));
}

proof fn lemma_pair_list_inverts()
    ensures
        inverts(|x: Seq<(usize, usize)>| enc_pair_list(x), |x: Seq<u8>| parse_pair_list(x), |x: Seq<(usize, usize)>| pair_list_fits(x)),
{
    lemma_pair_inverts();
    assert forall|v: Seq<(usize, usize)>, rest: Seq<u8>| pair_list_fits(v) implies #[trigger] parse_pair_list(enc_pair_list(v) + rest)
        == Some((v, rest)) by {
        lemma_list_round_trip(v, rest, |x: (usize, usize)| enc_pair(x), |x: Seq<u8>| parse_pair(x), |x: (usize, usize)| pair_fits(x));
    }
}

proof fn lemma_signature_statement_round_trip(
    params: usize,
    public_key: Seq<u8>,
    revealed: Seq<(usize, Seq<u8>)>,
    rest: Seq<u8>,
)
    requires
        fits(public_key),
        indexed_list_fits(revealed),
    ensures
        ({
            let st = StatementModel::SignatureKnowledge { params, public_key, revealed };
            parse_statement(enc_statement(st) + rest) == Some((st, rest))
        }),
{
    let st = StatementModel::SignatureKnowledge { params, public_key, revealed };
    let s = enc_statement(st) + rest;
    let r2 = enc_indexed_list(revealed) + rest;
    let r1 = enc_blob(public_key) + r2;
    assert(s.skip(1) =~= enc_usize(params) + r1);
    lemma_usize_round_trip(params, r1);
    lemma_blob_round_trip(public_key, r2);
    lemma_indexed_list_round_trip(revealed, rest);
}

proof fn lemma_pedersen_statement_round_trip(bases: usize, commitment: Seq<u8>, rest: Seq<u8>)
    requires
        fits(commitment),
    ensures
        ({
            let st = StatementModel::PedersenOpening { bases, commitment };
            parse_statement(enc_statement(st) + rest) == Some((st, rest))
        }),
{
    let st = StatementModel::PedersenOpening { bases, commitment };
    let s = enc_statement(st) + rest;
    let r1 = enc_blob(commitment) + rest;
    assert(s.skip(1) =~= enc_usize(bases) + r1);
    lemma_usize_round_trip(bases, r1);
    lemma_blob_round_trip(commitment, rest);
}

proof fn lemma_membership_statement_round_trip(
    params: usize,
    public_key: Seq<u8>,
    proving_key: usize,
    accumulated: Seq<u8>,
    rest: Seq<u8>,
)
    requires
        fits(public_key),
        fits(accumulated),
    ensures
        ({
            let st = StatementModel::AccumulatorMembership { params, public_key, proving_key, accumulated };
            parse_statement(enc_statement(st) + rest) == Some((st, rest))
        }),
{
    let st = StatementModel::AccumulatorMembership { params, public_key, proving_key, accumulated };
    let s = enc_statement(st) + rest;
    let r3 = enc_blob(accumulated) + rest;
    let r2 = enc_usize(proving_key) + r3;
    let r1 = enc_blob(public_key) + r2;
    assert(s.skip(1) =~= enc_usize(params) + r1);
    lemma_usize_round_trip(params, r1);
    lemma_blob_round_trip(public_key, r2);
    lemma_usize_round_trip(proving_key, r3);
    lemma_blob_round_trip(accumulated, rest);
}

proof fn lemma_non_membership_statement_round_trip(
    params: usize,
    public_key: Seq<u8>,
    proving_key: usize,
    accumulated: Seq<u8>,
    rest: Seq<u8>,
)
    requires
        fits(public_key),
        fits(accumulated),
    ensures
        ({
            let st = StatementModel::AccumulatorNonMembership { params, public_key, proving_key, accumulated };
            parse_statement(enc_statement(st) + rest) == Some((st, rest))
        }),
{
    let st = StatementModel::AccumulatorNonMembership { params, public_key, proving_key, accumulated };
    let s = enc_statement(st) + rest;
    let r3 = enc_blob(accumulated) + rest;
    let r2 = enc_usize(proving_key) + r3;
    let r1 = enc_blob(public_key) + r2;
    assert(s.skip(1) =~= enc_usize(params) + r1);
    lemma_usize_round_trip(params, r1);
    lemma_blob_round_trip(public_key, r2);
    lemma_usize_round_trip(proving_key, r3);
    lemma_blob_round_trip(accumulated, rest);
}

proof fn lemma_statement_inverts()
    ensures
        inverts(|x: StatementModel| enc_statement(x), |x: Seq<u8>| parse_statement(x), |x: StatementModel| statement_fits(x)),
{
    assert forall|st: StatementModel, rest: Seq<u8>| statement_fits(st) implies #[trigger] parse_statement(enc_statement(st) + rest)
        == Some((st, rest)) by {
        match st {
            StatementModel::SignatureKnowledge { params, public_key, revealed } => {
                lemma_signature_statement_round_trip(params, public_key, revealed, rest);
            },
            StatementModel::PedersenOpening { bases, commitment } => {
                lemma_pedersen_statement_round_trip(bases, commitment, rest);
            },
            StatementModel::AccumulatorMembership { params, public_key, proving_key, accumulated } => {
                lemma_membership_statement_round_trip(params, public_key, proving_key, accumulated, rest);
            },
            StatementModel::AccumulatorNonMembership { params, public_key, proving_key, accumulated } => {
                lemma_non_membership_statement_round_trip(params, public_key, proving_key, accumulated, rest);
            },
        }
    }
}

proof fn lemma_param_inverts()
    ensures
        inverts(|x: SetupParamModel| enc_param(x), |x: Seq<u8>| parse_param(x), |x: SetupParamModel| param_fits(x)),
{
    assert forall|p: SetupParamModel, rest: Seq<u8>| param_fits(p) implies #[trigger] parse_param(enc_param(p) + rest)
        == Some((p, rest)) by {
        let s = enc_param(p) + rest;
        match p {
            SetupParamModel::SignatureParams(b) => {
                assert(s.skip(1) =~= enc_blob(b) + rest);
                lemma_blob_round_trip(b, rest);
            },
            SetupParamModel::PedersenBases(bs) => {
                assert(s.skip(1) =~= enc_blob_list(bs) + rest);
                lemma_blob_list_round_trip(bs, rest);
            },
            SetupParamModel::AccumulatorParams(b) => {
                assert(s.skip(1) =~= enc_blob(b) + rest);
                lemma_blob_round_trip(b, rest);
            },
            SetupParamModel::MembershipProvingKey(b) => {
                assert(s.skip(1) =~= enc_blob(b) + rest);
                lemma_blob_round_trip(b, rest);
            },
            SetupParamModel::NonMembershipProvingKey(b) => {
                assert(s.skip(1) =~= enc_blob(b) + rest);
                lemma_blob_round_trip(b, rest);
            },
        }
    }
}

/// Decoding the canonical encoding of a specification gives back that specification.
pub proof fn lemma_spec_round_trip(m: ProofSpecModel)
    requires
        spec_fits(m),
    ensures
        parse_spec(enc_spec(m)) == Some(m),
{
    let r3 = enc_opt_blob(m.context);
    let r2 = enc_group_list(m.equalities) + r3;
    let r1 = enc_param_list(m.setup_params) + r2;
    assert(enc_spec(m) =~= enc_statement_list(m.statements) + r1);
    lemma_statement_inverts();
    lemma_list_round_trip(m.statements, r1, |x: StatementModel| enc_statement(x), |x: Seq<u8>| parse_statement(x), |x: StatementModel| statement_fits(x));
    lemma_param_inverts();
    lemma_list_round_trip(m.setup_params, r2, |x: SetupParamModel| enc_param(x), |x: Seq<u8>| parse_param(x), |x: SetupParamModel| param_fits(x));
    lemma_pair_list_inverts();
    lemma_list_round_trip(m.equalities, r3, |x: Seq<(usize, usize)>| enc_pair_list(x), |x: Seq<u8>| parse_pair_list(x), |x: Seq<(usize, usize)>| pair_list_fits(x));
    lemma_opt_blob_round_trip(m.context, Seq::empty());
    assert(r3 + Seq::<u8>::empty() =~= r3);
}


// ---------------------------------------------------------------------------
// Executable encoding
// ---------------------------------------------------------------------------

fn write_pair(out: &mut Vec<u8>, p: &(usize, usize))
    ensures
        final(out)@ == old(out)@ + enc_pair(*p),
{
    write_usize(out, p.0);
    write_usize(out, p.1);
    assert(final(out)@ =~= old(out)@ + enc_pair(*p));
}

fn write_indexed(out: &mut Vec<u8>, e: &(usize, Bytes))
    ensures
        final(out)@ == old(out)@ + enc_indexed((e.0, e.1@)),
{
    write_usize(out, e.0);
    write_blob(out, &e.1);
    assert(final(out)@ =~= old(out)@ + enc_indexed((e.0, e.1@)));
}

fn write_statement(out: &mut Vec<u8>, s: &Statement)
    ensures
        final(out)@ == old(out)@ + enc_statement(s@),
{
    match s {
        Statement::SignatureKnowledge { params, public_key, revealed } => {
            out.push(0u8);
            write_usize(out, *params);
            write_blob(out, public_key);
            write_indexed_list(out, revealed);
        },
        Statement::PedersenOpening { bases, commitment } => {
            out.push(1u8);
            write_usize(out, *bases);
            write_blob(out, commitment);
        },
        Statement::AccumulatorMembership { params, public_key, proving_key, accumulated } => {
            out.push(2u8);
            write_usize(out, *params);
            write_blob(out, public_key);
            write_usize(out, *proving_key);
            write_blob(out, accumulated);
        },
        Statement::AccumulatorNonMembership { params, public_key, proving_key, accumulated } => {
            out.push(3u8);
            write_usize(out, *params);
            write_blob(out, public_key);
            write_usize(out, *proving_key);
            write_blob(out, accumulated);
        },
    }
    assert(final(out)@ =~= old(out)@ + enc_statement(s@));
}

fn write_param(out: &mut Vec<u8>, p: &SetupParam)
    ensures
        final(out)@ == old(out)@ + enc_param(p@),
{
    match p {
        SetupParam::SignatureParams(b) => {
            out.push(0u8);
            write_blob(out, b);
        },
        SetupParam::PedersenBases(bs) => {
            out.push(1u8);
            write_blob_list(out, bs);
        },
        SetupParam::AccumulatorParams(b) => {
            out.push(2u8);
            write_blob(out, b);
        },
        SetupParam::MembershipProvingKey(b) => {
            out.push(3u8);
            write_blob(out, b);
        },
        SetupParam::NonMembershipProvingKey(b) => {
            out.push(4u8);
            write_blob(out, b);
        },
    }
    assert(final(out)@ =~= old(out)@ + enc_param(p@));
}

fn write_group(out: &mut Vec<u8>, g: &EqualityGroup)
    ensures
        final(out)@ == old(out)@ + enc_pair_list(g@),
{
    write_pair_list(out, &g.refs);
}


pub fn write_blob_list(out: &mut Vec<u8>, v: &Vec<Bytes>)
    ensures
        final(out)@ == old(out)@ + enc_blob_list(blobs_view(v@)),
{
    let ghost f = |x: Seq<u8>| enc_blob(x);
    let ghost start = out@;
    write_usize(out, v.len());
    let mut i: usize = 0;
    while i < v.len()
        invariant
            i <= v@.len(),
            f == (|x: Seq<u8>| enc_blob(x)),
            out@ == start + enc_usize(v@.len() as usize) + enc_items(blobs_view(v@).take(i as int), f),
        decreases v@.len() - i,
    {
        write_blob(out, &v[i]);
        proof {
            let xs = blobs_view(v@).take(i + 1);
            assert(xs.drop_last() =~= blobs_view(v@).take(i as int));
            assert(xs.last() == v@[i as int]@);
            assert(enc_items(xs, f) == enc_items(xs.drop_last(), f) + enc_blob(v@[i as int]@));
            assert(out@ =~= start + enc_usize(v@.len() as usize) + enc_items(xs, f));
        }
        i = i + 1;
    }
    assert(blobs_view(v@).take(v@.len() as int) =~= blobs_view(v@));
}


pub fn write_pair_list(out: &mut Vec<u8>, v: &Vec<(usize, usize)>)
    ensures
        final(out)@ == old(out)@ + enc_pair_list(pairs_view(v@)),
{
    let ghost f = |x: (usize, usize)| enc_pair(x);
    let ghost start = out@;
    write_usize(out, v.len());
    let mut i: usize = 0;
    while i < v.len()
        invariant
            i <= v@.len(),
            f == (|x: (usize, usize)| enc_pair(x)),
            out@ == start + enc_usize(v@.len() as usize) + enc_items(pairs_view(v@).take(i as int), f),
        decreases v@.len() - i,
    {
        write_pair(out, &v[i]);
        proof {
            let xs = pairs_view(v@).take(i + 1);
            assert(xs.drop_last() =~= pairs_view(v@).take(i as int));
            assert(xs.last() == v@[i as int]);
            assert(enc_items(xs, f) == enc_items(xs.drop_last(), f) + enc_pair(v@[i as int]));
            assert(out@ =~= start + enc_usize(v@.len() as usize) + enc_items(xs, f));
        }
        i = i + 1;
    }
    assert(pairs_view(v@).take(v@.len() as int) =~= pairs_view(v@));
}


pub fn write_indexed_list(out: &mut Vec<u8>, v: &Vec<(usize, Bytes)>)
    ensures
        final(out)@ == old(out)@ + enc_indexed_list(indexed_view(v@)),
{
    let ghost f = |x: (usize, Seq<u8>)| enc_indexed(x);
    let ghost start = out@;
    write_usize(out, v.len());
    let mut i: usize = 0;
    while i < v.len()
        invariant
            i <= v@.len(),
            f == (|x: (usize, Seq<u8>)| enc_indexed(x)),
            out@ == start + enc_usize(v@.len() as usize) + enc_items(indexed_view(v@).take(i as int), f),
        decreases v@.len() - i,
    {
        write_indexed(out, &v[i]);
        proof {
            let xs = indexed_view(v@).take(i + 1);
            assert(xs.drop_last() =~= indexed_view(v@).take(i as int));
            assert(xs.last() == (v@[i as int].0, v@[i as int].1@));
            assert(enc_items(xs, f) == enc_items(xs.drop_last(), f) + enc_indexed((v@[i as int].0, v@[i as int].1@)));
            assert(out@ =~= start + enc_usize(v@.len() as usize) + enc_items(xs, f));
        }
        i = i + 1;
    }
    assert(indexed_view(v@).take(v@.len() as int) =~= indexed_view(v@));
}


pub fn write_statement_list(out: &mut Vec<u8>, v: &Vec<Statement>)
    ensures
        final(out)@ == old(out)@ + enc_statement_list(statements_view(v@)),
{
    let ghost f = |x: StatementModel| enc_statement(x);
    let ghost start = out@;
    write_usize(out, v.len());
    let mut i: usize = 0;
    while i < v.len()
        invariant
            i <= v@.len(),
            f == (|x: StatementModel| enc_statement(x)),
            out@ == start + enc_usize(v@.len() as usize) + enc_items(statements_view(v@).take(i as int), f),
        decreases v@.len() - i,
    {
        write_statement(out, &v[i]);
        proof {
            let xs = statements_view(v@).take(i + 1);
            assert(xs.drop_last() =~= statements_view(v@).take(i as int));
            assert(xs.last() == v@[i as int]@);
            assert(enc_items(xs, f) == enc_items(xs.drop_last(), f) + enc_statement(v@[i as int]@));
            assert(out@ =~= start + enc_usize(v@.len() as usize) + enc_items(xs, f));
        }
        i = i + 1;
    }
    assert(statements_view(v@).take(v@.len() as int) =~= statements_view(v@));
}


pub fn write_param_list(out: &mut Vec<u8>, v: &Vec<SetupParam>)
    ensures
        final(out)@ == old(out)@ + enc_param_list(params_view(v@)),
{
    let ghost f = |x: SetupParamModel| enc_param(x);
    let ghost start = out@;
    write_usize(out, v.len());
    let mut i: usize = 0;
    while i < v.len()
        invariant
            i <= v@.len(),
            f == (|x: SetupParamModel| enc_param(x)),
            out@ == start + enc_usize(v@.len() as usize) + enc_items(params_view(v@).take(i as int), f),
        decreases v@.len() - i,
    {
        write_param(out, &v[i]);
        proof {
            let xs = params_view(v@).take(i + 1);
            assert(xs.drop_last() =~= params_view(v@).take(i as int));
            assert(xs.last() == v@[i as int]@);
            assert(enc_items(xs, f) == enc_items(xs.drop_last(), f) + enc_param(v@[i as int]@));
            assert(out@ =~= start + enc_usize(v@.len() as usize) + enc_items(xs, f));
        }
        i = i + 1;
    }
    assert(params_view(v@).take(v@.len() as int) =~= params_view(v@));
}


pub fn write_group_list(out: &mut Vec<u8>, v: &Vec<EqualityGroup>)
    ensures
        final(out)@ == old(out)@ + enc_group_list(groups_view(v@)),
{
    let ghost f = |x: Seq<(usize, usize)>| enc_pair_list(x);
    let ghost start = out@;
    write_usize(out, v.len());
    let mut i: usize = 0;
    while i < v.len()
        invariant
            i <= v@.len(),
            f == (|x: Seq<(usize, usize)>| enc_pair_list(x)),
            out@ == start + enc_usize(v@.len() as usize) + enc_items(groups_view(v@).take(i as int), f),
        decreases v@.len() - i,
    {
        write_group(out, &v[i]);
        proof {
            let xs = groups_view(v@).take(i + 1);
            assert(xs.drop_last() =~= groups_view(v@).take(i as int));
            assert(xs.last() == v@[i as int]@);
            assert(enc_items(xs, f) == enc_items(xs.drop_last(), f) + enc_pair_list(v@[i as int]@));
            assert(out@ =~= start + enc_usize(v@.len() as usize) + enc_items(xs, f));
        }
        i = i + 1;
    }
    assert(groups_view(v@).take(v@.len() as int) =~= groups_view(v@));
}


// ---------------------------------------------------------------------------
// Executable decoding
// ---------------------------------------------------------------------------

proof fn lemma_items_stop<T>(s: Seq<u8>, k: nat, n: nat, p: spec_fn(Seq<u8>) -> Option<(T, Seq<u8>)>)
    requires
        k < n,
        parse_items(s, k, p) matches Some((xs, r)) && p(r) is None,
    ensures
        parse_items(s, n, p) is None,
    decreases n,
{
    if n > k + 1 {
        lemma_items_stop(s, k, (n - 1) as nat, p);
    }
}

fn read_usize(data: &Vec<u8>, pos: usize) -> (r: Option<(usize, usize)>)
    requires
        pos <= data@.len(),
    ensures
        match r {
            Some((v, p)) => pos <= p <= data@.len() && parse_usize(tail(data@, pos as int)) == Some(
                (v, tail(data@, p as int)),
            ),
            None => parse_usize(tail(data@, pos as int)) is None,
        },
{
    if data.len() - pos < 8 {
        return None;
    }
    let v: u64 = (data[pos] as u64) | ((data[pos + 1] as u64) << 8u64) | ((data[pos + 2] as u64)
        << 16u64) | ((data[pos + 3] as u64) << 24u64) | ((data[pos + 4] as u64) << 32u64) | ((data[pos
        + 5] as u64) << 40u64) | ((data[pos + 6] as u64) << 48u64) | ((data[pos + 7] as u64) << 56u64);
    let ghost t = tail(data@, pos as int);
    assert(t[0] == data@[pos as int] && t[1] == data@[pos + 1] && t[2] == data@[pos + 2] && t[3]
        == data@[pos + 3]);
    assert(t[4] == data@[pos + 4] && t[5] == data@[pos + 5] && t[6] == data@[pos + 6] && t[7]
        == data@[pos + 7]);
    assert(v == read_le64(t));
    if v > usize::MAX as u64 {
        return None;
    }
    assert(t.skip(8) =~= tail(data@, pos + 8));
    Some((v as usize, pos + 8))
}

fn read_blob(data: &Vec<u8>, pos: usize) -> (r: Option<(Bytes, usize)>)
    requires
        pos <= data@.len(),
    ensures
        match r {
            Some((b, p)) => pos <= p <= data@.len() && parse_blob(tail(data@, pos as int)) == Some(
                (b@, tail(data@, p as int)),
            ),
            None => parse_blob(tail(data@, pos as int)) is None,
        },
{
    let (n, at) = match read_usize(data, pos) {
        Some(x) => x,
        None => return None,
    };
    if n > data.len() - at {
        return None;
    }
    let mut b: Vec<u8> = Vec::new();
    let mut k: usize = 0;
    while k < n
        invariant
            at + n <= data@.len(),
            data@.len() == data.len(),
            k <= n,
            b@ == data@.subrange(at as int, at + k),
        decreases n - k,
    {
        b.push(data[at + k]);
        k = k + 1;
        assert(b@ =~= data@.subrange(at as int, at + k));
    }
    assert(tail(data@, at as int).take(n as int) =~= b@);
    assert(tail(data@, at as int).skip(n as int) =~= tail(data@, at + n));
    Some((b, at + n))
}

fn read_opt_blob(data: &Vec<u8>, pos: usize) -> (r: Option<(Option<Bytes>, usize)>)
    requires
        pos <= data@.len(),
    ensures
        match r {
            Some((o, p)) => pos <= p <= data@.len() && parse_opt_blob(tail(data@, pos as int)) == Some(
                (opt_bytes_view(o), tail(data@, p as int)),
            ),
            None => parse_opt_blob(tail(data@, pos as int)) is None,
        },
{
    if pos >= data.len() {
        return None;
    }
    assert(tail(data@, pos as int)[0] == data@[pos as int]);
    assert(tail(data@, pos as int).skip(1) =~= tail(data@, pos + 1));
    if data[pos] == 0 {
        Some((None, pos + 1))
    } else if data[pos] == 1 {
        match read_blob(data, pos + 1) {
            Some((b, p)) => Some((Some(b), p)),
            None => None,
        }
    } else {
        None
    }
}

fn read_pair(data: &Vec<u8>, pos: usize) -> (r: Option<((usize, usize), usize)>)
    requires
        pos <= data@.len(),
    ensures
        match r {
            Some((x, p)) => pos <= p <= data@.len() && parse_pair(tail(data@, pos as int)) == Some(
                (x, tail(data@, p as int)),
            ),
            None => parse_pair(tail(data@, pos as int)) is None,
        },
{
    let (a, at) = match read_usize(data, pos) {
        Some(x) => x,
        None => return None,
    };
    match read_usize(data, at) {
        Some((b, p)) => Some(((a, b), p)),
        None => None,
    }
}

fn read_indexed(data: &Vec<u8>, pos: usize) -> (r: Option<((usize, Bytes), usize)>)
    requires
        pos <= data@.len(),
    ensures
        match r {
            Some((x, p)) => pos <= p <= data@.len() && parse_indexed(tail(data@, pos as int)) == Some(
                ((x.0, x.1@), tail(data@, p as int)),
            ),
            None => parse_indexed(tail(data@, pos as int)) is None,
        },
{
    let (i, at) = match read_usize(data, pos) {
        Some(x) => x,
        None => return None,
    };
    match read_blob(data, at) {
        Some((b, p)) => Some(((i, b), p)),
        None => None,
    }
}

fn read_statement(data: &Vec<u8>, pos: usize) -> (r: Option<(Statement, usize)>)
    requires
        pos <= data@.len(),
    ensures
        match r {
            Some((x, p)) => pos <= p <= data@.len() && parse_statement(tail(data@, pos as int)) == Some(
                (x@, tail(data@, p as int)),
            ),
            None => parse_statement(tail(data@, pos as int)) is None,
        },
{
    if pos >= data.len() {
        return None;
    }
    assert(tail(data@, pos as int)[0] == data@[pos as int]);
    assert(tail(data@, pos as int).skip(1) =~= tail(data@, pos + 1));
    let tag = data[pos];
    if tag != 0 && tag != 1 && tag != 2 && tag != 3 {
        return None;
    }
    let (h, at) = match read_usize(data, pos + 1) {
        Some(x) => x,
        None => return None,
    };
    let (b, at) = match read_blob(data, at) {
        Some(x) => x,
        None => return None,
    };
    if tag == 1 {
        return Some((Statement::PedersenOpening { bases: h, commitment: b }, at));
    }
    if tag == 2 {
        let (k, at) = match read_usize(data, at) {
            Some(x) => x,
            None => return None,
        };
        return match read_blob(data, at) {
            Some((acc, p)) => Some(
                (
                    Statement::AccumulatorMembership {
                        params: h,
                        public_key: b,
                        proving_key: k,
                        accumulated: acc,
                    },
                    p,
                ),
            ),
            None => None,
        };
    }
    if tag == 3 {
        let (k, at) = match read_usize(data, at) {
            Some(x) => x,
            None => return None,
        };
        return match read_blob(data, at) {
            Some((acc, p)) => Some(
                (
                    Statement::AccumulatorNonMembership {
                        params: h,
                        public_key: b,
                        proving_key: k,
                        accumulated: acc,
                    },
                    p,
                ),
            ),
            None => None,
        };
    }
    match read_indexed_list(data, at) {
        Some((revealed, p)) => Some((Statement::SignatureKnowledge { params: h, public_key: b, revealed }, p)),
        None => None,
    }
}

fn read_param(data: &Vec<u8>, pos: usize) -> (r: Option<(SetupParam, usize)>)
    requires
        pos <= data@.len(),
    ensures
        match r {
            Some((x, p)) => pos <= p <= data@.len() && parse_param(tail(data@, pos as int)) == Some(
                (x@, tail(data@, p as int)),
            ),
            None => parse_param(tail(data@, pos as int)) is None,
        },
{
    if pos >= data.len() {
        return None;
    }
    assert(tail(data@, pos as int)[0] == data@[pos as int]);
    assert(tail(data@, pos as int).skip(1) =~= tail(data@, pos + 1));
    if data[pos] == 0 {
        match read_blob(data, pos + 1) {
            Some((b, p)) => Some((SetupParam::SignatureParams(b), p)),
            None => None,
        }
    } else if data[pos] == 1 {
        match read_blob_list(data, pos + 1) {
            Some((bs, p)) => Some((SetupParam::PedersenBases(bs), p)),
            None => None,
        }
    } else if data[pos] == 2 {
        match read_blob(data, pos + 1) {
            Some((b, p)) => Some((SetupParam::AccumulatorParams(b), p)),
            None => None,
        }
    } else if data[pos] == 3 {
        match read_blob(data, pos + 1) {
            Some((b, p)) => Some((SetupParam::MembershipProvingKey(b), p)),
            None => None,
        }
    } else if data[pos] == 4 {
        match read_blob(data, pos + 1) {
            Some((b, p)) => Some((SetupParam::NonMembershipProvingKey(b), p)),
            None => None,
        }
    } else {
        None
    }
}

fn read_group(data: &Vec<u8>, pos: usize) -> (r: Option<(EqualityGroup, usize)>)
    requires
        pos <= data@.len(),
    ensures
        match r {
            Some((x, p)) => pos <= p <= data@.len() && parse_pair_list(tail(data@, pos as int)) == Some(
                (x@, tail(data@, p as int)),
            ),
            None => parse_pair_list(tail(data@, pos as int)) is None,
        },
{
    match read_pair_list(data, pos) {
        Some((refs, p)) => Some((EqualityGroup { refs }, p)),
        None => None,
    }
}


fn read_blob_list(data: &Vec<u8>, pos: usize) -> (r: Option<(Vec<Bytes>, usize)>)
    requires
        pos <= data@.len(),
    ensures
        match r {
            Some((v, p)) => pos <= p <= data@.len() && parse_blob_list(tail(data@, pos as int)) == Some(
                (blobs_view(v@), tail(data@, p as int)),
            ),
            None => parse_blob_list(tail(data@, pos as int)) is None,
        },
{
    let ghost p = |x: Seq<u8>| parse_blob(x);
    let (n, start) = match read_usize(data, pos) {
        Some(x) => x,
        None => return None,
    };
    let ghost s0 = tail(data@, start as int);
    let mut v: Vec<Bytes> = Vec::new();
    let mut at = start;
    let mut k: usize = 0;
    while k < n
        invariant
            pos <= start <= at <= data@.len(),
            k <= n,
            v@.len() == k,
            p == (|x: Seq<u8>| parse_blob(x)),
            s0 == tail(data@, start as int),
            parse_usize(tail(data@, pos as int)) == Some((n, s0)),
            parse_items(s0, k as nat, p) == Some((blobs_view(v@), tail(data@, at as int))),
        decreases n - k,
    {
        match read_blob(data, at) {
            Some((x, next)) => {
                let ghost before = v@;
                v.push(x);
                assert(blobs_view(v@) =~= blobs_view(before).push(x@));
                at = next;
            },
            None => {
                proof {
                    lemma_items_stop(s0, k as nat, n as nat, p);
                }
                return None;
            },
        }
        k = k + 1;
    }
    Some((v, at))
}


fn read_pair_list(data: &Vec<u8>, pos: usize) -> (r: Option<(Vec<(usize, usize)>, usize)>)
    requires
        pos <= data@.len(),
    ensures
        match r {
            Some((v, p)) => pos <= p <= data@.len() && parse_pair_list(tail(data@, pos as int)) == Some(
                (pairs_view(v@), tail(data@, p as int)),
            ),
            None => parse_pair_list(tail(data@, pos as int)) is None,
        },
{
    let ghost p = |x: Seq<u8>| parse_pair(x);
    let (n, start) = match read_usize(data, pos) {
        Some(x) => x,
        None => return None,
    };
    let ghost s0 = tail(data@, start as int);
    let mut v: Vec<(usize, usize)> = Vec::new();
    let mut at = start;
    let mut k: usize = 0;
    while k < n
        invariant
            pos <= start <= at <= data@.len(),
            k <= n,
            v@.len() == k,
            p == (|x: Seq<u8>| parse_pair(x)),
            s0 == tail(data@, start as int),
            parse_usize(tail(data@, pos as int)) == Some((n, s0)),
            parse_items(s0, k as nat, p) == Some((pairs_view(v@), tail(data@, at as int))),
        decreases n - k,
    {
        match read_pair(data, at) {
            Some((x, next)) => {
                let ghost before = v@;
                v.push(x);
                assert(pairs_view(v@) =~= pairs_view(before).push(x));
                at = next;
            },
            None => {
                proof {
                    lemma_items_stop(s0, k as nat, n as nat, p);
                }
                return None;
            },
        }
        k = k + 1;
    }
    Some((v, at))
}


fn read_indexed_list(data: &Vec<u8>, pos: usize) -> (r: Option<(Vec<(usize, Bytes)>, usize)>)
    requires
        pos <= data@.len(),
    ensures
        match r {
            Some((v, p)) => pos <= p <= data@.len() && parse_indexed_list(tail(data@, pos as int)) == Some(
                (indexed_view(v@), tail(data@, p as int)),
            ),
            None => parse_indexed_list(tail(data@, pos as int)) is None,
        },
{
    let ghost p = |x: Seq<u8>| parse_indexed(x);
    let (n, start) = match read_usize(data, pos) {
        Some(x) => x,
        None => return None,
    };
    let ghost s0 = tail(data@, start as int);
    let mut v: Vec<(usize, Bytes)> = Vec::new();
    let mut at = start;
    let mut k: usize = 0;
    while k < n
        invariant
            pos <= start <= at <= data@.len(),
            k <= n,
            v@.len() == k,
            p == (|x: Seq<u8>| parse_indexed(x)),
            s0 == tail(data@, start as int),
            parse_usize(tail(data@, pos as int)) == Some((n, s0)),
            parse_items(s0, k as nat, p) == Some((indexed_view(v@), tail(data@, at as int))),
        decreases n - k,
    {
        match read_indexed(data, at) {
            Some((x, next)) => {
                let ghost before = v@;
                v.push(x);
                assert(indexed_view(v@) =~= indexed_view(before).push((x.0, x.1@)));
                at = next;
            },
            None => {
                proof {
                    lemma_items_stop(s0, k as nat, n as nat, p);
                }
                return None;
            },
        }
        k = k + 1;
    }
    Some((v, at))
}


fn read_statement_list(data: &Vec<u8>, pos: usize) -> (r: Option<(Vec<Statement>, usize)>)
    requires
        pos <= data@.len(),
    ensures
        match r {
            Some((v, p)) => pos <= p <= data@.len() && parse_statement_list(tail(data@, pos as int)) == Some(
                (statements_view(v@), tail(data@, p as int)),
            ),
            None => parse_statement_list(tail(data@, pos as int)) is None,
        },
{
    let ghost p = |x: Seq<u8>| parse_statement(x);
    let (n, start) = match read_usize(data, pos) {
        Some(x) => x,
        None => return None,
    };
    let ghost s0 = tail(data@, start as int);
    let mut v: Vec<Statement> = Vec::new();
    let mut at = start;
    let mut k: usize = 0;
    while k < n
        invariant
            pos <= start <= at <= data@.len(),
            k <= n,
            v@.len() == k,
            p == (|x: Seq<u8>| parse_statement(x)),
            s0 == tail(data@, start as int),
            parse_usize(tail(data@, pos as int)) == Some((n, s0)),
            parse_items(s0, k as nat, p) == Some((statements_view(v@), tail(data@, at as int))),
        decreases n - k,
    {
        match read_statement(data, at) {
            Some((x, next)) => {
                let ghost before = v@;
                v.push(x);
                assert(statements_view(v@) =~= statements_view(before).push(x@));
                at = next;
            },
            None => {
                proof {
                    lemma_items_stop(s0, k as nat, n as nat, p);
                }
                return None;
            },
        }
        k = k + 1;
    }
    Some((v, at))
}


fn read_param_list(data: &Vec<u8>, pos: usize) -> (r: Option<(Vec<SetupParam>, usize)>)
    requires
        pos <= data@.len(),
    ensures
        match r {
            Some((v, p)) => pos <= p <= data@.len() && parse_param_list(tail(data@, pos as int)) == Some(
                (params_view(v@), tail(data@, p as int)),
            ),
            None => parse_param_list(tail(data@, pos as int)) is None,
        },
{
    let ghost p = |x: Seq<u8>| parse_param(x);
    let (n, start) = match read_usize(data, pos) {
        Some(x) => x,
        None => return None,
    };
    let ghost s0 = tail(data@, start as int);
    let mut v: Vec<SetupParam> = Vec::new();
    let mut at = start;
    let mut k: usize = 0;
    while k < n
        invariant
            pos <= start <= at <= data@.len(),
            k <= n,
            v@.len() == k,
            p == (|x: Seq<u8>| parse_param(x)),
            s0 == tail(data@, start as int),
            parse_usize(tail(data@, pos as int)) == Some((n, s0)),
            parse_items(s0, k as nat, p) == Some((params_view(v@), tail(data@, at as int))),
        decreases n - k,
    {
        match read_param(data, at) {
            Some((x, next)) => {
                let ghost before = v@;
                v.push(x);
                assert(params_view(v@) =~= params_view(before).push(x@));
                at = next;
            },
            None => {
                proof {
                    lemma_items_stop(s0, k as nat, n as nat, p);
                }
                return None;
            },
        }
        k = k + 1;
    }
    Some((v, at))
}


fn read_group_list(data: &Vec<u8>, pos: usize) -> (r: Option<(Vec<EqualityGroup>, usize)>)
    requires
        pos <= data@.len(),
    ensures
        match r {
            Some((v, p)) => pos <= p <= data@.len() && parse_group_list(tail(data@, pos as int)) == Some(
                (groups_view(v@), tail(data@, p as int)),
            ),
            None => parse_group_list(tail(data@, pos as int)) is None,
        },
{
    let ghost p = |x: Seq<u8>| parse_pair_list(x);
    let (n, start) = match read_usize(data, pos) {
        Some(x) => x,
        None => return None,
    };
    let ghost s0 = tail(data@, start as int);
    let mut v: Vec<EqualityGroup> = Vec::new();
    let mut at = start;
    let mut k: usize = 0;
    while k < n
        invariant
            pos <= start <= at <= data@.len(),
            k <= n,
            v@.len() == k,
            p == (|x: Seq<u8>| parse_pair_list(x)),
            s0 == tail(data@, start as int),
            parse_usize(tail(data@, pos as int)) == Some((n, s0)),
            parse_items(s0, k as nat, p) == Some((groups_view(v@), tail(data@, at as int))),
        decreases n - k,
    {
        match read_group(data, at) {
            Some((x, next)) => {
                let ghost before = v@;
                v.push(x);
                assert(groups_view(v@) =~= groups_view(before).push(x@));
                at = next;
            },
            None => {
                proof {
                    lemma_items_stop(s0, k as nat, n as nat, p);
                }
                return None;
            },
        }
        k = k + 1;
    }
    Some((v, at))
}


// ---------------------------------------------------------------------------
// Proof specifications
// ---------------------------------------------------------------------------

/// The canonical encoding of `spec`.
pub fn encode_proof_spec(spec: &ProofSpec) -> (r: Vec<u8>)
    ensures
        r@ == enc_spec(spec@),
{
    let mut out: Vec<u8> = Vec::new();
    write_statement_list(&mut out, &spec.statements);
    write_param_list(&mut out, &spec.setup_params);
    write_group_list(&mut out, &spec.equalities);
    write_opt_blob(&mut out, &spec.context);
    assert(out@ =~= enc_spec(spec@));
    out
}

/// Decodes a proof specification from its canonical encoding.
pub fn decode_proof_spec(bytes: &Vec<u8>) -> (r: Option<ProofSpec>)
    ensures
        match r {
            Some(spec) => parse_spec(bytes@) == Some(spec@),
            None => parse_spec(bytes@) is None,
        },
{
    assert(tail(bytes@, 0) =~= bytes@);
    let (statements, at) = match read_statement_list(bytes, 0) {
        Some(x) => x,
        None => return None,
    };
    let (setup_params, at) = match read_param_list(bytes, at) {
        Some(x) => x,
        None => return None,
    };
    let (equalities, at) = match read_group_list(bytes, at) {
        Some(x) => x,
        None => return None,
    };
    let (context, at) = match read_opt_blob(bytes, at) {
        Some(x) => x,
        None => return None,
    };
    if at != bytes.len() {
        return None;
    }
    let spec = ProofSpec { statements, setup_params, equalities, context };
    assert(spec@.context == opt_bytes_view(spec.context));
    Some(spec)
}


proof fn lemma_vec_fits<T>(v: Vec<T>)
    ensures
        v@.len() <= usize::MAX,
{
    assert(v.len() == v@.len());
}

proof fn lemma_blobs_fit(v: Vec<Bytes>)
    ensures
        blob_list_fits(blobs_view(v@)),
{
    lemma_vec_fits(v);
    assert forall|k: int| 0 <= k < v@.len() implies fits(#[trigger] blobs_view(v@)[k]) by {
        lemma_vec_fits(v@[k]);
    }
}

proof fn lemma_statement_fits(s: Statement)
    ensures
        statement_fits(s@),
{
    match s {
        Statement::SignatureKnowledge { public_key, revealed, .. } => {
            lemma_vec_fits(public_key);
            lemma_vec_fits(revealed);
            assert forall|k: int| 0 <= k < revealed@.len() implies indexed_fits(
                #[trigger] indexed_view(revealed@)[k],
            ) by {
                lemma_vec_fits(revealed@[k].1);
            }
        },
        Statement::PedersenOpening { commitment, .. } => {
            lemma_vec_fits(commitment);
        },
        Statement::AccumulatorMembership { public_key, accumulated, .. } => {
            lemma_vec_fits(public_key);
            lemma_vec_fits(accumulated);
        },
        Statement::AccumulatorNonMembership { public_key, accumulated, .. } => {
            lemma_vec_fits(public_key);
            lemma_vec_fits(accumulated);
        },
    }
}

proof fn lemma_param_fits(p: SetupParam)
    ensures
        param_fits(p@),
{
    match p {
        SetupParam::SignatureParams(b) => lemma_vec_fits(b),
        SetupParam::PedersenBases(bs) => lemma_blobs_fit(bs),
        SetupParam::AccumulatorParams(b) => lemma_vec_fits(b),
        SetupParam::MembershipProvingKey(b) => lemma_vec_fits(b),
        SetupParam::NonMembershipProvingKey(b) => lemma_vec_fits(b),
    }
}

proof fn lemma_view_fits(spec: ProofSpec)
    ensures
        spec_fits(spec@),
{
    lemma_vec_fits(spec.statements);
    lemma_vec_fits(spec.setup_params);
    lemma_vec_fits(spec.equalities);
    assert forall|i: int| 0 <= i < spec.statements@.len() implies statement_fits(
        #[trigger] statements_view(spec.statements@)[i],
    ) by {
        lemma_statement_fits(spec.statements@[i]);
    }
    assert forall|i: int| 0 <= i < spec.setup_params@.len() implies param_fits(
        #[trigger] params_view(spec.setup_params@)[i],
    ) by {
        lemma_param_fits(spec.setup_params@[i]);
    }
    assert forall|i: int| 0 <= i < spec.equalities@.len() implies pair_list_fits(
        #[trigger] groups_view(spec.equalities@)[i],
    ) by {
        lemma_vec_fits(spec.equalities@[i].refs);
    }
    match spec.context {
        Some(c) => lemma_vec_fits(c),
        None => {},
    }
}

/// Every proof specification decodes from its canonical encoding to itself, so that
/// `decode_proof_spec(&encode_proof_spec(s))` gives back `s`.
pub proof fn lemma_proof_spec_round_trip(spec: ProofSpec)
    ensures
        parse_spec(enc_spec(spec@)) == Some(spec@),
{
    lemma_view_fits(spec);
    lemma_spec_round_trip(spec@);
}


// ---------------------------------------------------------------------------
// Proofs
// ---------------------------------------------------------------------------

pub open spec fn enc_sub_proof(p: StatementProofModel) -> Seq<u8> {
    match p {
        StatementProofModel::SignatureKnowledge { proof } => seq![0u8] + enc_blob(proof),
        StatementProofModel::PedersenOpening { t, responses } => seq![1u8] + enc_blob(t) + enc_blob_list(
            responses,
        ),
        StatementProofModel::AccumulatorMembership { proof } => seq![2u8] + enc_blob(proof),
        StatementProofModel::AccumulatorNonMembership { proof } => seq![3u8] + enc_blob(proof),
    }
}

pub open spec fn parse_sub_proof(s: Seq<u8>) -> Option<(StatementProofModel, Seq<u8>)> {
    if s.len() == 0 {
        None
    } else if s[0] == 0 {
        match parse_blob(s.skip(1)) {
            Some((proof, r)) => Some((StatementProofModel::SignatureKnowledge { proof }, r)),
            None => None,
        }
    } else if s[0] == 1 {
        match parse_blob(s.skip(1)) {
            Some((t, r1)) => match parse_blob_list(r1) {
                Some((responses, r2)) => Some((StatementProofModel::PedersenOpening { t, responses }, r2)),
                None => None,
            },
            None => None,
        }
    } else if s[0] == 2 {
        match parse_blob(s.skip(1)) {
            Some((proof, r)) => Some((StatementProofModel::AccumulatorMembership { proof }, r)),
            None => None,
        }
    } else if s[0] == 3 {
        match parse_blob(s.skip(1)) {
            Some((proof, r)) => Some((StatementProofModel::AccumulatorNonMembership { proof }, r)),
            None => None,
        }
    } else {
        None
    }
}

pub open spec fn sub_proof_fits(p: StatementProofModel) -> bool {
    match p {
        StatementProofModel::SignatureKnowledge { proof } => fits(proof),
        StatementProofModel::PedersenOpening { t, responses } => fits(t) && blob_list_fits(responses),
        StatementProofModel::AccumulatorMembership { proof } => fits(proof),
        StatementProofModel::AccumulatorNonMembership { proof } => fits(proof),
    }
}

pub open spec fn enc_sub_proof_list(xs: Seq<StatementProofModel>) -> Seq<u8> {
    enc_list(xs, |x: StatementProofModel| enc_sub_proof(x))
}

pub open spec fn parse_sub_proof_list(s: Seq<u8>) -> Option<(Seq<StatementProofModel>, Seq<u8>)> {
    parse_list(s, |x: Seq<u8>| parse_sub_proof(x))
}

/// Decoding of a whole byte string as a proof; trailing bytes are refused.
pub open spec fn parse_proof(s: Seq<u8>) -> Option<Seq<StatementProofModel>> {
    match parse_sub_proof_list(s) {
        Some((ps, r)) => if r.len() == 0 {
            Some(ps)
        } else {
            None
        },
        None => None,
    }
}

proof fn lemma_sub_proof_inverts()
    ensures
        inverts(|x: StatementProofModel| enc_sub_proof(x), |x: Seq<u8>| parse_sub_proof(x), |x: StatementProofModel| sub_proof_fits(x)),
{
    assert forall|p: StatementProofModel, rest: Seq<u8>| sub_proof_fits(p) implies #[trigger] parse_sub_proof(enc_sub_proof(p) + rest)
        == Some((p, rest)) by {
        let s = enc_sub_proof(p) + rest;
        match p {
            StatementProofModel::SignatureKnowledge { proof } => {
                assert(s.skip(1) =~= enc_blob(proof) + rest);
                lemma_blob_round_trip(proof, rest);
            },
            StatementProofModel::PedersenOpening { t, responses } => {
                let r1 = enc_blob_list(responses) + rest;
                assert(s.skip(1) =~= enc_blob(t) + r1);
                lemma_blob_round_trip(t, r1);
                lemma_blob_list_round_trip(responses, rest);
            },
            StatementProofModel::AccumulatorMembership { proof } => {
                assert(s.skip(1) =~= enc_blob(proof) + rest);
                lemma_blob_round_trip(proof, rest);
            },
            StatementProofModel::AccumulatorNonMembership { proof } => {
                assert(s.skip(1) =~= enc_blob(proof) + rest);
                lemma_blob_round_trip(proof, rest);
            },
        }
    }
}

fn write_sub_proof(out: &mut Vec<u8>, p: &StatementProof)
    ensures
        final(out)@ == old(out)@ + enc_sub_proof(p@),
{
    match p {
        StatementProof::SignatureKnowledge { proof } => {
            out.push(0u8);
            write_blob(out, proof);
        },
        StatementProof::PedersenOpening { t, responses } => {
            out.push(1u8);
            write_blob(out, t);
            write_blob_list(out, responses);
        },
        StatementProof::AccumulatorMembership { proof } => {
            out.push(2u8);
            write_blob(out, proof);
        },
        StatementProof::AccumulatorNonMembership { proof } => {
            out.push(3u8);
            write_blob(out, proof);
        },
    }
    assert(final(out)@ =~= old(out)@ + enc_sub_proof(p@));
}

pub fn write_sub_proof_list(out: &mut Vec<u8>, v: &Vec<StatementProof>)
    ensures
        final(out)@ == old(out)@ + enc_sub_proof_list(sub_proofs_view(v@)),
{
    let ghost f = |x: StatementProofModel| enc_sub_proof(x);
    let ghost start = out@;
    write_usize(out, v.len());
    let mut i: usize = 0;
    while i < v.len()
        invariant
            i <= v@.len(),
            f == (|x: StatementProofModel| enc_sub_proof(x)),
            out@ == start + enc_usize(v@.len() as usize) + enc_items(sub_proofs_view(v@).take(i as int), f),
        decreases v@.len() - i,
    {
        write_sub_proof(out, &v[i]);
        proof {
            let xs = sub_proofs_view(v@).take(i + 1);
            assert(xs.drop_last() =~= sub_proofs_view(v@).take(i as int));
            assert(xs.last() == v@[i as int]@);
            assert(enc_items(xs, f) == enc_items(xs.drop_last(), f) + enc_sub_proof(v@[i as int]@));
            assert(out@ =~= start + enc_usize(v@.len() as usize) + enc_items(xs, f));
        }
        i = i + 1;
    }
    assert(sub_proofs_view(v@).take(v@.len() as int) =~= sub_proofs_view(v@));
}

fn read_sub_proof(data: &Vec<u8>, pos: usize) -> (r: Option<(StatementProof, usize)>)
    requires
        pos <= data@.len(),
    ensures
        match r {
            Some((x, p)) => pos <= p <= data@.len() && parse_sub_proof(tail(data@, pos as int)) == Some(
                (x@, tail(data@, p as int)),
            ),
            None => parse_sub_proof(tail(data@, pos as int)) is None,
        },
{
    if pos >= data.len() {
        return None;
    }
    assert(tail(data@, pos as int)[0] == data@[pos as int]);
    assert(tail(data@, pos as int).skip(1) =~= tail(data@, pos + 1));
    let tag = data[pos];
    if tag != 0 && tag != 1 && tag != 2 && tag != 3 {
        return None;
    }
    let (b, at) = match read_blob(data, pos + 1) {
        Some(x) => x,
        None => return None,
    };
    if tag == 0 {
        return Some((StatementProof::SignatureKnowledge { proof: b }, at));
    }
    if tag == 2 {
        return Some((StatementProof::AccumulatorMembership { proof: b }, at));
    }
    if tag == 3 {
        return Some((StatementProof::AccumulatorNonMembership { proof: b }, at));
    }
    match read_blob_list(data, at) {
        Some((responses, p)) => Some((StatementProof::PedersenOpening { t: b, responses }, p)),
        None => None,
    }
}

fn read_sub_proof_list(data: &Vec<u8>, pos: usize) -> (r: Option<(Vec<StatementProof>, usize)>)
    requires
        pos <= data@.len(),
    ensures
        match r {
            Some((v, p)) => pos <= p <= data@.len() && parse_sub_proof_list(tail(data@, pos as int)) == Some(
                (sub_proofs_view(v@), tail(data@, p as int)),
            ),
            None => parse_sub_proof_list(tail(data@, pos as int)) is None,
        },
{
    let ghost p = |x: Seq<u8>| parse_sub_proof(x);
    let (n, start) = match read_usize(data, pos) {
        Some(x) => x,
        None => return None,
    };
    let ghost s0 = tail(data@, start as int);
    let mut v: Vec<StatementProof> = Vec::new();
    let mut at = start;
    let mut k: usize = 0;
    while k < n
        invariant
            pos <= start <= at <= data@.len(),
            k <= n,
            v@.len() == k,
            p == (|x: Seq<u8>| parse_sub_proof(x)),
            s0 == tail(data@, start as int),
            parse_usize(tail(data@, pos as int)) == Some((n, s0)),
            parse_items(s0, k as nat, p) == Some((sub_proofs_view(v@), tail(data@, at as int))),
        decreases n - k,
    {
        match read_sub_proof(data, at) {
            Some((x, next)) => {
                let ghost before = v@;
                v.push(x);
                assert(sub_proofs_view(v@) =~= sub_proofs_view(before).push(x@));
                at = next;
            },
            None => {
                proof {
                    lemma_items_stop(s0, k as nat, n as nat, p);
                }
                return None;
            },
        }
        k = k + 1;
    }
    Some((v, at))
}

/// The canonical encoding of a proof.
pub fn encode_proof(proof: &Proof) -> (r: Vec<u8>)
    ensures
        r@ == enc_sub_proof_list(proof@),
{
    let mut out: Vec<u8> = Vec::new();
    write_sub_proof_list(&mut out, &proof.statement_proofs);
    out
}

/// Decodes a proof from its canonical encoding.
pub fn decode_proof(bytes: &Vec<u8>) -> (r: Option<Proof>)
    ensures
        match r {
            Some(p) => parse_proof(bytes@) == Some(p@),
            None => parse_proof(bytes@) is None,
        },
{
    assert(tail(bytes@, 0) =~= bytes@);
    match read_sub_proof_list(bytes, 0) {
        Some((statement_proofs, at)) => if at == bytes.len() {
            Some(Proof { statement_proofs })
        } else {
            None
        },
        None => None,
    }
}

proof fn lemma_sub_proof_fits(p: StatementProof)
    ensures
        sub_proof_fits(p@),
{
    match p {
        StatementProof::SignatureKnowledge { proof } => lemma_vec_fits(proof),
        StatementProof::PedersenOpening { t, responses } => {
            lemma_vec_fits(t);
            lemma_blobs_fit(responses);
        },
        StatementProof::AccumulatorMembership { proof } => lemma_vec_fits(proof),
        StatementProof::AccumulatorNonMembership { proof } => lemma_vec_fits(proof),
    }
}

/// Every proof decodes from its canonical encoding to itself.
pub proof fn lemma_proof_round_trip(proof: Proof)
    ensures
        parse_proof(enc_sub_proof_list(proof@)) == Some(proof@),
{
    let v = proof.statement_proofs;
    lemma_vec_fits(v);
    assert forall|i: int| 0 <= i < v@.len() implies sub_proof_fits(#[trigger] sub_proofs_view(v@)[i]) by {
        lemma_sub_proof_fits(v@[i]);
    }
    lemma_sub_proof_inverts();
    lemma_list_round_trip(proof@, Seq::empty(), |x: StatementProofModel| enc_sub_proof(x), |x: Seq<u8>| parse_sub_proof(x), |x: StatementProofModel| sub_proof_fits(x));
    assert(enc_sub_proof_list(proof@) + Seq::<u8>::empty() =~= enc_sub_proof_list(proof@));
}

} // verus!
