//! The snapshot wire format: a self-contained binary encoding of the engine
//! state, with a proof that reloading a snapshot yields the state it was
//! taken of.
//!
//! Integers are little-endian 64-bit; byte strings and character strings are
//! length-prefixed; sums carry a one-byte tag. Every parser consumes exactly
//! the bytes its serializer wrote.

use vstd::prelude::*;
use vstd::bytes::{
    lemma_auto_spec_u64_to_from_le_bytes, spec_u64_from_le_bytes, spec_u64_to_le_bytes,
    u64_from_le_bytes, u64_to_le_bytes,
};
use vstd::slice::{slice_subrange, slice_to_vec};
use vstd::utf8::{decode_utf8, encode_utf8, encode_utf8_decode_utf8, encode_utf8_valid_utf8,
    valid_utf8};
use crate::metadata::{
    PersistentAux, PersistentAuxView, PieceMetadata, PieceMetadataView, SealStatus, SealStatusView,
    SealTicket, SealTicketView, SealedSectorMetadata, SealedSectorMetadataView,
    StagedSectorMetadata, StagedSectorMetadataView,
};
use crate::state::{SealedState, SectorBuilderState, SectorBuilderStateView, StagedState};

verus! {

/// A byte string short enough for its length prefix.
pub open spec fn bytes_ok(b: Seq<u8>) -> bool {
    b.len() <= u64::MAX
}

/// A character string whose encoding is short enough for its length prefix.
pub open spec fn str_ok(s: Seq<char>) -> bool {
    encode_utf8(s).len() <= u64::MAX
}

/// If the bytes at `pos` read `s1 + s2`, then `s1` sits at `pos` and `s2`
/// right after it.
pub proof fn lemma_split_at(b: Seq<u8>, pos: int, s1: Seq<u8>, s2: Seq<u8>)
    requires
        0 <= pos,
        pos + s1.len() + s2.len() <= b.len(),
        b.subrange(pos, pos + s1.len() + s2.len()) == s1 + s2,
    ensures
        b.subrange(pos, pos + s1.len() as int) == s1,
        b.subrange(pos + s1.len(), pos + s1.len() + s2.len()) == s2,
{
    let whole = b.subrange(pos, pos + s1.len() + s2.len());
    assert forall|i: int| 0 <= i < s1.len() implies b.subrange(pos, pos + s1.len() as int)[i]
        == s1[i] by {
        assert(whole[i] == (s1 + s2)[i]);
    }
    assert(b.subrange(pos, pos + s1.len() as int) =~= s1);
    assert forall|i: int| 0 <= i < s2.len() implies b.subrange(
        pos + s1.len(),
        pos + s1.len() + s2.len(),
    )[i] == s2[i] by {
        assert(whole[s1.len() + i] == (s1 + s2)[s1.len() + i]);
    }
    assert(b.subrange(pos + s1.len(), pos + s1.len() + s2.len()) =~= s2);
}

pub open spec fn spec_ser_u64(n: u64) -> Seq<u8> {
    spec_u64_to_le_bytes(n)
}

pub open spec fn spec_parse_u64(b: Seq<u8>, pos: int) -> Option<(u64, int)> {
    if 0 <= pos && pos + 8 <= b.len() {
        Option::Some((spec_u64_from_le_bytes(b.subrange(pos, pos + 8)), pos + 8))
    } else {
        Option::None
    }
}

pub proof fn lemma_parse_ser_u64(b: Seq<u8>, pos: int, n: u64)
    requires
        0 <= pos,
        pos + spec_ser_u64(n).len() <= b.len(),
        b.subrange(pos, pos + spec_ser_u64(n).len() as int) == spec_ser_u64(n),
    ensures
        spec_ser_u64(n).len() == 8,
        spec_parse_u64(b, pos) == Option::Some((n, pos + 8)),
{
    lemma_auto_spec_u64_to_from_le_bytes();
}

pub open spec fn spec_ser_bytes(b: Seq<u8>) -> Seq<u8>
    recommends
        bytes_ok(b),
{
    spec_ser_u64(b.len() as u64) + b
}

pub open spec fn spec_parse_bytes(b: Seq<u8>, pos: int) -> Option<(Seq<u8>, int)> {
    match spec_parse_u64(b, pos) {
        Option::Some((n, p1)) => {
            if p1 + n <= b.len() {
                Option::Some((b.subrange(p1, p1 + n), p1 + n))
            } else {
                Option::None
            }
        },
        Option::None => Option::None,
    }
}

pub proof fn lemma_parse_ser_bytes(b: Seq<u8>, pos: int, v: Seq<u8>)
    requires
        bytes_ok(v),
        0 <= pos,
        pos + spec_ser_bytes(v).len() <= b.len(),
        b.subrange(pos, pos + spec_ser_bytes(v).len() as int) == spec_ser_bytes(v),
    ensures
        spec_ser_bytes(v).len() == 8 + v.len(),
        spec_parse_bytes(b, pos) == Option::Some((v, pos + spec_ser_bytes(v).len() as int)),
{
    lemma_auto_spec_u64_to_from_le_bytes();
    let m = v.len() as u64;
    lemma_split_at(b, pos, spec_ser_u64(m), v);
    lemma_parse_ser_u64(b, pos, m);
}

pub open spec fn spec_ser_str(s: Seq<char>) -> Seq<u8>
    recommends
        str_ok(s),
{
    spec_ser_bytes(encode_utf8(s))
}

pub open spec fn spec_parse_str(b: Seq<u8>, pos: int) -> Option<(Seq<char>, int)> {
    match spec_parse_bytes(b, pos) {
        Option::Some((bs, p1)) => {
            if valid_utf8(bs) {
                Option::Some((decode_utf8(bs), p1))
            } else {
                Option::None
            }
        },
        Option::None => Option::None,
    }
}

pub proof fn lemma_parse_ser_str(b: Seq<u8>, pos: int, s: Seq<char>)
    requires
        str_ok(s),
        0 <= pos,
        pos + spec_ser_str(s).len() <= b.len(),
        b.subrange(pos, pos + spec_ser_str(s).len() as int) == spec_ser_str(s),
    ensures
        spec_ser_str(s).len() == 8 + encode_utf8(s).len(),
        spec_parse_str(b, pos) == Option::Some((s, pos + spec_ser_str(s).len() as int)),
{
    lemma_parse_ser_bytes(b, pos, encode_utf8(s));
    encode_utf8_valid_utf8(s);
    encode_utf8_decode_utf8(s);
}

pub open spec fn spec_ser_opt_bytes(o: Option<Seq<u8>>) -> Seq<u8> {
    match o {
        Option::None => seq![0u8],
        Option::Some(v) => seq![1u8] + spec_ser_bytes(v),
    }
}

pub open spec fn spec_parse_opt_bytes(b: Seq<u8>, pos: int) -> Option<(Option<Seq<u8>>, int)> {
    if 0 <= pos && pos < b.len() {
        if b[pos] == 0u8 {
            Option::Some((Option::None, pos + 1))
        } else if b[pos] == 1u8 {
            match spec_parse_bytes(b, pos + 1) {
                Option::Some((v, p1)) => Option::Some((Option::Some(v), p1)),
                Option::None => Option::None,
            }
        } else {
            Option::None
        }
    } else {
        Option::None
    }
}

pub open spec fn opt_bytes_ok(o: Option<Seq<u8>>) -> bool {
    match o {
        Option::None => true,
        Option::Some(v) => bytes_ok(v),
    }
}

pub proof fn lemma_parse_ser_opt_bytes(b: Seq<u8>, pos: int, o: Option<Seq<u8>>)
    requires
        opt_bytes_ok(o),
        0 <= pos,
        pos + spec_ser_opt_bytes(o).len() <= b.len(),
        b.subrange(pos, pos + spec_ser_opt_bytes(o).len() as int) == spec_ser_opt_bytes(o),
    ensures
        spec_ser_opt_bytes(o).len() >= 1,
        spec_parse_opt_bytes(b, pos) == Option::Some((o, pos + spec_ser_opt_bytes(o).len() as int)),
{
    match o {
        Option::None => {
            assert(b[pos] == spec_ser_opt_bytes(o)[0]);
        },
        Option::Some(v) => {
            assert(b[pos] == spec_ser_opt_bytes(o)[0]);
            lemma_split_at(b, pos, seq![1u8], spec_ser_bytes(v));
            lemma_parse_ser_bytes(b, pos + 1, v);
        },
    }
}

/// Appends the encoding of `n`.
pub(crate) fn ser_u64(out: &mut Vec<u8>, n: u64)
    ensures
        final(out)@ == old(out)@ + spec_ser_u64(n),
{
    let mut bs = u64_to_le_bytes(n);
    out.append(&mut bs);
}

/// Appends the length-prefixed encoding of `v`.
pub(crate) fn ser_bytes(out: &mut Vec<u8>, v: &Vec<u8>)
    ensures
        final(out)@ == old(out)@ + spec_ser_bytes(v@),
        bytes_ok(v@),
{
    ser_u64(out, v.len() as u64);
    let mut payload = slice_to_vec(v.as_slice());
    out.append(&mut payload);
    proof {
        assert(final(out)@ =~= old(out)@ + spec_ser_bytes(v@));
    }
}

/// Appends the length-prefixed encoding of `s`.
fn ser_str(out: &mut Vec<u8>, s: &str)
    ensures
        final(out)@ == old(out)@ + spec_ser_str(s@),
        str_ok(s@),
{
    let bs = s.as_bytes_vec();
    ser_bytes(out, &bs);
}

/// Appends the tagged encoding of `o`.
fn ser_opt_bytes(out: &mut Vec<u8>, o: &Option<Vec<u8>>)
    ensures
        final(out)@ == old(out)@ + spec_ser_opt_bytes(match o {
            Option::Some(v) => Option::Some(v@),
            Option::None => Option::None,
        }),
        opt_bytes_ok(match o {
            Option::Some(v) => Option::Some(v@),
            Option::None => Option::None,
        }),
{
    match o {
        Option::None => {
            out.push(0u8);
            proof {
                assert(final(out)@ =~= old(out)@ + seq![0u8]);
            }
        },
        Option::Some(v) => {
            out.push(1u8);
            proof {
                assert(out@ =~= old(out)@ + seq![1u8]);
            }
            ser_bytes(out, v);
            proof {
                assert(final(out)@ =~= old(out)@ + (seq![1u8] + spec_ser_bytes(v@)));
            }
        },
    }
}

/// Reads the encoding of a `u64` at `pos`.
fn parse_u64(buf: &Vec<u8>, pos: usize) -> (r: Option<(u64, usize)>)
    ensures
        match r {
            Option::Some((n, p)) => spec_parse_u64(buf@, pos as int) == Option::Some(
                (n, p as int),
            ),
            Option::None => spec_parse_u64(buf@, pos as int) is None,
        },
{
    if pos <= buf.len() && buf.len() - pos >= 8 {
        let s = slice_subrange(buf.as_slice(), pos, pos + 8);
        let n = u64_from_le_bytes(s);
        Option::Some((n, pos + 8))
    } else {
        Option::None
    }
}

/// Reads a length-prefixed byte string at `pos`.
fn parse_bytes(buf: &Vec<u8>, pos: usize) -> (r: Option<(Vec<u8>, usize)>)
    ensures
        match r {
            Option::Some((v, p)) => spec_parse_bytes(buf@, pos as int) == Option::Some(
                (v@, p as int),
            ),
            Option::None => spec_parse_bytes(buf@, pos as int) is None,
        },
{
    match parse_u64(buf, pos) {
        Option::Some((n, p1)) => {
            if n <= (buf.len() - p1) as u64 {
                let end = p1 + (n as usize);
                let v = slice_to_vec(slice_subrange(buf.as_slice(), p1, end));
                Option::Some((v, end))
            } else {
                Option::None
            }
        },
        Option::None => Option::None,
    }
}

/// Relies on str::from_utf8: it succeeds exactly on valid UTF-8, and the
/// returned string borrows exactly the given bytes.
#[verifier::external_body]
fn bytes_to_string(v: &Vec<u8>) -> (r: Option<String>)
    ensures
        match r {
            Option::Some(s) => valid_utf8(v@) && encode_utf8(s@) == v@,
            Option::None => !valid_utf8(v@),
        },
{
    match core::str::from_utf8(v.as_slice()) {
        Result::Ok(s) => Option::Some(s.to_string()),
        Result::Err(_) => Option::None,
    }
}

/// Reads a length-prefixed character string at `pos`.
fn parse_str(buf: &Vec<u8>, pos: usize) -> (r: Option<(String, usize)>)
    ensures
        match r {
            Option::Some((s, p)) => spec_parse_str(buf@, pos as int) == Option::Some(
                (s@, p as int),
            ),
            Option::None => spec_parse_str(buf@, pos as int) is None,
        },
{
    match parse_bytes(buf, pos) {
        Option::Some((bs, p1)) => {
            match bytes_to_string(&bs) {
                Option::Some(s) => {
                    proof {
                        encode_utf8_decode_utf8(s@);
                    }
                    Option::Some((s, p1))
                },
                Option::None => Option::None,
            }
        },
        Option::None => Option::None,
    }
}

pub open spec fn ticket_ok(t: SealTicketView) -> bool {
    bytes_ok(t.ticket_bytes)
}

pub open spec fn spec_ser_ticket(t: SealTicketView) -> Seq<u8>
    recommends
        ticket_ok(t),
{
    spec_ser_u64(t.block_height) + spec_ser_bytes(t.ticket_bytes)
}

pub open spec fn spec_parse_ticket(b: Seq<u8>, pos: int) -> Option<(SealTicketView, int)> {
    match spec_parse_u64(b, pos) {
        Option::Some((h, p1)) => match spec_parse_bytes(b, p1) {
            Option::Some((tb, p2)) => Option::Some(
                ((SealTicketView { block_height: h, ticket_bytes: tb }), p2),
            ),
            Option::None => Option::None,
        },
        Option::None => Option::None,
    }
}

pub proof fn lemma_parse_ser_ticket(b: Seq<u8>, pos: int, t: SealTicketView)
    requires
        ticket_ok(t),
        0 <= pos,
        pos + spec_ser_ticket(t).len() <= b.len(),
        b.subrange(pos, pos + spec_ser_ticket(t).len() as int) == spec_ser_ticket(t),
    ensures
        spec_parse_ticket(b, pos) == Option::Some((t, pos + spec_ser_ticket(t).len() as int)),
{
    let t1 = spec_ser_u64(t.block_height);
    let t2 = spec_ser_bytes(t.ticket_bytes);
    lemma_split_at(b, pos, t1, t2);
    lemma_parse_ser_u64(b, pos, t.block_height);
    lemma_parse_ser_bytes(b, pos + t1.len(), t.ticket_bytes);
}

pub open spec fn aux_ok(a: PersistentAuxView) -> bool {
    bytes_ok(a.comm_c) && bytes_ok(a.comm_r_last)
}

pub open spec fn spec_ser_aux(a: PersistentAuxView) -> Seq<u8>
    recommends
        aux_ok(a),
{
    spec_ser_bytes(a.comm_c) + spec_ser_bytes(a.comm_r_last)
}

pub open spec fn spec_parse_aux(b: Seq<u8>, pos: int) -> Option<(PersistentAuxView, int)> {
    match spec_parse_bytes(b, pos) {
        Option::Some((c, p1)) => match spec_parse_bytes(b, p1) {
            Option::Some((r, p2)) => Option::Some(
                ((PersistentAuxView { comm_c: c, comm_r_last: r }), p2),
            ),
            Option::None => Option::None,
        },
        Option::None => Option::None,
    }
}

pub proof fn lemma_parse_ser_aux(b: Seq<u8>, pos: int, a: PersistentAuxView)
    requires
        aux_ok(a),
        0 <= pos,
        pos + spec_ser_aux(a).len() <= b.len(),
        b.subrange(pos, pos + spec_ser_aux(a).len() as int) == spec_ser_aux(a),
    ensures
        spec_parse_aux(b, pos) == Option::Some((a, pos + spec_ser_aux(a).len() as int)),
{
    let t1 = spec_ser_bytes(a.comm_c);
    let t2 = spec_ser_bytes(a.comm_r_last);
    lemma_split_at(b, pos, t1, t2);
    lemma_parse_ser_bytes(b, pos, a.comm_c);
    lemma_parse_ser_bytes(b, pos + t1.len(), a.comm_r_last);
}

pub open spec fn piece_ok(p: PieceMetadataView) -> bool {
    str_ok(p.piece_key) && opt_bytes_ok(p.comm_p) && opt_bytes_ok(p.piece_inclusion_proof)
}

pub open spec fn spec_ser_piece(p: PieceMetadataView) -> Seq<u8>
    recommends
        piece_ok(p),
{
    spec_ser_str(p.piece_key) + spec_ser_u64(p.num_bytes) + spec_ser_opt_bytes(p.comm_p)
        + spec_ser_opt_bytes(p.piece_inclusion_proof)
}

pub open spec fn spec_parse_piece(b: Seq<u8>, pos: int) -> Option<(PieceMetadataView, int)> {
    match spec_parse_str(b, pos) {
        Option::Some((key, p1)) => match spec_parse_u64(b, p1) {
            Option::Some((n, p2)) => match spec_parse_opt_bytes(b, p2) {
                Option::Some((cp, p3)) => match spec_parse_opt_bytes(b, p3) {
                    Option::Some((pip, p4)) => Option::Some(
                        (
                            (PieceMetadataView {
                                piece_key: key,
                                num_bytes: n,
                                comm_p: cp,
                                piece_inclusion_proof: pip,
                            }),
                            p4,
                        ),
                    ),
                    Option::None => Option::None,
                },
                Option::None => Option::None,
            },
            Option::None => Option::None,
        },
        Option::None => Option::None,
    }
}

pub proof fn lemma_parse_ser_piece(b: Seq<u8>, pos: int, p: PieceMetadataView)
    requires
        piece_ok(p),
        0 <= pos,
        pos + spec_ser_piece(p).len() <= b.len(),
        b.subrange(pos, pos + spec_ser_piece(p).len() as int) == spec_ser_piece(p),
    ensures
        spec_parse_piece(b, pos) == Option::Some((p, pos + spec_ser_piece(p).len() as int)),
{
    let t1 = spec_ser_str(p.piece_key);
    let t2 = spec_ser_u64(p.num_bytes);
    let t3 = spec_ser_opt_bytes(p.comm_p);
    let t4 = spec_ser_opt_bytes(p.piece_inclusion_proof);
    assert(spec_ser_piece(p) =~= t1 + (t2 + (t3 + t4)));
    lemma_split_at(b, pos, t1, t2 + (t3 + t4));
    lemma_parse_ser_str(b, pos, p.piece_key);
    let p1 = pos + t1.len();
    assert(t2 + (t3 + t4) =~= t2 + (t3 + t4));
    lemma_split_at(b, p1, t2, t3 + t4);
    lemma_parse_ser_u64(b, p1, p.num_bytes);
    let p2 = p1 + t2.len();
    lemma_split_at(b, p2, t3, t4);
    lemma_parse_ser_opt_bytes(b, p2, p.comm_p);
    let p3 = p2 + t3.len();
    lemma_parse_ser_opt_bytes(b, p3, p.piece_inclusion_proof);
}

pub open spec fn pieces_ok(ps: Seq<PieceMetadataView>) -> bool {
    ps.len() <= u64::MAX && forall|i: int| 0 <= i < ps.len() ==> piece_ok(#[trigger] ps[i])
}

pub open spec fn spec_ser_piece_seq(ps: Seq<PieceMetadataView>) -> Seq<u8>
    decreases ps.len(),
{
    if ps.len() == 0 {
        Seq::empty()
    } else {
        spec_ser_piece(ps[0]) + spec_ser_piece_seq(ps.drop_first())
    }
}

/// Count-prefixed encoding of a piece sequence.
pub open spec fn spec_ser_pieces(ps: Seq<PieceMetadataView>) -> Seq<u8>
    recommends
        pieces_ok(ps),
{
    spec_ser_u64(ps.len() as u64) + spec_ser_piece_seq(ps)
}

pub open spec fn spec_parse_piece_seq(b: Seq<u8>, pos: int, count: int) -> Option<
    (Seq<PieceMetadataView>, int),
>
    decreases count,
{
    if count <= 0 {
        Option::Some((Seq::empty(), pos))
    } else {
        match spec_parse_piece(b, pos) {
            Option::Some((p, p1)) => match spec_parse_piece_seq(b, p1, count - 1) {
                Option::Some((rest, p2)) => Option::Some((seq![p] + rest, p2)),
                Option::None => Option::None,
            },
            Option::None => Option::None,
        }
    }
}

pub open spec fn spec_parse_pieces(b: Seq<u8>, pos: int) -> Option<(Seq<PieceMetadataView>, int)> {
    match spec_parse_u64(b, pos) {
        Option::Some((n, p1)) => spec_parse_piece_seq(b, p1, n as int),
        Option::None => Option::None,
    }
}

/// Appending one piece extends the sequence encoding at its back.
pub proof fn lemma_ser_piece_seq_snoc(ps: Seq<PieceMetadataView>, p: PieceMetadataView)
    ensures
        spec_ser_piece_seq(ps.push(p)) == spec_ser_piece_seq(ps) + spec_ser_piece(p),
    decreases ps.len(),
{
    if ps.len() == 0 {
        assert(ps.push(p)[0] == p);
        assert(ps.push(p).drop_first() =~= Seq::<PieceMetadataView>::empty());
        assert(spec_ser_piece_seq(ps.push(p)) == spec_ser_piece(p) + spec_ser_piece_seq(
            Seq::<PieceMetadataView>::empty(),
        ));
        assert(spec_ser_piece(p) + Seq::<u8>::empty() =~= Seq::<u8>::empty() + spec_ser_piece(p));
    } else {
        assert(ps.push(p)[0] == ps[0]);
        assert(ps.push(p).drop_first() =~= ps.drop_first().push(p));
        lemma_ser_piece_seq_snoc(ps.drop_first(), p);
        assert(spec_ser_piece_seq(ps.push(p)) == spec_ser_piece(ps[0]) + (spec_ser_piece_seq(
            ps.drop_first(),
        ) + spec_ser_piece(p)));
        assert(spec_ser_piece(ps[0]) + (spec_ser_piece_seq(ps.drop_first()) + spec_ser_piece(p))
            =~= (spec_ser_piece(ps[0]) + spec_ser_piece_seq(ps.drop_first())) + spec_ser_piece(p));
    }
}

pub proof fn lemma_parse_ser_piece_seq(b: Seq<u8>, pos: int, ps: Seq<PieceMetadataView>)
    requires
        pieces_ok(ps),
        0 <= pos,
        pos + spec_ser_piece_seq(ps).len() <= b.len(),
        b.subrange(pos, pos + spec_ser_piece_seq(ps).len() as int) == spec_ser_piece_seq(ps),
    ensures
        spec_parse_piece_seq(b, pos, ps.len() as int) == Option::Some(
            (ps, pos + spec_ser_piece_seq(ps).len() as int),
        ),
    decreases ps.len(),
{
    if ps.len() == 0 {
        assert(spec_parse_piece_seq(b, pos, 0) == Option::Some(
            (Seq::<PieceMetadataView>::empty(), pos),
        ));
        assert(ps =~= Seq::<PieceMetadataView>::empty());
    } else {
        let t1 = spec_ser_piece(ps[0]);
        let t2 = spec_ser_piece_seq(ps.drop_first());
        lemma_split_at(b, pos, t1, t2);
        lemma_parse_ser_piece(b, pos, ps[0]);
        assert(forall|i: int|
            0 <= i < ps.drop_first().len() ==> piece_ok(#[trigger] ps.drop_first()[i]));
        lemma_parse_ser_piece_seq(b, pos + t1.len(), ps.drop_first());
        assert(seq![ps[0]] + ps.drop_first() =~= ps);
    }
}

pub proof fn lemma_parse_ser_pieces(b: Seq<u8>, pos: int, ps: Seq<PieceMetadataView>)
    requires
        pieces_ok(ps),
        0 <= pos,
        pos + spec_ser_pieces(ps).len() <= b.len(),
        b.subrange(pos, pos + spec_ser_pieces(ps).len() as int) == spec_ser_pieces(ps),
    ensures
        spec_parse_pieces(b, pos) == Option::Some((ps, pos + spec_ser_pieces(ps).len() as int)),
{
    let t1 = spec_ser_u64(ps.len() as u64);
    let t2 = spec_ser_piece_seq(ps);
    lemma_split_at(b, pos, t1, t2);
    lemma_parse_ser_u64(b, pos, ps.len() as u64);
    lemma_parse_ser_piece_seq(b, pos + t1.len(), ps);
}

pub open spec fn sealed_ok(m: SealedSectorMetadataView) -> bool {
    &&& str_ok(m.sector_access)
    &&& pieces_ok(m.pieces)
    &&& bytes_ok(m.comm_r)
    &&& bytes_ok(m.comm_d)
    &&& aux_ok(m.p_aux)
    &&& bytes_ok(m.proof)
    &&& bytes_ok(m.blake2b_checksum)
    &&& ticket_ok(m.seal_ticket)
}

pub open spec fn spec_ser_sealed(m: SealedSectorMetadataView) -> Seq<u8>
    recommends
        sealed_ok(m),
{
    spec_ser_u64(m.sector_id) + spec_ser_str(m.sector_access) + spec_ser_pieces(m.pieces)
        + spec_ser_bytes(m.comm_r) + spec_ser_bytes(m.comm_d) + spec_ser_aux(m.p_aux)
        + spec_ser_bytes(m.proof) + spec_ser_bytes(m.blake2b_checksum) + spec_ser_u64(m.len)
        + spec_ser_ticket(m.seal_ticket)
}

pub open spec fn spec_parse_sealed(b: Seq<u8>, pos: int) -> Option<
    (SealedSectorMetadataView, int),
> {
    match spec_parse_u64(b, pos) {
        Option::Some((id, p1)) => match spec_parse_str(b, p1) {
            Option::Some((access, p2)) => match spec_parse_pieces(b, p2) {
                Option::Some((ps, p3)) => match spec_parse_bytes(b, p3) {
                    Option::Some((comm_r, p4)) => match spec_parse_bytes(b, p4) {
                        Option::Some((comm_d, p5)) => match spec_parse_aux(b, p5) {
                            Option::Some((aux, p6)) => match spec_parse_bytes(b, p6) {
                                Option::Some((proof, p7)) => match spec_parse_bytes(b, p7) {
                                    Option::Some((ck, p8)) => match spec_parse_u64(b, p8) {
                                        Option::Some((len, p9)) => match spec_parse_ticket(b, p9) {
                                            Option::Some((t, p10)) => Option::Some(
                                                (
                                                    (SealedSectorMetadataView {
                                                        sector_id: id,
                                                        sector_access: access,
                                                        pieces: ps,
                                                        comm_r,
                                                        comm_d,
                                                        p_aux: aux,
                                                        proof,
                                                        blake2b_checksum: ck,
                                                        len,
                                                        seal_ticket: t,
                                                    }),
                                                    p10,
                                                ),
                                            ),
                                            Option::None => Option::None,
                                        },
                                        Option::None => Option::None,
                                    },
                                    Option::None => Option::None,
                                },
                                Option::None => Option::None,
                            },
                            Option::None => Option::None,
                        },
                        Option::None => Option::None,
                    },
                    Option::None => Option::None,
                },
                Option::None => Option::None,
            },
            Option::None => Option::None,
        },
        Option::None => Option::None,
    }
}

#[verifier::rlimit(60)]
pub proof fn lemma_parse_ser_sealed(b: Seq<u8>, pos: int, m: SealedSectorMetadataView)
    requires
        sealed_ok(m),
        0 <= pos,
        pos + spec_ser_sealed(m).len() <= b.len(),
        b.subrange(pos, pos + spec_ser_sealed(m).len() as int) == spec_ser_sealed(m),
    ensures
        spec_parse_sealed(b, pos) == Option::Some((m, pos + spec_ser_sealed(m).len() as int)),
{
    let t1 = spec_ser_u64(m.sector_id);
    let t2 = spec_ser_str(m.sector_access);
    let t3 = spec_ser_pieces(m.pieces);
    let t4 = spec_ser_bytes(m.comm_r);
    let t5 = spec_ser_bytes(m.comm_d);
    let t6 = spec_ser_aux(m.p_aux);
    let t7 = spec_ser_bytes(m.proof);
    let t8 = spec_ser_bytes(m.blake2b_checksum);
    let t9 = spec_ser_u64(m.len);
    let t10 = spec_ser_ticket(m.seal_ticket);
    let r9 = t10;
    let r8 = t9 + r9;
    let r7 = t8 + r8;
    let r6 = t7 + r7;
    let r5 = t6 + r6;
    let r4 = t5 + r5;
    let r3 = t4 + r4;
    let r2 = t3 + r3;
    let r1 = t2 + r2;
    assert(spec_ser_sealed(m) =~= t1 + r1);
    lemma_split_at(b, pos, t1, r1);
    lemma_parse_ser_u64(b, pos, m.sector_id);
    let p1 = pos + t1.len();
    lemma_split_at(b, p1, t2, r2);
    lemma_parse_ser_str(b, p1, m.sector_access);
    let p2 = p1 + t2.len();
    lemma_split_at(b, p2, t3, r3);
    lemma_parse_ser_pieces(b, p2, m.pieces);
    let p3 = p2 + t3.len();
    lemma_split_at(b, p3, t4, r4);
    lemma_parse_ser_bytes(b, p3, m.comm_r);
    let p4 = p3 + t4.len();
    lemma_split_at(b, p4, t5, r5);
    lemma_parse_ser_bytes(b, p4, m.comm_d);
    let p5 = p4 + t5.len();
    lemma_split_at(b, p5, t6, r6);
    lemma_parse_ser_aux(b, p5, m.p_aux);
    let p6 = p5 + t6.len();
    lemma_split_at(b, p6, t7, r7);
    lemma_parse_ser_bytes(b, p6, m.proof);
    let p7 = p6 + t7.len();
    lemma_split_at(b, p7, t8, r8);
    lemma_parse_ser_bytes(b, p7, m.blake2b_checksum);
    let p8 = p7 + t8.len();
    lemma_split_at(b, p8, t9, r9);
    lemma_parse_ser_u64(b, p8, m.len);
    let p9 = p8 + t9.len();
    lemma_parse_ser_ticket(b, p9, m.seal_ticket);
}

pub open spec fn status_ok(st: SealStatusView) -> bool {
    match st {
        SealStatusView::Sealing(t) => ticket_ok(t),
        SealStatusView::Sealed(m) => sealed_ok(m),
        SealStatusView::Failed(r) => str_ok(r),
        _ => true,
    }
}

pub open spec fn spec_ser_status(st: SealStatusView) -> Seq<u8>
    recommends
        status_ok(st),
{
    match st {
        SealStatusView::AcceptingData => seq![0u8],
        SealStatusView::FullyPacked => seq![1u8],
        SealStatusView::ReadyForSealing => seq![2u8],
        SealStatusView::Paused => seq![3u8],
        SealStatusView::Sealing(t) => seq![4u8] + spec_ser_ticket(t),
        SealStatusView::Sealed(m) => seq![5u8] + spec_ser_sealed(m),
        SealStatusView::Failed(r) => seq![6u8] + spec_ser_str(r),
    }
}

pub open spec fn spec_parse_status(b: Seq<u8>, pos: int) -> Option<(SealStatusView, int)> {
    if 0 <= pos && pos < b.len() {
        if b[pos] == 0u8 {
            Option::Some((SealStatusView::AcceptingData, pos + 1))
        } else if b[pos] == 1u8 {
            Option::Some((SealStatusView::FullyPacked, pos + 1))
        } else if b[pos] == 2u8 {
            Option::Some((SealStatusView::ReadyForSealing, pos + 1))
        } else if b[pos] == 3u8 {
            Option::Some((SealStatusView::Paused, pos + 1))
        } else if b[pos] == 4u8 {
            match spec_parse_ticket(b, pos + 1) {
                Option::Some((t, p1)) => Option::Some((SealStatusView::Sealing(t), p1)),
                Option::None => Option::None,
            }
        } else if b[pos] == 5u8 {
            match spec_parse_sealed(b, pos + 1) {
                Option::Some((m, p1)) => Option::Some((SealStatusView::Sealed(m), p1)),
                Option::None => Option::None,
            }
        } else if b[pos] == 6u8 {
            match spec_parse_str(b, pos + 1) {
                Option::Some((r, p1)) => Option::Some((SealStatusView::Failed(r), p1)),
                Option::None => Option::None,
            }
        } else {
            Option::None
        }
    } else {
        Option::None
    }
}

pub proof fn lemma_parse_ser_status(b: Seq<u8>, pos: int, st: SealStatusView)
    requires
        status_ok(st),
        0 <= pos,
        pos + spec_ser_status(st).len() <= b.len(),
        b.subrange(pos, pos + spec_ser_status(st).len() as int) == spec_ser_status(st),
    ensures
        spec_parse_status(b, pos) == Option::Some((st, pos + spec_ser_status(st).len() as int)),
{
    assert(b[pos] == spec_ser_status(st)[0]);
    match st {
        SealStatusView::Sealing(t) => {
            lemma_split_at(b, pos, seq![4u8], spec_ser_ticket(t));
            lemma_parse_ser_ticket(b, pos + 1, t);
        },
        SealStatusView::Sealed(m) => {
            lemma_split_at(b, pos, seq![5u8], spec_ser_sealed(m));
            lemma_parse_ser_sealed(b, pos + 1, m);
        },
        SealStatusView::Failed(r) => {
            lemma_split_at(b, pos, seq![6u8], spec_ser_str(r));
            lemma_parse_ser_str(b, pos + 1, r);
        },
        _ => {},
    }
}

pub open spec fn staged_ok(s: StagedSectorMetadataView) -> bool {
    &&& str_ok(s.sector_access)
    &&& pieces_ok(s.pieces)
    &&& status_ok(s.seal_status)
}

pub open spec fn spec_ser_staged(s: StagedSectorMetadataView) -> Seq<u8>
    recommends
        staged_ok(s),
{
    spec_ser_u64(s.sector_id) + spec_ser_str(s.sector_access) + spec_ser_pieces(s.pieces)
        + spec_ser_status(s.seal_status)
}

pub open spec fn spec_parse_staged(b: Seq<u8>, pos: int) -> Option<
    (StagedSectorMetadataView, int),
> {
    match spec_parse_u64(b, pos) {
        Option::Some((id, p1)) => match spec_parse_str(b, p1) {
            Option::Some((access, p2)) => match spec_parse_pieces(b, p2) {
                Option::Some((ps, p3)) => match spec_parse_status(b, p3) {
                    Option::Some((st, p4)) => Option::Some(
                        (
                            (StagedSectorMetadataView {
                                sector_id: id,
                                sector_access: access,
                                pieces: ps,
                                seal_status: st,
                            }),
                            p4,
                        ),
                    ),
                    Option::None => Option::None,
                },
                Option::None => Option::None,
            },
            Option::None => Option::None,
        },
        Option::None => Option::None,
    }
}

pub proof fn lemma_parse_ser_staged(b: Seq<u8>, pos: int, s: StagedSectorMetadataView)
    requires
        staged_ok(s),
        0 <= pos,
        pos + spec_ser_staged(s).len() <= b.len(),
        b.subrange(pos, pos + spec_ser_staged(s).len() as int) == spec_ser_staged(s),
    ensures
        spec_parse_staged(b, pos) == Option::Some((s, pos + spec_ser_staged(s).len() as int)),
{
    let t1 = spec_ser_u64(s.sector_id);
    let t2 = spec_ser_str(s.sector_access);
    let t3 = spec_ser_pieces(s.pieces);
    let t4 = spec_ser_status(s.seal_status);
    let r3 = t4;
    let r2 = t3 + r3;
    let r1 = t2 + r2;
    assert(spec_ser_staged(s) =~= t1 + r1);
    lemma_split_at(b, pos, t1, r1);
    lemma_parse_ser_u64(b, pos, s.sector_id);
    let p1 = pos + t1.len();
    lemma_split_at(b, p1, t2, r2);
    lemma_parse_ser_str(b, p1, s.sector_access);
    let p2 = p1 + t2.len();
    lemma_split_at(b, p2, t3, r3);
    lemma_parse_ser_pieces(b, p2, s.pieces);
    let p3 = p2 + t3.len();
    lemma_parse_ser_status(b, p3, s.seal_status);
}

pub open spec fn staged_seq_ok(ss: Seq<StagedSectorMetadataView>) -> bool {
    ss.len() <= u64::MAX && forall|i: int| 0 <= i < ss.len() ==> staged_ok(#[trigger] ss[i])
}

pub open spec fn spec_ser_staged_seq(ss: Seq<StagedSectorMetadataView>) -> Seq<u8>
    decreases ss.len(),
{
    if ss.len() == 0 {
        Seq::empty()
    } else {
        spec_ser_staged(ss[0]) + spec_ser_staged_seq(ss.drop_first())
    }
}

/// Count-prefixed encoding of the staged-sector sequence.
pub open spec fn spec_ser_staged_sectors(ss: Seq<StagedSectorMetadataView>) -> Seq<u8>
    recommends
        staged_seq_ok(ss),
{
    spec_ser_u64(ss.len() as u64) + spec_ser_staged_seq(ss)
}

pub open spec fn spec_parse_staged_seq(b: Seq<u8>, pos: int, count: int) -> Option<
    (Seq<StagedSectorMetadataView>, int),
>
    decreases count,
{
    if count <= 0 {
        Option::Some((Seq::empty(), pos))
    } else {
        match spec_parse_staged(b, pos) {
            Option::Some((s, p1)) => match spec_parse_staged_seq(b, p1, count - 1) {
                Option::Some((rest, p2)) => Option::Some((seq![s] + rest, p2)),
                Option::None => Option::None,
            },
            Option::None => Option::None,
        }
    }
}

pub open spec fn spec_parse_staged_sectors(b: Seq<u8>, pos: int) -> Option<
    (Seq<StagedSectorMetadataView>, int),
> {
    match spec_parse_u64(b, pos) {
        Option::Some((n, p1)) => spec_parse_staged_seq(b, p1, n as int),
        Option::None => Option::None,
    }
}

pub proof fn lemma_ser_staged_seq_snoc(ss: Seq<StagedSectorMetadataView>, s: StagedSectorMetadataView)
    ensures
        spec_ser_staged_seq(ss.push(s)) == spec_ser_staged_seq(ss) + spec_ser_staged(s),
    decreases ss.len(),
{
    if ss.len() == 0 {
        assert(ss.push(s)[0] == s);
        assert(ss.push(s).drop_first() =~= Seq::<StagedSectorMetadataView>::empty());
        assert(spec_ser_staged_seq(ss.push(s)) == spec_ser_staged(s) + spec_ser_staged_seq(
            Seq::<StagedSectorMetadataView>::empty(),
        ));
        assert(spec_ser_staged(s) + Seq::<u8>::empty() =~= Seq::<u8>::empty() + spec_ser_staged(s));
    } else {
        assert(ss.push(s)[0] == ss[0]);
        assert(ss.push(s).drop_first() =~= ss.drop_first().push(s));
        lemma_ser_staged_seq_snoc(ss.drop_first(), s);
        assert(spec_ser_staged_seq(ss.push(s)) == spec_ser_staged(ss[0]) + (spec_ser_staged_seq(
            ss.drop_first(),
        ) + spec_ser_staged(s)));
        assert(spec_ser_staged(ss[0]) + (spec_ser_staged_seq(ss.drop_first()) + spec_ser_staged(s))
            =~= (spec_ser_staged(ss[0]) + spec_ser_staged_seq(ss.drop_first())) + spec_ser_staged(
            s,
        ));
    }
}

pub proof fn lemma_parse_ser_staged_seq(b: Seq<u8>, pos: int, ss: Seq<StagedSectorMetadataView>)
    requires
        staged_seq_ok(ss),
        0 <= pos,
        pos + spec_ser_staged_seq(ss).len() <= b.len(),
        b.subrange(pos, pos + spec_ser_staged_seq(ss).len() as int) == spec_ser_staged_seq(ss),
    ensures
        spec_parse_staged_seq(b, pos, ss.len() as int) == Option::Some(
            (ss, pos + spec_ser_staged_seq(ss).len() as int),
        ),
    decreases ss.len(),
{
    if ss.len() == 0 {
        assert(ss =~= Seq::<StagedSectorMetadataView>::empty());
    } else {
        let t1 = spec_ser_staged(ss[0]);
        let t2 = spec_ser_staged_seq(ss.drop_first());
        lemma_split_at(b, pos, t1, t2);
        lemma_parse_ser_staged(b, pos, ss[0]);
        assert(forall|i: int|
            0 <= i < ss.drop_first().len() ==> staged_ok(#[trigger] ss.drop_first()[i]));
        lemma_parse_ser_staged_seq(b, pos + t1.len(), ss.drop_first());
        assert(seq![ss[0]] + ss.drop_first() =~= ss);
    }
}

pub proof fn lemma_parse_ser_staged_sectors(
    b: Seq<u8>,
    pos: int,
    ss: Seq<StagedSectorMetadataView>,
)
    requires
        staged_seq_ok(ss),
        0 <= pos,
        pos + spec_ser_staged_sectors(ss).len() <= b.len(),
        b.subrange(pos, pos + spec_ser_staged_sectors(ss).len() as int) == spec_ser_staged_sectors(
            ss,
        ),
    ensures
        spec_parse_staged_sectors(b, pos) == Option::Some(
            (ss, pos + spec_ser_staged_sectors(ss).len() as int),
        ),
{
    let t1 = spec_ser_u64(ss.len() as u64);
    let t2 = spec_ser_staged_seq(ss);
    lemma_split_at(b, pos, t1, t2);
    lemma_parse_ser_u64(b, pos, ss.len() as u64);
    lemma_parse_ser_staged_seq(b, pos + t1.len(), ss);
}

pub open spec fn sealed_seq_ok(ss: Seq<SealedSectorMetadataView>) -> bool {
    ss.len() <= u64::MAX && forall|i: int| 0 <= i < ss.len() ==> sealed_ok(#[trigger] ss[i])
}

pub open spec fn spec_ser_sealed_seq(ss: Seq<SealedSectorMetadataView>) -> Seq<u8>
    decreases ss.len(),
{
    if ss.len() == 0 {
        Seq::empty()
    } else {
        spec_ser_sealed(ss[0]) + spec_ser_sealed_seq(ss.drop_first())
    }
}

/// Count-prefixed encoding of the sealed-sector sequence.
pub open spec fn spec_ser_sealed_sectors(ss: Seq<SealedSectorMetadataView>) -> Seq<u8>
    recommends
        sealed_seq_ok(ss),
{
    spec_ser_u64(ss.len() as u64) + spec_ser_sealed_seq(ss)
}

pub open spec fn spec_parse_sealed_seq(b: Seq<u8>, pos: int, count: int) -> Option<
    (Seq<SealedSectorMetadataView>, int),
>
    decreases count,
{
    if count <= 0 {
        Option::Some((Seq::empty(), pos))
    } else {
        match spec_parse_sealed(b, pos) {
            Option::Some((s, p1)) => match spec_parse_sealed_seq(b, p1, count - 1) {
                Option::Some((rest, p2)) => Option::Some((seq![s] + rest, p2)),
                Option::None => Option::None,
            },
            Option::None => Option::None,
        }
    }
}

pub open spec fn spec_parse_sealed_sectors(b: Seq<u8>, pos: int) -> Option<
    (Seq<SealedSectorMetadataView>, int),
> {
    match spec_parse_u64(b, pos) {
        Option::Some((n, p1)) => spec_parse_sealed_seq(b, p1, n as int),
        Option::None => Option::None,
    }
}

pub proof fn lemma_ser_sealed_seq_snoc(ss: Seq<SealedSectorMetadataView>, s: SealedSectorMetadataView)
    ensures
        spec_ser_sealed_seq(ss.push(s)) == spec_ser_sealed_seq(ss) + spec_ser_sealed(s),
    decreases ss.len(),
{
    if ss.len() == 0 {
        assert(ss.push(s)[0] == s);
        assert(ss.push(s).drop_first() =~= Seq::<SealedSectorMetadataView>::empty());
        assert(spec_ser_sealed_seq(ss.push(s)) == spec_ser_sealed(s) + spec_ser_sealed_seq(
            Seq::<SealedSectorMetadataView>::empty(),
        ));
        assert(spec_ser_sealed(s) + Seq::<u8>::empty() =~= Seq::<u8>::empty() + spec_ser_sealed(s));
    } else {
        assert(ss.push(s)[0] == ss[0]);
        assert(ss.push(s).drop_first() =~= ss.drop_first().push(s));
        lemma_ser_sealed_seq_snoc(ss.drop_first(), s);
        assert(spec_ser_sealed_seq(ss.push(s)) == spec_ser_sealed(ss[0]) + (spec_ser_sealed_seq(
            ss.drop_first(),
        ) + spec_ser_sealed(s)));
        assert(spec_ser_sealed(ss[0]) + (spec_ser_sealed_seq(ss.drop_first()) + spec_ser_sealed(s))
            =~= (spec_ser_sealed(ss[0]) + spec_ser_sealed_seq(ss.drop_first())) + spec_ser_sealed(
            s,
        ));
    }
}

pub proof fn lemma_parse_ser_sealed_seq(b: Seq<u8>, pos: int, ss: Seq<SealedSectorMetadataView>)
    requires
        sealed_seq_ok(ss),
        0 <= pos,
        pos + spec_ser_sealed_seq(ss).len() <= b.len(),
        b.subrange(pos, pos + spec_ser_sealed_seq(ss).len() as int) == spec_ser_sealed_seq(ss),
    ensures
        spec_parse_sealed_seq(b, pos, ss.len() as int) == Option::Some(
            (ss, pos + spec_ser_sealed_seq(ss).len() as int),
        ),
    decreases ss.len(),
{
    if ss.len() == 0 {
        assert(ss =~= Seq::<SealedSectorMetadataView>::empty());
    } else {
        let t1 = spec_ser_sealed(ss[0]);
        let t2 = spec_ser_sealed_seq(ss.drop_first());
        lemma_split_at(b, pos, t1, t2);
        lemma_parse_ser_sealed(b, pos, ss[0]);
        assert(forall|i: int|
            0 <= i < ss.drop_first().len() ==> sealed_ok(#[trigger] ss.drop_first()[i]));
        lemma_parse_ser_sealed_seq(b, pos + t1.len(), ss.drop_first());
        assert(seq![ss[0]] + ss.drop_first() =~= ss);
    }
}

pub proof fn lemma_parse_ser_sealed_sectors(
    b: Seq<u8>,
    pos: int,
    ss: Seq<SealedSectorMetadataView>,
)
    requires
        sealed_seq_ok(ss),
        0 <= pos,
        pos + spec_ser_sealed_sectors(ss).len() <= b.len(),
        b.subrange(pos, pos + spec_ser_sealed_sectors(ss).len() as int) == spec_ser_sealed_sectors(
            ss,
        ),
    ensures
        spec_parse_sealed_sectors(b, pos) == Option::Some(
            (ss, pos + spec_ser_sealed_sectors(ss).len() as int),
        ),
{
    let t1 = spec_ser_u64(ss.len() as u64);
    let t2 = spec_ser_sealed_seq(ss);
    lemma_split_at(b, pos, t1, t2);
    lemma_parse_ser_u64(b, pos, ss.len() as u64);
    lemma_parse_ser_sealed_seq(b, pos + t1.len(), ss);
}

/// A state every field of which is short enough for its length prefixes.
/// Every state held in a `SectorBuilderState` satisfies this.
pub open spec fn state_ok(st: SectorBuilderStateView) -> bool {
    staged_seq_ok(st.staged) && sealed_seq_ok(st.sealed)
}

pub open spec fn spec_ser_state(st: SectorBuilderStateView) -> Seq<u8>
    recommends
        state_ok(st),
{
    spec_ser_u64(st.last_committed_sector_id) + spec_ser_staged_sectors(st.staged)
        + spec_ser_sealed_sectors(st.sealed)
}

pub open spec fn spec_parse_state(b: Seq<u8>, pos: int) -> Option<(SectorBuilderStateView, int)> {
    match spec_parse_u64(b, pos) {
        Option::Some((lcsi, p1)) => match spec_parse_staged_sectors(b, p1) {
            Option::Some((staged, p2)) => match spec_parse_sealed_sectors(b, p2) {
                Option::Some((sealed, p3)) => Option::Some(
                    (
                        (SectorBuilderStateView {
                            staged,
                            sealed,
                            last_committed_sector_id: lcsi,
                        }),
                        p3,
                    ),
                ),
                Option::None => Option::None,
            },
            Option::None => Option::None,
        },
        Option::None => Option::None,
    }
}

/// Reloading a persisted snapshot yields exactly the state it was taken of:
/// parsing the encoding of any state succeeds, consumes the whole encoding,
/// and returns that state.
pub proof fn lemma_snapshot_round_trip(st: SectorBuilderStateView)
    requires
        state_ok(st),
    ensures
        spec_parse_state(spec_ser_state(st), 0) == Option::Some(
            (st, spec_ser_state(st).len() as int),
        ),
{
    let b = spec_ser_state(st);
    let t1 = spec_ser_u64(st.last_committed_sector_id);
    let t2 = spec_ser_staged_sectors(st.staged);
    let t3 = spec_ser_sealed_sectors(st.sealed);
    let r1 = t2 + t3;
    assert(b =~= t1 + r1);
    assert(b.subrange(0, b.len() as int) =~= b);
    lemma_split_at(b, 0, t1, r1);
    lemma_parse_ser_u64(b, 0, st.last_committed_sector_id);
    let p1 = t1.len() as int;
    lemma_split_at(b, p1, t2, t3);
    lemma_parse_ser_staged_sectors(b, p1, st.staged);
    let p2 = p1 + t2.len();
    lemma_parse_ser_sealed_sectors(b, p2, st.sealed);
}

/// Reads an optional byte string at `pos`.
fn parse_opt_bytes(buf: &Vec<u8>, pos: usize) -> (r: Option<(Option<Vec<u8>>, usize)>)
    ensures
        match r {
            Option::Some((o, p)) => spec_parse_opt_bytes(buf@, pos as int) == Option::Some(
                (
                    match o {
                        Option::Some(v) => Option::Some(v@),
                        Option::None => Option::None,
                    },
                    p as int,
                ),
            ),
            Option::None => spec_parse_opt_bytes(buf@, pos as int) is None,
        },
{
    if pos < buf.len() {
        let tag = buf[pos];
        if tag == 0 {
            Option::Some((Option::None, pos + 1))
        } else if tag == 1 {
            match parse_bytes(buf, pos + 1) {
                Option::Some((v, p1)) => Option::Some((Option::Some(v), p1)),
                Option::None => Option::None,
            }
        } else {
            Option::None
        }
    } else {
        Option::None
    }
}

/// The views of the pieces in a record.
pub open spec fn pieces_view(v: Seq<PieceMetadata>) -> Seq<PieceMetadataView> {
    v.map_values(|p: PieceMetadata| p@)
}

fn ser_ticket(out: &mut Vec<u8>, t: &SealTicket)
    ensures
        final(out)@ == old(out)@ + spec_ser_ticket(t@),
        ticket_ok(t@),
{
    ser_u64(out, t.block_height);
    ser_bytes(out, &t.ticket_bytes);
    proof {
        assert(final(out)@ =~= old(out)@ + spec_ser_ticket(t@));
    }
}

fn ser_aux(out: &mut Vec<u8>, a: &PersistentAux)
    ensures
        final(out)@ == old(out)@ + spec_ser_aux(a@),
        aux_ok(a@),
{
    ser_bytes(out, &a.comm_c);
    ser_bytes(out, &a.comm_r_last);
    proof {
        assert(final(out)@ =~= old(out)@ + spec_ser_aux(a@));
    }
}

fn ser_piece(out: &mut Vec<u8>, p: &PieceMetadata)
    ensures
        final(out)@ == old(out)@ + spec_ser_piece(p@),
        piece_ok(p@),
{
    ser_str(out, p.piece_key.as_str());
    ser_u64(out, p.num_bytes);
    ser_opt_bytes(out, &p.comm_p);
    ser_opt_bytes(out, &p.piece_inclusion_proof);
    proof {
        assert(final(out)@ =~= old(out)@ + spec_ser_piece(p@));
    }
}

fn ser_pieces(out: &mut Vec<u8>, ps: &Vec<PieceMetadata>)
    ensures
        final(out)@ == old(out)@ + spec_ser_pieces(pieces_view(ps@)),
        pieces_ok(pieces_view(ps@)),
{
    ser_u64(out, ps.len() as u64);
    let ghost base = out@;
    let mut i: usize = 0;
    proof {
        assert(pieces_view(ps@.subrange(0, 0)) =~= Seq::<PieceMetadataView>::empty());
    }
    while i < ps.len()
        invariant
            0 <= i <= ps@.len(),
            out@ == base + spec_ser_piece_seq(pieces_view(ps@.subrange(0, i as int))),
            forall|j: int| 0 <= j < i ==> piece_ok(#[trigger] pieces_view(ps@)[j]),
        decreases ps@.len() - i,
    {
        ser_piece(out, &ps[i]);
        proof {
            let pre = pieces_view(ps@.subrange(0, i as int));
            let post = pieces_view(ps@.subrange(0, i + 1));
            assert(post =~= pre.push(ps@[i as int]@));
            lemma_ser_piece_seq_snoc(pre, ps@[i as int]@);
            assert(out@ =~= base + spec_ser_piece_seq(post));
            assert(pieces_view(ps@)[i as int] == ps@[i as int]@);
        }
        i = i + 1;
    }
    proof {
        assert(ps@.subrange(0, ps@.len() as int) =~= ps@);
        assert(final(out)@ =~= old(out)@ + spec_ser_pieces(pieces_view(ps@)));
    }
}

fn ser_sealed(out: &mut Vec<u8>, m: &SealedSectorMetadata)
    ensures
        final(out)@ == old(out)@ + spec_ser_sealed(m@),
        sealed_ok(m@),
{
    ser_u64(out, m.sector_id);
    ser_str(out, m.sector_access.as_str());
    ser_pieces(out, &m.pieces);
    ser_bytes(out, &m.comm_r);
    ser_bytes(out, &m.comm_d);
    ser_aux(out, &m.p_aux);
    ser_bytes(out, &m.proof);
    ser_bytes(out, &m.blake2b_checksum);
    ser_u64(out, m.len);
    ser_ticket(out, &m.seal_ticket);
    proof {
        assert(final(out)@ =~= old(out)@ + spec_ser_sealed(m@));
    }
}

fn ser_status(out: &mut Vec<u8>, st: &SealStatus)
    ensures
        final(out)@ == old(out)@ + spec_ser_status(st@),
        status_ok(st@),
{
    match st {
        SealStatus::AcceptingData => {
            out.push(0u8);
            proof {
                assert(final(out)@ =~= old(out)@ + spec_ser_status(st@));
            }
        },
        SealStatus::FullyPacked => {
            out.push(1u8);
            proof {
                assert(final(out)@ =~= old(out)@ + spec_ser_status(st@));
            }
        },
        SealStatus::ReadyForSealing => {
            out.push(2u8);
            proof {
                assert(final(out)@ =~= old(out)@ + spec_ser_status(st@));
            }
        },
        SealStatus::Paused => {
            out.push(3u8);
            proof {
                assert(final(out)@ =~= old(out)@ + spec_ser_status(st@));
            }
        },
        SealStatus::Sealing(t) => {
            out.push(4u8);
            ser_ticket(out, t);
            proof {
                assert(final(out)@ =~= old(out)@ + spec_ser_status(st@));
            }
        },
        SealStatus::Sealed(m) => {
            out.push(5u8);
            ser_sealed(out, m);
            proof {
                assert(final(out)@ =~= old(out)@ + spec_ser_status(st@));
            }
        },
        SealStatus::Failed(r) => {
            out.push(6u8);
            ser_str(out, r.as_str());
            proof {
                assert(final(out)@ =~= old(out)@ + spec_ser_status(st@));
            }
        },
    }
}

fn ser_staged(out: &mut Vec<u8>, s: &StagedSectorMetadata)
    ensures
        final(out)@ == old(out)@ + spec_ser_staged(s@),
        staged_ok(s@),
{
    ser_u64(out, s.sector_id);
    ser_str(out, s.sector_access.as_str());
    ser_pieces(out, &s.pieces);
    ser_status(out, &s.seal_status);
    proof {
        assert(final(out)@ =~= old(out)@ + spec_ser_staged(s@));
    }
}

fn ser_staged_sectors(out: &mut Vec<u8>, ss: &Vec<StagedSectorMetadata>)
    ensures
        final(out)@ == old(out)@ + spec_ser_staged_sectors(
            ss@.map_values(|s: StagedSectorMetadata| s@),
        ),
        staged_seq_ok(ss@.map_values(|s: StagedSectorMetadata| s@)),
{
    ser_u64(out, ss.len() as u64);
    let ghost base = out@;
    let ghost view = ss@.map_values(|s: StagedSectorMetadata| s@);
    let mut i: usize = 0;
    proof {
        assert(ss@.subrange(0, 0).map_values(|s: StagedSectorMetadata| s@) =~= Seq::<
            StagedSectorMetadataView,
        >::empty());
    }
    while i < ss.len()
        invariant
            0 <= i <= ss@.len(),
            view == ss@.map_values(|s: StagedSectorMetadata| s@),
            out@ == base + spec_ser_staged_seq(
                ss@.subrange(0, i as int).map_values(|s: StagedSectorMetadata| s@),
            ),
            forall|j: int| 0 <= j < i ==> staged_ok(#[trigger] view[j]),
        decreases ss@.len() - i,
    {
        ser_staged(out, &ss[i]);
        proof {
            let pre = ss@.subrange(0, i as int).map_values(|s: StagedSectorMetadata| s@);
            let post = ss@.subrange(0, i + 1).map_values(|s: StagedSectorMetadata| s@);
            assert(post =~= pre.push(ss@[i as int]@));
            lemma_ser_staged_seq_snoc(pre, ss@[i as int]@);
            assert(out@ =~= base + spec_ser_staged_seq(post));
            assert(view[i as int] == ss@[i as int]@);
        }
        i = i + 1;
    }
    proof {
        assert(ss@.subrange(0, ss@.len() as int) =~= ss@);
        assert(final(out)@ =~= old(out)@ + spec_ser_staged_sectors(view));
    }
}

fn ser_sealed_sectors(out: &mut Vec<u8>, ss: &Vec<SealedSectorMetadata>)
    ensures
        final(out)@ == old(out)@ + spec_ser_sealed_sectors(
            ss@.map_values(|s: SealedSectorMetadata| s@),
        ),
        sealed_seq_ok(ss@.map_values(|s: SealedSectorMetadata| s@)),
{
    ser_u64(out, ss.len() as u64);
    let ghost base = out@;
    let ghost view = ss@.map_values(|s: SealedSectorMetadata| s@);
    let mut i: usize = 0;
    proof {
        assert(ss@.subrange(0, 0).map_values(|s: SealedSectorMetadata| s@) =~= Seq::<
            SealedSectorMetadataView,
        >::empty());
    }
    while i < ss.len()
        invariant
            0 <= i <= ss@.len(),
            view == ss@.map_values(|s: SealedSectorMetadata| s@),
            out@ == base + spec_ser_sealed_seq(
                ss@.subrange(0, i as int).map_values(|s: SealedSectorMetadata| s@),
            ),
            forall|j: int| 0 <= j < i ==> sealed_ok(#[trigger] view[j]),
        decreases ss@.len() - i,
    {
        ser_sealed(out, &ss[i]);
        proof {
            let pre = ss@.subrange(0, i as int).map_values(|s: SealedSectorMetadata| s@);
            let post = ss@.subrange(0, i + 1).map_values(|s: SealedSectorMetadata| s@);
            assert(post =~= pre.push(ss@[i as int]@));
            lemma_ser_sealed_seq_snoc(pre, ss@[i as int]@);
            assert(out@ =~= base + spec_ser_sealed_seq(post));
            assert(view[i as int] == ss@[i as int]@);
        }
        i = i + 1;
    }
    proof {
        assert(ss@.subrange(0, ss@.len() as int) =~= ss@);
        assert(final(out)@ =~= old(out)@ + spec_ser_sealed_sectors(view));
    }
}

/// Encodes the whole engine state as one snapshot blob.
pub fn serialize_state(st: &SectorBuilderState) -> (r: Vec<u8>)
    ensures
        r@ == spec_ser_state(st@),
        state_ok(st@),
{
    let mut out: Vec<u8> = Vec::new();
    ser_u64(&mut out, st.last_committed_sector_id);
    ser_staged_sectors(&mut out, &st.staged.sectors);
    ser_sealed_sectors(&mut out, &st.sealed.sectors);
    proof {
        assert(out@ =~= spec_ser_state(st@));
    }
    out
}

fn parse_ticket(buf: &Vec<u8>, pos: usize) -> (r: Option<(SealTicket, usize)>)
    ensures
        match r {
            Option::Some((t, p)) => spec_parse_ticket(buf@, pos as int) == Option::Some(
                (t@, p as int),
            ),
            Option::None => spec_parse_ticket(buf@, pos as int) is None,
        },
{
    match parse_u64(buf, pos) {
        Option::Some((h, p1)) => match parse_bytes(buf, p1) {
            Option::Some((tb, p2)) => {
                let t = SealTicket { block_height: h, ticket_bytes: tb };
                proof {
                    assert(t@ =~= (SealTicketView { block_height: h, ticket_bytes: t.ticket_bytes@ }));
                }
                Option::Some((t, p2))
            },
            Option::None => Option::None,
        },
        Option::None => Option::None,
    }
}

fn parse_aux(buf: &Vec<u8>, pos: usize) -> (r: Option<(PersistentAux, usize)>)
    ensures
        match r {
            Option::Some((a, p)) => spec_parse_aux(buf@, pos as int) == Option::Some(
                (a@, p as int),
            ),
            Option::None => spec_parse_aux(buf@, pos as int) is None,
        },
{
    match parse_bytes(buf, pos) {
        Option::Some((c, p1)) => match parse_bytes(buf, p1) {
            Option::Some((rl, p2)) => Option::Some((PersistentAux { comm_c: c, comm_r_last: rl }, p2)),
            Option::None => Option::None,
        },
        Option::None => Option::None,
    }
}

fn parse_piece(buf: &Vec<u8>, pos: usize) -> (r: Option<(PieceMetadata, usize)>)
    ensures
        match r {
            Option::Some((p, end)) => spec_parse_piece(buf@, pos as int) == Option::Some(
                (p@, end as int),
            ),
            Option::None => spec_parse_piece(buf@, pos as int) is None,
        },
{
    match parse_str(buf, pos) {
        Option::Some((key, p1)) => match parse_u64(buf, p1) {
            Option::Some((n, p2)) => match parse_opt_bytes(buf, p2) {
                Option::Some((cp, p3)) => match parse_opt_bytes(buf, p3) {
                    Option::Some((pip, p4)) => {
                        let p = PieceMetadata {
                            piece_key: key,
                            num_bytes: n,
                            comm_p: cp,
                            piece_inclusion_proof: pip,
                        };
                        Option::Some((p, p4))
                    },
                    Option::None => Option::None,
                },
                Option::None => Option::None,
            },
            Option::None => Option::None,
        },
        Option::None => Option::None,
    }
}

fn parse_pieces(buf: &Vec<u8>, pos: usize) -> (r: Option<(Vec<PieceMetadata>, usize)>)
    ensures
        match r {
            Option::Some((ps, end)) => spec_parse_pieces(buf@, pos as int) == Option::Some(
                (pieces_view(ps@), end as int),
            ),
            Option::None => spec_parse_pieces(buf@, pos as int) is None,
        },
{
    match parse_u64(buf, pos) {
        Option::Some((count, p1)) => {
            let mut acc: Vec<PieceMetadata> = Vec::new();
            let mut cur: usize = p1;
            let mut k: u64 = 0;
            proof {
                assert(pieces_view(acc@) =~= Seq::<PieceMetadataView>::empty());
            }
            while k < count
                invariant
                    0 <= k <= count,
                    spec_parse_u64(buf@, pos as int) == Option::Some((count, p1 as int)),
                    spec_parse_pieces(buf@, pos as int) == (match spec_parse_piece_seq(
                        buf@,
                        cur as int,
                        count - k,
                    ) {
                        Option::Some((rest, end)) => Option::Some((pieces_view(acc@) + rest, end)),
                        Option::None => Option::None::<(Seq<PieceMetadataView>, int)>,
                    }),
                decreases count - k,
            {
                match parse_piece(buf, cur) {
                    Option::Some((p, p2)) => {
                        proof {
                            let rest_opt = spec_parse_piece_seq(buf@, p2 as int, count - k - 1);
                            match rest_opt {
                                Option::Some((rest, end)) => {
                                    assert(pieces_view(acc@.push(p)) =~= pieces_view(acc@)
                                        + seq![p@]);
                                    assert(pieces_view(acc@) + (seq![p@] + rest) =~= pieces_view(
                                        acc@.push(p),
                                    ) + rest);
                                },
                                Option::None => {},
                            }
                        }
                        acc.push(p);
                        cur = p2;
                        k = k + 1;
                    },
                    Option::None => {
                        return Option::None;
                    },
                }
            }
            proof {
                assert(spec_parse_piece_seq(buf@, cur as int, 0) == Option::Some(
                    (Seq::<PieceMetadataView>::empty(), cur as int),
                ));
                assert(pieces_view(acc@) + Seq::<PieceMetadataView>::empty() =~= pieces_view(acc@));
            }
            Option::Some((acc, cur))
        },
        Option::None => Option::None,
    }
}

fn parse_sealed(buf: &Vec<u8>, pos: usize) -> (r: Option<(SealedSectorMetadata, usize)>)
    ensures
        match r {
            Option::Some((m, end)) => spec_parse_sealed(buf@, pos as int) == Option::Some(
                (m@, end as int),
            ),
            Option::None => spec_parse_sealed(buf@, pos as int) is None,
        },
{
    match parse_u64(buf, pos) {
        Option::Some((id, p1)) => match parse_str(buf, p1) {
            Option::Some((access, p2)) => match parse_pieces(buf, p2) {
                Option::Some((ps, p3)) => match parse_bytes(buf, p3) {
                    Option::Some((comm_r, p4)) => match parse_bytes(buf, p4) {
                        Option::Some((comm_d, p5)) => match parse_aux(buf, p5) {
                            Option::Some((aux, p6)) => match parse_bytes(buf, p6) {
                                Option::Some((proof_bytes, p7)) => match parse_bytes(buf, p7) {
                                    Option::Some((ck, p8)) => match parse_u64(buf, p8) {
                                        Option::Some((len, p9)) => match parse_ticket(buf, p9) {
                                            Option::Some((t, p10)) => {
                                                let m = SealedSectorMetadata {
                                                    sector_id: id,
                                                    sector_access: access,
                                                    pieces: ps,
                                                    comm_r,
                                                    comm_d,
                                                    p_aux: aux,
                                                    proof: proof_bytes,
                                                    blake2b_checksum: ck,
                                                    len,
                                                    seal_ticket: t,
                                                };
                                                Option::Some((m, p10))
                                            },
                                            Option::None => Option::None,
                                        },
                                        Option::None => Option::None,
                                    },
                                    Option::None => Option::None,
                                },
                                Option::None => Option::None,
                            },
                            Option::None => Option::None,
                        },
                        Option::None => Option::None,
                    },
                    Option::None => Option::None,
                },
                Option::None => Option::None,
            },
            Option::None => Option::None,
        },
        Option::None => Option::None,
    }
}

fn parse_status(buf: &Vec<u8>, pos: usize) -> (r: Option<(SealStatus, usize)>)
    ensures
        match r {
            Option::Some((st, end)) => spec_parse_status(buf@, pos as int) == Option::Some(
                (st@, end as int),
            ),
            Option::None => spec_parse_status(buf@, pos as int) is None,
        },
{
    if pos < buf.len() {
        let tag = buf[pos];
        if tag == 0 {
            Option::Some((SealStatus::AcceptingData, pos + 1))
        } else if tag == 1 {
            Option::Some((SealStatus::FullyPacked, pos + 1))
        } else if tag == 2 {
            Option::Some((SealStatus::ReadyForSealing, pos + 1))
        } else if tag == 3 {
            Option::Some((SealStatus::Paused, pos + 1))
        } else if tag == 4 {
            match parse_ticket(buf, pos + 1) {
                Option::Some((t, p1)) => Option::Some((SealStatus::Sealing(t), p1)),
                Option::None => Option::None,
            }
        } else if tag == 5 {
            match parse_sealed(buf, pos + 1) {
                Option::Some((m, p1)) => Option::Some((SealStatus::Sealed(Box::new(m)), p1)),
                Option::None => Option::None,
            }
        } else if tag == 6 {
            match parse_str(buf, pos + 1) {
                Option::Some((r, p1)) => Option::Some((SealStatus::Failed(r), p1)),
                Option::None => Option::None,
            }
        } else {
            Option::None
        }
    } else {
        Option::None
    }
}

fn parse_staged(buf: &Vec<u8>, pos: usize) -> (r: Option<(StagedSectorMetadata, usize)>)
    ensures
        match r {
            Option::Some((s, end)) => spec_parse_staged(buf@, pos as int) == Option::Some(
                (s@, end as int),
            ),
            Option::None => spec_parse_staged(buf@, pos as int) is None,
        },
{
    match parse_u64(buf, pos) {
        Option::Some((id, p1)) => match parse_str(buf, p1) {
            Option::Some((access, p2)) => match parse_pieces(buf, p2) {
                Option::Some((ps, p3)) => match parse_status(buf, p3) {
                    Option::Some((st, p4)) => {
                        let s = StagedSectorMetadata {
                            sector_id: id,
                            sector_access: access,
                            pieces: ps,
                            seal_status: st,
                        };
                        Option::Some((s, p4))
                    },
                    Option::None => Option::None,
                },
                Option::None => Option::None,
            },
            Option::None => Option::None,
        },
        Option::None => Option::None,
    }
}

fn parse_staged_sectors(buf: &Vec<u8>, pos: usize) -> (r: Option<(Vec<StagedSectorMetadata>, usize)>)
    ensures
        match r {
            Option::Some((ss, end)) => spec_parse_staged_sectors(buf@, pos as int) == Option::Some(
                (ss@.map_values(|s: StagedSectorMetadata| s@), end as int),
            ),
            Option::None => spec_parse_staged_sectors(buf@, pos as int) is None,
        },
{
    match parse_u64(buf, pos) {
        Option::Some((count, p1)) => {
            let mut acc: Vec<StagedSectorMetadata> = Vec::new();
            let mut cur: usize = p1;
            let mut k: u64 = 0;
            proof {
                assert(acc@.map_values(|s: StagedSectorMetadata| s@) =~= Seq::<
                    StagedSectorMetadataView,
                >::empty());
            }
            while k < count
                invariant
                    0 <= k <= count,
                    spec_parse_staged_sectors(buf@, pos as int) == (match spec_parse_staged_seq(
                        buf@,
                        cur as int,
                        count - k,
                    ) {
                        Option::Some((rest, end)) => Option::Some(
                            (acc@.map_values(|s: StagedSectorMetadata| s@) + rest, end),
                        ),
                        Option::None => Option::None::<(Seq<StagedSectorMetadataView>, int)>,
                    }),
                decreases count - k,
            {
                match parse_staged(buf, cur) {
                    Option::Some((s, p2)) => {
                        proof {
                            let rest_opt = spec_parse_staged_seq(buf@, p2 as int, count - k - 1);
                            match rest_opt {
                                Option::Some((rest, end)) => {
                                    assert(acc@.push(s).map_values(|x: StagedSectorMetadata| x@)
                                        =~= acc@.map_values(|x: StagedSectorMetadata| x@)
                                        + seq![s@]);
                                    assert(acc@.map_values(|x: StagedSectorMetadata| x@) + (
                                    seq![s@] + rest) =~= acc@.push(s).map_values(
                                        |x: StagedSectorMetadata| x@,
                                    ) + rest);
                                },
                                Option::None => {},
                            }
                        }
                        acc.push(s);
                        cur = p2;
                        k = k + 1;
                    },
                    Option::None => {
                        return Option::None;
                    },
                }
            }
            proof {
                assert(acc@.map_values(|s: StagedSectorMetadata| s@) + Seq::<
                    StagedSectorMetadataView,
                >::empty() =~= acc@.map_values(|s: StagedSectorMetadata| s@));
            }
            Option::Some((acc, cur))
        },
        Option::None => Option::None,
    }
}

fn parse_sealed_sectors(buf: &Vec<u8>, pos: usize) -> (r: Option<(Vec<SealedSectorMetadata>, usize)>)
    ensures
        match r {
            Option::Some((ss, end)) => spec_parse_sealed_sectors(buf@, pos as int) == Option::Some(
                (ss@.map_values(|s: SealedSectorMetadata| s@), end as int),
            ),
            Option::None => spec_parse_sealed_sectors(buf@, pos as int) is None,
        },
{
    match parse_u64(buf, pos) {
        Option::Some((count, p1)) => {
            let mut acc: Vec<SealedSectorMetadata> = Vec::new();
            let mut cur: usize = p1;
            let mut k: u64 = 0;
            proof {
                assert(acc@.map_values(|s: SealedSectorMetadata| s@) =~= Seq::<
                    SealedSectorMetadataView,
                >::empty());
            }
            while k < count
                invariant
                    0 <= k <= count,
                    spec_parse_sealed_sectors(buf@, pos as int) == (match spec_parse_sealed_seq(
                        buf@,
                        cur as int,
                        count - k,
                    ) {
                        Option::Some((rest, end)) => Option::Some(
                            (acc@.map_values(|s: SealedSectorMetadata| s@) + rest, end),
                        ),
                        Option::None => Option::None::<(Seq<SealedSectorMetadataView>, int)>,
                    }),
                decreases count - k,
            {
                match parse_sealed(buf, cur) {
                    Option::Some((s, p2)) => {
                        proof {
                            let rest_opt = spec_parse_sealed_seq(buf@, p2 as int, count - k - 1);
                            match rest_opt {
                                Option::Some((rest, end)) => {
                                    assert(acc@.push(s).map_values(|x: SealedSectorMetadata| x@)
                                        =~= acc@.map_values(|x: SealedSectorMetadata| x@)
                                        + seq![s@]);
                                    assert(acc@.map_values(|x: SealedSectorMetadata| x@) + (
                                    seq![s@] + rest) =~= acc@.push(s).map_values(
                                        |x: SealedSectorMetadata| x@,
                                    ) + rest);
                                },
                                Option::None => {},
                            }
                        }
                        acc.push(s);
                        cur = p2;
                        k = k + 1;
                    },
                    Option::None => {
                        return Option::None;
                    },
                }
            }
            proof {
                assert(acc@.map_values(|s: SealedSectorMetadata| s@) + Seq::<
                    SealedSectorMetadataView,
                >::empty() =~= acc@.map_values(|s: SealedSectorMetadata| s@));
            }
            Option::Some((acc, cur))
        },
        Option::None => Option::None,
    }
}

/// Decodes a snapshot blob back into an engine state. Rejects malformed
/// blobs and trailing bytes.
pub fn deserialize_state(buf: &Vec<u8>) -> (r: Option<SectorBuilderState>)
    ensures
        match r {
            Option::Some(st) => spec_parse_state(buf@, 0) == Option::Some(
                (st@, buf@.len() as int),
            ),
            Option::None => (match spec_parse_state(buf@, 0) {
                Option::Some((v, end)) => end != buf@.len(),
                Option::None => true,
            }),
        },
{
    match parse_u64(buf, 0) {
        Option::Some((lcsi, p1)) => match parse_staged_sectors(buf, p1) {
            Option::Some((staged, p2)) => match parse_sealed_sectors(buf, p2) {
                Option::Some((sealed, p3)) => {
                    if p3 == buf.len() {
                        let st = SectorBuilderState {
                            staged: StagedState { sectors: staged },
                            sealed: SealedState { sectors: sealed },
                            last_committed_sector_id: lcsi,
                        };
                        proof {
                            assert(st@ =~= (SectorBuilderStateView {
                                staged: st.staged@,
                                sealed: st.sealed@,
                                last_committed_sector_id: lcsi,
                            }));
                        }
                        Option::Some(st)
                    } else {
                        Option::None
                    }
                },
                Option::None => Option::None,
            },
            Option::None => Option::None,
        },
        Option::None => Option::None,
    }
}

/// Decoding the encoding of a state gives that state back: the executable
/// face of the snapshot round trip.
pub fn snapshot_round_trip(st: &SectorBuilderState) -> (r: Option<SectorBuilderState>)
    ensures
        match r {
            Option::Some(st2) => st2@ == st@,
            Option::None => false,
        },
{
    let blob = serialize_state(st);
    proof {
        lemma_snapshot_round_trip(st@);
    }
    deserialize_state(&blob)
}

} // verus!
