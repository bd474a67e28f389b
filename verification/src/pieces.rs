//! Placement arithmetic for pieces inside a staged sector.
//!
//! A piece of unpadded length `n` is placed at the smallest offset, at or
//! after the sector's current fill, that is a multiple of the smallest power
//! of two not below `n`; the sector's fill after the placement is that offset
//! plus `n`.

use vstd::prelude::*;

verus! {

/// The smallest power of two that is at least `max(n, 1)`.
pub open spec fn spec_piece_alignment(n: int) -> int
    decreases n,
{
    if n <= 1 {
        1
    } else {
        2 * spec_piece_alignment((n + 1) / 2)
    }
}

/// The smallest multiple of `a` that is at least `x`.
pub open spec fn spec_align_up(x: int, a: int) -> int
    recommends
        x >= 0,
        a >= 1,
{
    ((x + a - 1) / a) * a
}

/// Offset at which a piece of length `n` is placed in a sector whose current
/// fill is `used`.
pub open spec fn spec_piece_start(used: int, n: int) -> int {
    spec_align_up(used, spec_piece_alignment(n))
}

/// Sector fill after a piece of length `n` is placed at fill `used`.
pub open spec fn spec_used_after(used: int, n: int) -> int {
    spec_piece_start(used, n) + n
}

/// Sector fill after the pieces with the given lengths are placed in order
/// into an empty sector.
pub open spec fn spec_used(ns: Seq<u64>) -> int
    decreases ns.len(),
{
    if ns.len() == 0 {
        0
    } else {
        spec_used_after(spec_used(ns.drop_last()), ns.last() as int)
    }
}

pub proof fn lemma_alignment_bounds(n: int)
    requires
        n >= 1,
    ensures
        spec_piece_alignment(n) >= 1,
        spec_piece_alignment(n) >= n,
        n >= 2 ==> spec_piece_alignment(n) <= 2 * (n - 1),
    decreases n,
{
    if n >= 2 {
        lemma_alignment_bounds((n + 1) / 2);
    }
}

pub proof fn lemma_align_up_bounds(x: int, a: int)
    requires
        x >= 0,
        a >= 1,
    ensures
        x <= spec_align_up(x, a),
        spec_align_up(x, a) < x + a,
        spec_align_up(x, a) % a == 0,
{
    let y = x + a - 1;
    vstd::arithmetic::div_mod::lemma_fundamental_div_mod(y, a);
    vstd::arithmetic::div_mod::lemma_mod_bound(y, a);
    assert((y / a) * a % a == 0) by {
        vstd::arithmetic::div_mod::lemma_mod_multiples_basic(y / a, a);
    }
}

/// Placing a piece never moves the fill backwards, and advances it by at
/// least the piece's length.
pub proof fn lemma_used_after_bounds(used: int, n: int)
    requires
        used >= 0,
        n >= 0,
    ensures
        spec_used_after(used, n) >= used + n,
        spec_used_after(used, n) < used + spec_piece_alignment(n) + n,
        spec_piece_start(used, n) >= used,
{
    lemma_alignment_bounds(if n >= 1 { n } else { 1 });
    lemma_align_up_bounds(used, spec_piece_alignment(n));
}

/// The fill of a sector is never negative and grows with every piece.
pub proof fn lemma_used_nonneg(ns: Seq<u64>)
    ensures
        spec_used(ns) >= 0,
    decreases ns.len(),
{
    if ns.len() > 0 {
        lemma_used_nonneg(ns.drop_last());
        lemma_used_after_bounds(spec_used(ns.drop_last()), ns.last() as int);
    }
}

/// Appending one piece advances the fill by the placement rule.
pub proof fn lemma_used_push(ns: Seq<u64>, n: u64)
    ensures
        spec_used(ns.push(n)) == spec_used_after(spec_used(ns), n as int),
{
    assert(ns.push(n).drop_last() =~= ns);
}

/// The fill of a prefix never exceeds the fill of the whole sequence.
pub proof fn lemma_used_prefix(ns: Seq<u64>, i: int)
    requires
        0 <= i <= ns.len(),
    ensures
        spec_used(ns.subrange(0, i)) <= spec_used(ns),
    decreases ns.len() - i,
{
    if i < ns.len() {
        lemma_used_prefix(ns, i + 1);
        let p = ns.subrange(0, i + 1);
        assert(p.drop_last() =~= ns.subrange(0, i));
        lemma_used_nonneg(ns.subrange(0, i));
        lemma_used_after_bounds(spec_used(ns.subrange(0, i)), p.last() as int);
    } else {
        assert(ns.subrange(0, i) =~= ns);
    }
}

/// Smallest power of two at least `max(n, 1)`, as a value.
pub fn piece_alignment(n: u64) -> (a: u128)
    ensures
        a as int == spec_piece_alignment(n as int),
    decreases n,
{
    proof {
        lemma_alignment_bounds(if n >= 1 { n as int } else { 1 });
    }
    if n <= 1 {
        1
    } else {
        let half = piece_alignment((n - 1) / 2 + 1);
        proof {
            assert((n - 1) / 2 + 1 == (n + 1) / 2) by (nonlinear_arith)
                requires n >= 2;
            lemma_alignment_bounds(((n as int) + 1) / 2);
        }
        2 * half
    }
}

/// Offset at which a piece of length `n` lands in a sector whose fill is
/// `used`.
pub fn piece_start(used: u64, n: u64) -> (r: u128)
    ensures
        r as int == spec_piece_start(used as int, n as int),
{
    let a = piece_alignment(n);
    proof {
        lemma_alignment_bounds(if n >= 1 { n as int } else { 1 });
        lemma_align_up_bounds(used as int, a as int);
    }
    let x = used as u128;
    ((x + a - 1) / a) * a
}

/// Sector fill after a piece of length `n` is placed at fill `used`.
pub fn used_after(used: u64, n: u64) -> (r: u128)
    ensures
        r as int == spec_used_after(used as int, n as int),
{
    let s = piece_start(used, n);
    proof {
        lemma_used_after_bounds(used as int, n as int);
        lemma_alignment_bounds(if n >= 1 { n as int } else { 1 });
    }
    s + (n as u128)
}

/// Byte offset of the piece that follows pieces of the given lengths in its
/// sector: the fill those pieces produce, aligned for a piece of length
/// `num_bytes`.
pub fn get_piece_start_byte(piece_lengths: &Vec<u64>, num_bytes: u64) -> (r: u64)
    requires
        spec_piece_start(spec_used(piece_lengths@), num_bytes as int) <= u64::MAX,
    ensures
        r as int == spec_piece_start(spec_used(piece_lengths@), num_bytes as int),
{
    proof {
        lemma_used_nonneg(piece_lengths@);
        lemma_used_after_bounds(spec_used(piece_lengths@), num_bytes as int);
    }
    let used = sector_used(piece_lengths);
    let r = piece_start(used, num_bytes);
    r as u64
}

/// Whether the fill produced by the given piece lengths stays within
/// `bound`. Safe on untrusted input: the fill is never materialized beyond
/// the first overflow.
pub fn sector_used_within(piece_lengths: &Vec<u64>, bound: u64) -> (r: bool)
    ensures
        r == (spec_used(piece_lengths@) <= bound),
{
    let mut acc: u64 = 0;
    let mut i: usize = 0;
    proof {
        assert(piece_lengths@.subrange(0, 0) =~= Seq::<u64>::empty());
    }
    while i < piece_lengths.len()
        invariant
            0 <= i <= piece_lengths@.len(),
            acc as int == spec_used(piece_lengths@.subrange(0, i as int)),
            acc <= bound,
        decreases piece_lengths@.len() - i,
    {
        let n = piece_lengths[i];
        let next = used_after(acc, n);
        proof {
            let pre = piece_lengths@.subrange(0, i as int);
            let post = piece_lengths@.subrange(0, i + 1);
            assert(post.drop_last() =~= pre);
            assert(spec_used(post) == spec_used_after(acc as int, n as int));
            lemma_used_after_bounds(acc as int, n as int);
            lemma_used_prefix(piece_lengths@, i + 1);
        }
        if next > bound as u128 {
            return false;
        }
        acc = next as u64;
        i = i + 1;
    }
    proof {
        assert(piece_lengths@.subrange(0, piece_lengths@.len() as int) =~= piece_lengths@);
    }
    true
}

/// Sector fill produced by the given piece lengths, placed in order.
///
/// The fill is capped by the sector's capacity in every well-formed sector,
/// so it is required to fit in a `u64`.
pub fn sector_used(piece_lengths: &Vec<u64>) -> (r: u64)
    requires
        spec_used(piece_lengths@) <= u64::MAX,
    ensures
        r as int == spec_used(piece_lengths@),
{
    let mut acc: u64 = 0;
    let mut i: usize = 0;
    proof {
        assert(piece_lengths@.subrange(0, 0) =~= Seq::<u64>::empty());
    }
    while i < piece_lengths.len()
        invariant
            0 <= i <= piece_lengths@.len(),
            acc as int == spec_used(piece_lengths@.subrange(0, i as int)),
            spec_used(piece_lengths@) <= u64::MAX,
        decreases piece_lengths@.len() - i,
    {
        let n = piece_lengths[i];
        let next = used_after(acc, n);
        proof {
            let pre = piece_lengths@.subrange(0, i as int);
            let post = piece_lengths@.subrange(0, i + 1);
            assert(post.drop_last() =~= pre);
            assert(spec_used(post) == spec_used_after(acc as int, n as int));
            lemma_used_prefix(piece_lengths@, i + 1);
            lemma_used_nonneg(pre);
            lemma_used_after_bounds(acc as int, n as int);
        }
        acc = next as u64;
        i = i + 1;
    }
    proof {
        assert(piece_lengths@.subrange(0, piece_lengths@.len() as int) =~= piece_lengths@);
    }
    acc
}

} // verus!
