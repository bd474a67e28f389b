//! The packer: pure decisions over the staged-sector map. Choosing the
//! sector a piece lands in, recording a completed piece write, and picking
//! the sectors whose sealing is due.

use vstd::prelude::*;
use crate::error::SectorBuilderErr;
use crate::metadata::{
    PieceMetadata, PieceMetadataView, SealStatus, SealStatusView, StagedSectorMetadata,
    StagedSectorMetadataView,
};
use crate::pieces::{
    lemma_used_nonneg, lemma_used_push, sector_used, spec_used_after, used_after,
};
use crate::state::{count_open, lemma_count_open_bounds, staged_ids_increasing, StagedState};

verus! {

/// Whether a piece of length `n` may be placed in the given staged sector:
/// the sector is open for more data and the piece fits under the placement
/// rule.
pub open spec fn spec_fits(s: StagedSectorMetadataView, n: u64, max_bytes: u64) -> bool {
    &&& s.seal_status is AcceptingData
    &&& spec_used_after(s.used(), n as int) <= max_bytes
}

/// The unpadded lengths of the given pieces, in order.
pub fn piece_lens(pieces: &Vec<PieceMetadata>) -> (r: Vec<u64>)
    ensures
        r@ == pieces@.map_values(|p: PieceMetadata| p.num_bytes),
{
    let mut r: Vec<u64> = Vec::new();
    let mut i: usize = 0;
    while i < pieces.len()
        invariant
            0 <= i <= pieces@.len(),
            r@ =~= pieces@.subrange(0, i as int).map_values(|p: PieceMetadata| p.num_bytes),
        decreases pieces@.len() - i,
    {
        r.push(pieces[i].num_bytes);
        proof {
            assert(pieces@.subrange(0, i + 1).map_values(|p: PieceMetadata| p.num_bytes) =~= r@);
        }
        i = i + 1;
    }
    proof {
        assert(pieces@.subrange(0, pieces@.len() as int) =~= pieces@);
    }
    r
}

/// The lengths of a sector's pieces seen through the view agree with the
/// lengths read off the record itself.
pub proof fn lemma_piece_lens_view(s: StagedSectorMetadata)
    ensures
        s@.piece_lens() =~= s.pieces@.map_values(|p: PieceMetadata| p.num_bytes),
{
}

/// Picks the sector an incoming piece of `piece_bytes_amount` bytes will be
/// written to, allocating a new staged sector under `new_sector_id` when no
/// open sector can host the piece and a staging slot is free.
///
/// The choice is exactly the one the contract names: the oldest open sector
/// the piece fits into under the placement rule, else a fresh sector, else
/// the `FullyStaged` refusal; a piece above the sector capacity is refused
/// outright.
pub fn add_piece_first(
    staged: &mut StagedState,
    piece_bytes_amount: u64,
    new_sector_id: u64,
    new_sector_access: String,
    max_user_bytes: u64,
    max_num_staged_sectors: u8,
) -> (r: Result<u64, SectorBuilderErr>)
    requires
        staged_ids_increasing(old(staged)@),
        forall|i: int| 0 <= i < old(staged)@.len() ==> (#[trigger] old(staged)@[i]).wf(max_user_bytes),
        forall|i: int|
            0 <= i < old(staged)@.len() ==> (#[trigger] old(staged)@[i]).sector_id < new_sector_id,
        old(staged)@.len() < usize::MAX,
    ensures
        staged_ids_increasing(final(staged)@),
        forall|i: int|
            0 <= i < final(staged)@.len() ==> (#[trigger] final(staged)@[i]).wf(max_user_bytes),
        piece_bytes_amount > max_user_bytes ==> r == Err::<u64, SectorBuilderErr>(
            SectorBuilderErr::OverflowError { num_bytes: piece_bytes_amount, max: max_user_bytes },
        ) && final(staged)@ == old(staged)@,
        (piece_bytes_amount <= max_user_bytes && (exists|i: int|
            0 <= i < old(staged)@.len() && spec_fits(
                old(staged)@[i],
                piece_bytes_amount,
                max_user_bytes,
            ))) ==> final(staged)@ == old(staged)@ && (exists|i: int|
            #![auto]
            0 <= i < old(staged)@.len() && spec_fits(
                old(staged)@[i],
                piece_bytes_amount,
                max_user_bytes,
            ) && (forall|j: int|
                0 <= j < i ==> !spec_fits(old(staged)@[j], piece_bytes_amount, max_user_bytes))
                && r == Ok::<u64, SectorBuilderErr>(old(staged)@[i].sector_id)),
        (piece_bytes_amount <= max_user_bytes && (forall|i: int|
            0 <= i < old(staged)@.len() ==> !spec_fits(
                #[trigger] old(staged)@[i],
                piece_bytes_amount,
                max_user_bytes,
            )) && count_open(old(staged)@) < max_num_staged_sectors as int) ==> r == Ok::<
            u64,
            SectorBuilderErr,
        >(new_sector_id) && final(staged)@ == old(staged)@.push(
            (StagedSectorMetadataView {
                sector_id: new_sector_id,
                sector_access: new_sector_access@,
                pieces: Seq::empty(),
                seal_status: SealStatusView::AcceptingData,
            }),
        ),
        (piece_bytes_amount <= max_user_bytes && (forall|i: int|
            0 <= i < old(staged)@.len() ==> !spec_fits(
                #[trigger] old(staged)@[i],
                piece_bytes_amount,
                max_user_bytes,
            )) && count_open(old(staged)@) >= max_num_staged_sectors as int) ==> r == Err::<
            u64,
            SectorBuilderErr,
        >(SectorBuilderErr::FullyStaged) && final(staged)@ == old(staged)@,
{
    let ghost s0 = staged@;
    if piece_bytes_amount > max_user_bytes {
        return Err(
            SectorBuilderErr::OverflowError { num_bytes: piece_bytes_amount, max: max_user_bytes },
        );
    }
    let mut i: usize = 0;
    while i < staged.sectors.len()
        invariant
            staged@ == s0,
            s0 == old(staged)@,
            piece_bytes_amount <= max_user_bytes,
            staged_ids_increasing(s0),
            0 <= i <= staged.sectors@.len(),
            forall|j: int| 0 <= j < i ==> !spec_fits(s0[j], piece_bytes_amount, max_user_bytes),
            forall|k: int| 0 <= k < s0.len() ==> (#[trigger] s0[k]).wf(max_user_bytes),
        decreases staged.sectors@.len() - i,
    {
        let accepting = match staged.sectors[i].seal_status {
            SealStatus::AcceptingData => true,
            _ => false,
        };
        if accepting {
            let lens = piece_lens(&staged.sectors[i].pieces);
            proof {
                assert(s0[i as int] == staged.sectors@[i as int]@);
                lemma_piece_lens_view(staged.sectors@[i as int]);
                assert(lens@ =~= s0[i as int].piece_lens());
                assert(s0[i as int].wf(max_user_bytes));
                lemma_used_nonneg(lens@);
            }
            let used = sector_used(&lens);
            let after = used_after(used, piece_bytes_amount);
            if after <= max_user_bytes as u128 {
                proof {
                    assert(spec_fits(s0[i as int], piece_bytes_amount, max_user_bytes));
                }
                return Ok(staged.sectors[i].sector_id);
            }
        }
        i = i + 1;
    }
    let open_count = staged.count_open_sectors();
    proof {
        lemma_count_open_bounds(s0);
    }
    if open_count < max_num_staged_sectors as usize {
        let fresh = StagedSectorMetadata {
            sector_id: new_sector_id,
            sector_access: new_sector_access,
            pieces: Vec::new(),
            seal_status: SealStatus::AcceptingData,
        };
        proof {
            assert(fresh@.pieces =~= Seq::<PieceMetadataView>::empty());
            assert(fresh@.piece_lens() =~= Seq::<u64>::empty());
        }
        staged.sectors.push(fresh);
        proof {
            assert(staged@ =~= s0.push(
                (StagedSectorMetadataView {
                    sector_id: new_sector_id,
                    sector_access: new_sector_access@,
                    pieces: Seq::empty(),
                    seal_status: SealStatusView::AcceptingData,
                }),
            ));
        }
        Ok(new_sector_id)
    } else {
        Err(SectorBuilderErr::FullyStaged)
    }
}

/// Records that the bytes of a piece were written into the given staged
/// sector: appends the piece's metadata and marks the sector fully packed
/// once its capacity is reached.
///
/// A write that did not deliver exactly the promised number of bytes is a
/// fatal receiver error and leaves the record unchanged.
pub fn add_piece_second(
    staged_sector: StagedSectorMetadata,
    piece_key: String,
    piece_bytes_amount: u64,
    num_bytes_written: u64,
    max_user_bytes: u64,
) -> (r: Result<StagedSectorMetadata, SectorBuilderErr>)
    requires
        spec_fits(staged_sector@, piece_bytes_amount, max_user_bytes),
        staged_sector.pieces@.len() < usize::MAX,
    ensures
        num_bytes_written != piece_bytes_amount ==> r == Err::<
            StagedSectorMetadata,
            SectorBuilderErr,
        >(
            SectorBuilderErr::IncompleteWriteError {
                num_bytes_written,
                num_bytes_in_piece: piece_bytes_amount,
            },
        ),
        num_bytes_written == piece_bytes_amount ==> (match r {
            Result::Ok(s2) => {
                &&& s2@.sector_id == staged_sector@.sector_id
                &&& s2@.sector_access == staged_sector@.sector_access
                &&& s2@.pieces == staged_sector@.pieces.push(
                    (PieceMetadataView {
                        piece_key: piece_key@,
                        num_bytes: piece_bytes_amount,
                        comm_p: Option::None,
                        piece_inclusion_proof: Option::None,
                    }),
                )
                &&& s2@.used() == spec_used_after(staged_sector@.used(), piece_bytes_amount as int)
                &&& s2@.seal_status == (if s2@.used() >= max_user_bytes {
                    SealStatusView::FullyPacked
                } else {
                    SealStatusView::AcceptingData
                })
                &&& s2@.wf(max_user_bytes)
            },
            Result::Err(_) => false,
        }),
{
    if num_bytes_written != piece_bytes_amount {
        return Err(
            SectorBuilderErr::IncompleteWriteError {
                num_bytes_written,
                num_bytes_in_piece: piece_bytes_amount,
            },
        );
    }
    let ghost old_sector = staged_sector@;
    let mut staged_sector = staged_sector;
    staged_sector.pieces.push(
        PieceMetadata {
            piece_key,
            num_bytes: piece_bytes_amount,
            comm_p: Option::None,
            piece_inclusion_proof: Option::None,
        },
    );
    proof {
        assert(staged_sector@.pieces =~= old_sector.pieces.push(
            (PieceMetadataView {
                piece_key: piece_key@,
                num_bytes: piece_bytes_amount,
                comm_p: Option::None,
                piece_inclusion_proof: Option::None,
            }),
        ));
        assert(staged_sector@.piece_lens() =~= old_sector.piece_lens().push(piece_bytes_amount));
        lemma_used_push(old_sector.piece_lens(), piece_bytes_amount);
    }
    let lens = piece_lens(&staged_sector.pieces);
    proof {
        lemma_piece_lens_view(staged_sector);
        lemma_used_nonneg(lens@);
    }
    let used = sector_used(&lens);
    if used >= max_user_bytes {
        staged_sector.seal_status = SealStatus::FullyPacked;
    }
    Ok(staged_sector)
}

/// The staged sector at `i` is open and no older staged sector is: it is
/// the oldest sector not yet picked for sealing or sealed.
pub open spec fn spec_oldest_open(s: Seq<StagedSectorMetadataView>, i: int) -> bool {
    &&& s[i].seal_status.is_open()
    &&& forall|j: int| 0 <= j < i ==> !(#[trigger] s[j]).seal_status.is_open()
}

/// Whether the staged sector at `i` is due for sealing: it is open, and
/// either all staged sectors were asked to seal, or it is full, or every
/// staging slot is taken and it is the oldest open sector.
pub open spec fn spec_ready(
    s: Seq<StagedSectorMetadataView>,
    i: int,
    max_bytes: u64,
    max_staged: u8,
    seal_all: bool,
) -> bool {
    &&& s[i].seal_status.is_open()
    &&& (seal_all || s[i].seal_status is FullyPacked || s[i].used() >= max_bytes || (count_open(s)
        == max_staged as int && spec_oldest_open(s, i)))
}

/// The ids of the sectors among the first `k` that are due for sealing, in
/// ascending order.
pub open spec fn spec_ready_ids_upto(
    s: Seq<StagedSectorMetadataView>,
    k: int,
    max_bytes: u64,
    max_staged: u8,
    seal_all: bool,
) -> Seq<u64>
    decreases k,
{
    if k <= 0 {
        Seq::empty()
    } else {
        spec_ready_ids_upto(s, k - 1, max_bytes, max_staged, seal_all) + (if spec_ready(
            s,
            k - 1,
            max_bytes,
            max_staged,
            seal_all,
        ) {
            seq![s[k - 1].sector_id]
        } else {
            Seq::empty()
        })
    }
}

/// The ids of all sectors due for sealing, in ascending order.
pub open spec fn spec_ready_ids(
    s: Seq<StagedSectorMetadataView>,
    max_bytes: u64,
    max_staged: u8,
    seal_all: bool,
) -> Seq<u64> {
    spec_ready_ids_upto(s, s.len() as int, max_bytes, max_staged, seal_all)
}

/// Index of the oldest open staged sector, if any is open.
pub(crate) fn first_open_index(staged: &StagedState) -> (r: Option<usize>)
    ensures
        match r {
            Option::Some(f) => f < staged@.len() && spec_oldest_open(staged@, f as int),
            Option::None => forall|j: int|
                0 <= j < staged@.len() ==> !(#[trigger] staged@[j]).seal_status.is_open(),
        },
{
    let mut j: usize = 0;
    while j < staged.sectors.len()
        invariant
            0 <= j <= staged.sectors@.len(),
            forall|k: int| 0 <= k < j ==> !(#[trigger] staged@[k]).seal_status.is_open(),
        decreases staged.sectors@.len() - j,
    {
        if staged.sectors[j].seal_status.is_open() {
            return Option::Some(j);
        }
        j = j + 1;
    }
    Option::None
}

/// Picks every staged sector that is due for sealing, marks it ready, and
/// returns the chosen ids in ascending order.
///
/// A sector is due when it is still open and any of these holds: all staged
/// sectors were asked to seal; it is full under the placement rule; every
/// staging slot is taken and it is the oldest open sector.
pub fn get_sectors_ready_for_sealing(
    staged: &mut StagedState,
    max_user_bytes: u64,
    max_num_staged_sectors: u8,
    seal_all_staged_sectors: bool,
) -> (r: Vec<u64>)
    requires
        forall|i: int| 0 <= i < old(staged)@.len() ==> (#[trigger] old(staged)@[i]).wf(max_user_bytes),
    ensures
        final(staged)@.len() == old(staged)@.len(),
        forall|i: int|
            0 <= i < old(staged)@.len() ==> final(staged)@[i] == (if spec_ready(
                old(staged)@,
                i,
                max_user_bytes,
                max_num_staged_sectors,
                seal_all_staged_sectors,
            ) {
                (StagedSectorMetadataView {
                    seal_status: SealStatusView::ReadyForSealing,
                    ..old(staged)@[i]
                })
            } else {
                old(staged)@[i]
            }),
        r@ == spec_ready_ids(
            old(staged)@,
            max_user_bytes,
            max_num_staged_sectors,
            seal_all_staged_sectors,
        ),
        forall|i: int|
            0 <= i < final(staged)@.len() ==> (#[trigger] final(staged)@[i]).wf(max_user_bytes),
        staged_ids_increasing(old(staged)@) ==> staged_ids_increasing(final(staged)@),
{
    let ghost s0 = staged@;
    let open_count = staged.count_open_sectors();
    let first_open = first_open_index(staged);
    let mut r: Vec<u64> = Vec::new();
    let mut i: usize = 0;
    while i < staged.sectors.len()
        invariant
            s0 == old(staged)@,
            staged@.len() == s0.len(),
            0 <= i <= s0.len(),
            open_count as int == count_open(s0),
            match first_open {
                Option::Some(f) => f < s0.len() && spec_oldest_open(s0, f as int),
                Option::None => forall|j: int|
                    0 <= j < s0.len() ==> !(#[trigger] s0[j]).seal_status.is_open(),
            },
            forall|k: int| 0 <= k < s0.len() ==> (#[trigger] s0[k]).wf(max_user_bytes),
            forall|j: int| i <= j < s0.len() ==> staged@[j] == s0[j],
            forall|j: int|
                0 <= j < i ==> staged@[j] == (if spec_ready(
                    s0,
                    j,
                    max_user_bytes,
                    max_num_staged_sectors,
                    seal_all_staged_sectors,
                ) {
                    (StagedSectorMetadataView {
                        seal_status: SealStatusView::ReadyForSealing,
                        ..s0[j]
                    })
                } else {
                    s0[j]
                }),
            r@ == spec_ready_ids_upto(
                s0,
                i as int,
                max_user_bytes,
                max_num_staged_sectors,
                seal_all_staged_sectors,
            ),
        decreases s0.len() - i,
    {
        let open = staged.sectors[i].seal_status.is_open();
        let full = match staged.sectors[i].seal_status {
            SealStatus::FullyPacked => true,
            _ => false,
        };
        let lens = piece_lens(&staged.sectors[i].pieces);
        proof {
            assert(staged@[i as int] == staged.sectors@[i as int]@);
            lemma_piece_lens_view(staged.sectors@[i as int]);
            assert(lens@ =~= s0[i as int].piece_lens());
            assert(s0[i as int].wf(max_user_bytes));
            lemma_used_nonneg(lens@);
        }
        let used = sector_used(&lens);
        let oldest_when_capped = open_count == max_num_staged_sectors as usize && (match first_open
            {
            Option::Some(f) => f == i,
            Option::None => false,
        });
        let ready = open && (seal_all_staged_sectors || full || used >= max_user_bytes
            || oldest_when_capped);
        proof {
            assert(ready == spec_ready(
                s0,
                i as int,
                max_user_bytes,
                max_num_staged_sectors,
                seal_all_staged_sectors,
            ));
        }
        if ready {
            let id = staged.sectors[i].sector_id;
            staged.sectors[i].seal_status = SealStatus::ReadyForSealing;
            r.push(id);
            proof {
                assert(staged@[i as int] =~= (StagedSectorMetadataView {
                    seal_status: SealStatusView::ReadyForSealing,
                    ..s0[i as int]
                }));
            }
        }
        proof {
            assert(r@ =~= spec_ready_ids_upto(
                s0,
                i + 1,
                max_user_bytes,
                max_num_staged_sectors,
                seal_all_staged_sectors,
            ));
            assert(forall|j: int| i + 1 <= j < s0.len() ==> staged@[j] == s0[j]);
        }
        i = i + 1;
    }
    r
}

} // verus!
