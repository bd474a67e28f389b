//! The in-memory record of every staged and sealed sector, plus the
//! monotonically increasing id of the last committed sector.

use vstd::prelude::*;
use crate::metadata::{
    SealedSectorMetadata, SealedSectorMetadataView, StagedSectorMetadata, StagedSectorMetadataView,
};

verus! {

/// All staged sectors, held in ascending `sector_id` order.
#[derive(Debug, Clone, PartialEq, Eq)]
pub struct StagedState {
    pub sectors: Vec<StagedSectorMetadata>,
}

impl View for StagedState {
    type V = Seq<StagedSectorMetadataView>;

    open spec fn view(&self) -> Seq<StagedSectorMetadataView> {
        self.sectors@.map_values(|s: StagedSectorMetadata| s@)
    }
}

/// All sealed sectors, held in ascending `sector_id` order. The engine never
/// deletes a sealed entry.
#[derive(Debug, Clone, PartialEq, Eq)]
pub struct SealedState {
    pub sectors: Vec<SealedSectorMetadata>,
}

impl View for SealedState {
    type V = Seq<SealedSectorMetadataView>;

    open spec fn view(&self) -> Seq<SealedSectorMetadataView> {
        self.sectors@.map_values(|s: SealedSectorMetadata| s@)
    }
}

/// The whole engine state: what is staged, what is sealed, and the highest
/// sector id ever issued.
#[derive(Debug, Clone, PartialEq, Eq)]
pub struct SectorBuilderState {
    pub staged: StagedState,
    pub sealed: SealedState,
    pub last_committed_sector_id: u64,
}

#[verifier::ext_equal]
pub ghost struct SectorBuilderStateView {
    pub staged: Seq<StagedSectorMetadataView>,
    pub sealed: Seq<SealedSectorMetadataView>,
    pub last_committed_sector_id: u64,
}

impl View for SectorBuilderState {
    type V = SectorBuilderStateView;

    open spec fn view(&self) -> SectorBuilderStateView {
        SectorBuilderStateView {
            staged: self.staged@,
            sealed: self.sealed@,
            last_committed_sector_id: self.last_committed_sector_id,
        }
    }
}

/// The staged sectors' ids are strictly increasing along the sequence: each
/// id occurs once and iteration runs from oldest to newest.
pub open spec fn staged_ids_increasing(s: Seq<StagedSectorMetadataView>) -> bool {
    forall|i: int, j: int| 0 <= i < j < s.len() ==> s[i].sector_id < s[j].sector_id
}

pub open spec fn sealed_ids_increasing(s: Seq<SealedSectorMetadataView>) -> bool {
    forall|i: int, j: int| 0 <= i < j < s.len() ==> s[i].sector_id < s[j].sector_id
}

/// Whether some staged sector carries the given id.
pub open spec fn staged_contains(s: Seq<StagedSectorMetadataView>, id: u64) -> bool {
    exists|i: int| 0 <= i < s.len() && s[i].sector_id == id
}

pub open spec fn sealed_contains(s: Seq<SealedSectorMetadataView>, id: u64) -> bool {
    exists|i: int| 0 <= i < s.len() && s[i].sector_id == id
}

/// How many staged sectors are still open (accepting data or fully packed
/// but not yet picked for sealing); these count against the cap on
/// simultaneously staged sectors.
pub open spec fn count_open(s: Seq<StagedSectorMetadataView>) -> int
    decreases s.len(),
{
    if s.len() == 0 {
        0
    } else {
        count_open(s.drop_last()) + if s.last().seal_status.is_open() {
            1int
        } else {
            0int
        }
    }
}

pub proof fn lemma_count_open_bounds(s: Seq<StagedSectorMetadataView>)
    ensures
        0 <= count_open(s) <= s.len(),
    decreases s.len(),
{
    if s.len() > 0 {
        lemma_count_open_bounds(s.drop_last());
    }
}

/// Replacing one sector changes the open count exactly by the difference the
/// replacement makes.
pub proof fn lemma_count_open_update(
    s: Seq<StagedSectorMetadataView>,
    i: int,
    x: StagedSectorMetadataView,
)
    requires
        0 <= i < s.len(),
    ensures
        count_open(s.update(i, x)) == count_open(s) - (
        if s[i].seal_status.is_open() {
            1int
        } else {
            0int
        }) + (
        if x.seal_status.is_open() {
            1int
        } else {
            0int
        }),
    decreases s.len(),
{
    let t = s.update(i, x);
    if i == s.len() - 1 {
        assert(t.drop_last() =~= s.drop_last());
    } else {
        assert(t.drop_last() =~= s.drop_last().update(i, x));
        lemma_count_open_update(s.drop_last(), i, x);
    }
}

pub proof fn lemma_count_open_push(s: Seq<StagedSectorMetadataView>, x: StagedSectorMetadataView)
    ensures
        count_open(s.push(x)) == count_open(s) + if x.seal_status.is_open() {
            1int
        } else {
            0int
        },
{
    assert(s.push(x).drop_last() =~= s);
}

/// A pointwise change that never opens a sector never raises the open
/// count.
pub proof fn lemma_count_open_mono(
    s1: Seq<StagedSectorMetadataView>,
    s2: Seq<StagedSectorMetadataView>,
)
    requires
        s1.len() == s2.len(),
        forall|i: int|
            0 <= i < s1.len() ==> ((#[trigger] s2[i]).seal_status.is_open() ==> (
            #[trigger] s1[i]).seal_status.is_open()),
    ensures
        count_open(s2) <= count_open(s1),
    decreases s1.len(),
{
    if s1.len() > 0 {
        assert(forall|i: int|
            0 <= i < s1.drop_last().len() ==> s1.drop_last()[i] == s1[i] && s2.drop_last()[i]
                == s2[i]);
        lemma_count_open_mono(s1.drop_last(), s2.drop_last());
    }
}

/// Removing the sector at `i` drops its contribution to the open count.
pub proof fn lemma_count_open_remove(s: Seq<StagedSectorMetadataView>, i: int)
    requires
        0 <= i < s.len(),
    ensures
        count_open(s.remove(i)) == count_open(s) - if s[i].seal_status.is_open() {
            1int
        } else {
            0int
        },
    decreases s.len(),
{
    let t = s.remove(i);
    if i == s.len() - 1 {
        assert(t =~= s.drop_last());
    } else {
        assert(t.drop_last() =~= s.drop_last().remove(i));
        assert(t.last() == s.last());
        lemma_count_open_remove(s.drop_last(), i);
    }
}

impl SectorBuilderStateView {
    /// Well-formedness of the engine state for sectors of capacity
    /// `max_bytes`:
    /// ids run strictly upward in each map, no id is both staged and sealed,
    /// every staged sector respects its capacity, and no issued id exceeds
    /// `last_committed_sector_id`.
    pub open spec fn wf(self, max_bytes: u64) -> bool {
        &&& staged_ids_increasing(self.staged)
        &&& sealed_ids_increasing(self.sealed)
        &&& (forall|i: int, j: int|
            0 <= i < self.staged.len() && 0 <= j < self.sealed.len() ==> self.staged[i].sector_id
                != self.sealed[j].sector_id)
        &&& (forall|i: int| 0 <= i < self.staged.len() ==> (#[trigger] self.staged[i]).wf(max_bytes))
        &&& (forall|i: int|
            0 <= i < self.staged.len() ==> (#[trigger] self.staged[i]).sector_id
                <= self.last_committed_sector_id)
        &&& (forall|i: int|
            0 <= i < self.sealed.len() ==> (#[trigger] self.sealed[i]).sector_id
                <= self.last_committed_sector_id)
        &&& (forall|i: int|
            0 <= i < self.sealed.len() ==> (#[trigger] self.sealed[i]).used() <= u64::MAX)
    }
}

impl StagedState {
    /// Index of the staged sector with the given id, if one exists.
    pub fn get_index(&self, sector_id: u64) -> (r: Option<usize>)
        ensures
            match r {
                Option::Some(i) => i < self@.len() && self@[i as int].sector_id == sector_id,
                Option::None => !staged_contains(self@, sector_id),
            },
    {
        let mut i: usize = 0;
        while i < self.sectors.len()
            invariant
                0 <= i <= self.sectors@.len(),
                forall|j: int| 0 <= j < i ==> self@[j].sector_id != sector_id,
            decreases self.sectors@.len() - i,
        {
            if self.sectors[i].sector_id == sector_id {
                return Option::Some(i);
            }
            i = i + 1;
        }
        Option::None
    }

    /// How many staged sectors are still open.
    pub fn count_open_sectors(&self) -> (r: usize)
        ensures
            r as int == count_open(self@),
    {
        let mut i: usize = 0;
        let mut c: usize = 0;
        proof {
            assert(self@.subrange(0, 0) =~= Seq::<StagedSectorMetadataView>::empty());
        }
        while i < self.sectors.len()
            invariant
                0 <= i <= self.sectors@.len(),
                c as int == count_open(self@.subrange(0, i as int)),
                c <= i,
            decreases self.sectors@.len() - i,
        {
            proof {
                assert(self@.subrange(0, i + 1).drop_last() =~= self@.subrange(0, i as int));
                lemma_count_open_bounds(self@.subrange(0, i as int));
            }
            let open = match self.sectors[i].seal_status {
                crate::metadata::SealStatus::AcceptingData => true,
                crate::metadata::SealStatus::FullyPacked => true,
                _ => false,
            };
            if open {
                c = c + 1;
            }
            i = i + 1;
        }
        proof {
            assert(self@.subrange(0, self@.len() as int) =~= self@);
        }
        c
    }
}

impl SealedState {
    /// Index of the sealed sector with the given id, if one exists.
    pub fn get_index(&self, sector_id: u64) -> (r: Option<usize>)
        ensures
            match r {
                Option::Some(i) => i < self@.len() && self@[i as int].sector_id == sector_id,
                Option::None => !sealed_contains(self@, sector_id),
            },
    {
        let mut i: usize = 0;
        while i < self.sectors.len()
            invariant
                0 <= i <= self.sectors@.len(),
                forall|j: int| 0 <= j < i ==> self@[j].sector_id != sector_id,
            decreases self.sectors@.len() - i,
        {
            if self.sectors[i].sector_id == sector_id {
                return Option::Some(i);
            }
            i = i + 1;
        }
        Option::None
    }
}

impl SectorBuilderState {
    /// A fresh state that has issued no sector id above
    /// `last_committed_sector_id` and holds no sectors.
    pub fn new(last_committed_sector_id: u64) -> (s: Self)
        ensures
            s@.staged.len() == 0,
            s@.sealed.len() == 0,
            s@.last_committed_sector_id == last_committed_sector_id,
            forall|max_bytes: u64| s@.wf(max_bytes),
            count_open(s@.staged) == 0,
    {
        let s = SectorBuilderState {
            staged: StagedState { sectors: Vec::new() },
            sealed: SealedState { sectors: Vec::new() },
            last_committed_sector_id,
        };
        proof {
            assert(s@.staged =~= Seq::<StagedSectorMetadataView>::empty());
            assert(s@.sealed =~= Seq::<SealedSectorMetadataView>::empty());
        }
        s
    }
}

} // verus!
