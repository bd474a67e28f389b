//! The metadata manager: the single write path to the engine state. Every
//! mutation follows the discipline validate → mutate in memory → serialize →
//! store → reply, so no committed progress outlives a crash unpersisted.

use vstd::prelude::*;
use crate::checksum::{calculate_checksum, spec_blake2b};
use crate::codec::{
    deserialize_state, lemma_snapshot_round_trip, serialize_state, spec_parse_state,
    spec_ser_state, state_ok,
};
use crate::error::SectorBuilderErr;
use crate::helpers;
use crate::kv_store::{bytes_eq, spec_key_bytes, KvStore, SnapshotKey};
use crate::metadata::{
    copy_bytes, SealStatus, SealTicket, SealedSectorHealth, SealedSectorMetadata, SealedSectorMetadataView,
    SectorClass, StagedSectorMetadata, StagedSectorMetadataView,
};
use crate::pieces::{sector_used_within, spec_used};
use crate::state::{
    count_open, sealed_contains, sealed_ids_increasing, staged_contains, staged_ids_increasing,
    SectorBuilderState, SectorBuilderStateView,
};
use crate::store::{spec_max_unsealed_bytes, SectorStore};

verus! {

proof fn lemma_adjacent_staged_increasing(s: Seq<StagedSectorMetadataView>, i: int, j: int)
    requires
        forall|k: int| 0 <= k < s.len() - 1 ==> (#[trigger] s[k]).sector_id < s[k + 1].sector_id,
        0 <= i < j < s.len(),
    ensures
        s[i].sector_id < s[j].sector_id,
    decreases j - i,
{
    if j > i + 1 {
        lemma_adjacent_staged_increasing(s, i, j - 1);
    }
}

proof fn lemma_adjacent_sealed_increasing(s: Seq<SealedSectorMetadataView>, i: int, j: int)
    requires
        forall|k: int| 0 <= k < s.len() - 1 ==> (#[trigger] s[k]).sector_id < s[k + 1].sector_id,
        0 <= i < j < s.len(),
    ensures
        s[i].sector_id < s[j].sector_id,
    decreases j - i,
{
    if j > i + 1 {
        lemma_adjacent_sealed_increasing(s, i, j - 1);
    }
}

#[verifier::rlimit(30)]
fn staged_sorted(state: &SectorBuilderState) -> (r: bool)
    ensures
        r == staged_ids_increasing(state.staged@),
{
    let n = state.staged.sectors.len();
    let mut i: usize = 0;
    while i < n && i + 1 < n
        invariant
            n == state.staged@.len(),
            0 <= i <= n,
            forall|k: int|
                0 <= k < i ==> (#[trigger] state.staged@[k]).sector_id < state.staged@[k
                    + 1].sector_id,
        decreases n - i,
    {
        if state.staged.sectors[i].sector_id >= state.staged.sectors[i + 1].sector_id {
            proof {
                let sv = state.staged@;
                if staged_ids_increasing(sv) {
                    assert(sv[i as int].sector_id < sv[i as int + 1].sector_id);
                }
            }
            return false;
        }
        i = i + 1;
    }
    proof {
        assert forall|a: int, b: int|
            0 <= a < b < state.staged@.len() implies state.staged@[a].sector_id
            < state.staged@[b].sector_id by {
            lemma_adjacent_staged_increasing(state.staged@, a, b);
        }
    }
    true
}

#[verifier::rlimit(30)]
fn sealed_sorted(state: &SectorBuilderState) -> (r: bool)
    ensures
        r == sealed_ids_increasing(state.sealed@),
{
    let n = state.sealed.sectors.len();
    let mut i: usize = 0;
    while i < n && i + 1 < n
        invariant
            n == state.sealed@.len(),
            0 <= i <= n,
            forall|k: int|
                0 <= k < i ==> (#[trigger] state.sealed@[k]).sector_id < state.sealed@[k
                    + 1].sector_id,
        decreases n - i,
    {
        if state.sealed.sectors[i].sector_id >= state.sealed.sectors[i + 1].sector_id {
            proof {
                let sv = state.sealed@;
                if sealed_ids_increasing(sv) {
                    assert(sv[i as int].sector_id < sv[i as int + 1].sector_id);
                }
            }
            return false;
        }
        i = i + 1;
    }
    proof {
        assert forall|a: int, b: int|
            0 <= a < b < state.sealed@.len() implies state.sealed@[a].sector_id
            < state.sealed@[b].sector_id by {
            lemma_adjacent_sealed_increasing(state.sealed@, a, b);
        }
    }
    true
}

#[verifier::rlimit(30)]
fn staged_sectors_ok(state: &SectorBuilderState, max_bytes: u64) -> (r: bool)
    ensures
        r == ((forall|a: int|
            0 <= a < state.staged@.len() ==> !sealed_contains(
                state.sealed@,
                (#[trigger] state.staged@[a]).sector_id,
            )) && (forall|a: int|
            0 <= a < state.staged@.len() ==> (#[trigger] state.staged@[a]).wf(max_bytes)) && (
        forall|a: int|
            0 <= a < state.staged@.len() ==> (#[trigger] state.staged@[a]).sector_id
                <= state@.last_committed_sector_id)),
{
    let n = state.staged.sectors.len();
    let mut i: usize = 0;
    while i < n
        invariant
            n == state.staged@.len(),
            0 <= i <= n,
            forall|a: int|
                0 <= a < i ==> !sealed_contains(
                    state.sealed@,
                    (#[trigger] state.staged@[a]).sector_id,
                ),
            forall|a: int| 0 <= a < i ==> (#[trigger] state.staged@[a]).wf(max_bytes),
            forall|a: int|
                0 <= a < i ==> (#[trigger] state.staged@[a]).sector_id
                    <= state@.last_committed_sector_id,
        decreases n - i,
    {
        let sector = &state.staged.sectors[i];
        proof {
            assert(state.staged@[i as int] == state.staged.sectors@[i as int]@);
        }
        match state.sealed.get_index(sector.sector_id) {
            Option::Some(_) => {
                return false;
            },
            Option::None => {},
        }
        if sector.sector_id > state.last_committed_sector_id {
            return false;
        }
        let is_sealed_status = match sector.seal_status {
            SealStatus::Sealed(_) => true,
            _ => false,
        };
        if is_sealed_status {
            proof {
                assert(!state.staged@[i as int].wf(max_bytes));
            }
            return false;
        }
        let lens = helpers::piece_lens(&sector.pieces);
        proof {
            helpers::lemma_piece_lens_view(state.staged.sectors@[i as int]);
            assert(lens@ =~= state.staged@[i as int].piece_lens());
        }
        if !sector_used_within(&lens, max_bytes) {
            proof {
                assert(!state.staged@[i as int].wf(max_bytes));
            }
            return false;
        }
        i = i + 1;
    }
    true
}

#[verifier::rlimit(30)]
fn sealed_sectors_ok(state: &SectorBuilderState) -> (r: bool)
    ensures
        r == ((forall|a: int|
            0 <= a < state.sealed@.len() ==> (#[trigger] state.sealed@[a]).sector_id
                <= state@.last_committed_sector_id) && (forall|a: int|
            0 <= a < state.sealed@.len() ==> (#[trigger] state.sealed@[a]).used() <= u64::MAX)),
{
    let n = state.sealed.sectors.len();
    let mut i: usize = 0;
    while i < n
        invariant
            n == state.sealed@.len(),
            0 <= i <= n,
            forall|a: int|
                0 <= a < i ==> (#[trigger] state.sealed@[a]).sector_id
                    <= state@.last_committed_sector_id,
            forall|a: int| 0 <= a < i ==> (#[trigger] state.sealed@[a]).used() <= u64::MAX,
        decreases n - i,
    {
        let sector = &state.sealed.sectors[i];
        proof {
            assert(state.sealed@[i as int] == state.sealed.sectors@[i as int]@);
        }
        if sector.sector_id > state.last_committed_sector_id {
            return false;
        }
        let lens = helpers::piece_lens(&sector.pieces);
        proof {
            assert(lens@ =~= state.sealed@[i as int].piece_lens());
        }
        if !sector_used_within(&lens, u64::MAX) {
            return false;
        }
        i = i + 1;
    }
    true
}

/// Whether a state satisfies every invariant the engine maintains, for
/// sectors of capacity `max_bytes` and at most `max_staged` open staged
/// sectors. Checked on states reloaded from a snapshot store before they
/// are trusted.
pub fn check_state_wf(state: &SectorBuilderState, max_bytes: u64, max_staged: u8) -> (r: bool)
    ensures
        r == (state@.wf(max_bytes) && count_open(state@.staged) <= max_staged as int),
{
    if !staged_sorted(state) {
        return false;
    }
    if !sealed_sorted(state) {
        return false;
    }
    if !staged_sectors_ok(state, max_bytes) {
        return false;
    }
    if !sealed_sectors_ok(state) {
        return false;
    }
    let open = state.staged.count_open_sectors();
    if open > max_staged as usize {
        return false;
    }
    true
}

/// Whether a stored snapshot blob can be trusted as an engine state: it
/// decodes in full, and the decoded state satisfies every invariant the
/// engine maintains for sectors of capacity `max_bytes` and at most
/// `max_staged` open staged sectors.
pub open spec fn snapshot_loadable(blob: Seq<u8>, max_bytes: u64, max_staged: u8) -> bool {
    match spec_parse_state(blob, 0) {
        Option::Some((v, end)) => end == blob.len() && v.wf(max_bytes) && count_open(v.staged)
            <= max_staged as int,
        Option::None => false,
    }
}

/// The scheduler's data plane: state, store, snapshot store and limits,
/// with the business operations the scheduler invokes.
pub struct SectorMetadataManager {
    pub kv_store: KvStore,
    pub sector_store: SectorStore,
    pub state: SectorBuilderState,
    pub max_num_staged_sectors: u8,
    pub max_user_bytes_per_staged_sector: u64,
    pub prover_id: Vec<u8>,
    pub sector_size: u64,
    pub miner: String,
    /// The state the last stored snapshot serializes.
    pub snapshotted: Ghost<SectorBuilderStateView>,
}

impl SectorMetadataManager {
    /// The bytes of the key this manager's snapshot is stored under.
    pub open spec fn spec_key(&self) -> Seq<u8> {
        spec_key_bytes(self.prover_id@, self.sector_size)
    }

    /// The manager's invariant, except that the in-memory state may have
    /// run ahead of the stored snapshot (it does between the reservation
    /// and the completion of a piece write).
    pub open spec fn inv_base(&self) -> bool {
        &&& self.kv_store.wf()
        &&& self.state@.wf(self.max_user_bytes_per_staged_sector)
        &&& count_open(self.state@.staged) <= self.max_num_staged_sectors as int
        &&& self.max_user_bytes_per_staged_sector as int == spec_max_unsealed_bytes(
            self.sector_size,
        )
        &&& self.sector_store.sector_class.sector_size == self.sector_size
        &&& state_ok(self.snapshotted@)
        &&& self.snapshotted@.wf(self.max_user_bytes_per_staged_sector)
        &&& count_open(self.snapshotted@.staged) <= self.max_num_staged_sectors as int
        &&& self.kv_store@.contains_key(self.spec_key())
        &&& self.kv_store@[self.spec_key()] == spec_ser_state(self.snapshotted@)
    }

    /// The stored snapshot reflects the current state.
    pub open spec fn synced(&self) -> bool {
        self.snapshotted@ == self.state@
    }

    /// The manager's full invariant: every mutating operation restores it
    /// before replying.
    pub open spec fn inv(&self) -> bool {
        self.inv_base() && self.synced()
    }

    /// Serializes the current state and stores it under this manager's key.
    fn checkpoint(&mut self)
        requires
            old(self).kv_store.wf(),
            old(self).state@.wf(old(self).max_user_bytes_per_staged_sector),
            count_open(old(self).state@.staged) <= old(self).max_num_staged_sectors as int,
            old(self).max_user_bytes_per_staged_sector as int == spec_max_unsealed_bytes(
                old(self).sector_size,
            ),
            old(self).sector_store.sector_class.sector_size == old(self).sector_size,
        ensures
            final(self).inv(),
            final(self).state == old(self).state,
            final(self).sector_store == old(self).sector_store,
            final(self).max_num_staged_sectors == old(self).max_num_staged_sectors,
            final(self).max_user_bytes_per_staged_sector == old(self).max_user_bytes_per_staged_sector,
            final(self).prover_id == old(self).prover_id,
            final(self).sector_size == old(self).sector_size,
            final(self).miner == old(self).miner,
    {
        let blob = serialize_state(&self.state);
        let key = SnapshotKey::new(copy_bytes(&self.prover_id), self.sector_size).to_bytes();
        self.kv_store.put(key, blob);
        proof {
            self.snapshotted@ = self.state@;
        }
    }

    /// Loads a manager from the snapshot store: the stored state if a
    /// well-formed snapshot exists under the key, else a fresh state that
    /// has issued no id above `last_committed_sector_id`. It fails, always
    /// unrecoverably, exactly when a snapshot is stored but cannot be
    /// decoded in full or violates the engine's invariants.
    pub fn initialize(
        kv_store: KvStore,
        sector_class: SectorClass,
        last_committed_sector_id: u64,
        prover_id: Vec<u8>,
        miner: String,
        max_num_staged_sectors: u8,
    ) -> (r: Result<Self, SectorBuilderErr>)
        requires
            kv_store.wf(),
        ensures
            r is Ok <==> (kv_store@.contains_key(
                spec_key_bytes(prover_id@, sector_class.sector_size),
            ) ==> snapshot_loadable(
                kv_store@[spec_key_bytes(prover_id@, sector_class.sector_size)],
                spec_max_unsealed_bytes(sector_class.sector_size) as u64,
                max_num_staged_sectors,
            )),
            match r {
                Result::Ok(m) => {
                    &&& m.inv()
                    &&& m.sector_size == sector_class.sector_size
                    &&& m.max_num_staged_sectors == max_num_staged_sectors
                    &&& m.prover_id@ == prover_id@
                    &&& m.miner@ == miner@
                    &&& (kv_store@.contains_key(
                        spec_key_bytes(prover_id@, sector_class.sector_size),
                    ) ==> (spec_parse_state(
                        kv_store@[spec_key_bytes(prover_id@, sector_class.sector_size)],
                        0,
                    ) matches Option::Some((v, _)) && v == m.state@))
                    &&& (!kv_store@.contains_key(
                        spec_key_bytes(prover_id@, sector_class.sector_size),
                    ) ==> m.state@.staged.len() == 0 && m.state@.sealed.len() == 0
                        && m.state@.last_committed_sector_id == last_committed_sector_id)
                },
                Result::Err(e) => e@ is Unrecoverable,
            },
    {
        let sector_store = SectorStore::new(sector_class);
        let max_user_bytes = sector_store.max_unsealed_bytes_per_sector();
        let key = SnapshotKey::new(copy_bytes(&prover_id), sector_class.sector_size).to_bytes();
        let loaded: Option<SectorBuilderState> = match kv_store.get(&key) {
            Option::Some(blob) => {
                match deserialize_state(blob) {
                    Option::Some(state) => Option::Some(state),
                    Option::None => {
                        return Result::Err(
                            SectorBuilderErr::Unrecoverable(
                                String::from_str("could not load snapshot"),
                            ),
                        );
                    },
                }
            },
            Option::None => Option::None,
        };
        let state: SectorBuilderState = match loaded {
            Option::Some(state) => {
                if !check_state_wf(&state, max_user_bytes, max_num_staged_sectors) {
                    return Result::Err(
                        SectorBuilderErr::Unrecoverable(
                            String::from_str("snapshot violates engine invariants"),
                        ),
                    );
                }
                state
            },
            Option::None => SectorBuilderState::new(last_committed_sector_id),
        };
        let mut m = SectorMetadataManager {
            kv_store,
            sector_store,
            state,
            max_num_staged_sectors,
            max_user_bytes_per_staged_sector: max_user_bytes,
            prover_id,
            sector_size: sector_class.sector_size,
            miner,
            snapshotted: Ghost(arbitrary()),
        };
        m.checkpoint();
        Result::Ok(m)
    }
}

/// The outcome the piece-admission step promises. With ids or staging slots
/// exhausted the engine refuses unrecoverably; a piece above the sector
/// capacity is a caller error; otherwise the piece lands in the oldest open
/// sector it fits, else in a freshly allocated sector when a staging slot is
/// free, else the call is refused with `FullyStaged`.
pub open spec fn add_first_post(
    pre: SectorBuilderStateView,
    post: SectorBuilderStateView,
    r: Result<u64, SectorBuilderErr>,
    n: u64,
    max: u64,
    max_staged: u8,
    miner: Seq<char>,
) -> bool {
    if pre.last_committed_sector_id == u64::MAX || pre.staged.len() >= usize::MAX {
        post == pre && (r matches Result::Err(e) && e@ is Unrecoverable)
    } else {
        let new_id = (pre.last_committed_sector_id + 1) as u64;
        if n > max {
            post == pre && r == Result::Err::<u64, SectorBuilderErr>(
                SectorBuilderErr::OverflowError { num_bytes: n, max },
            )
        } else if exists|i: int| 0 <= i < pre.staged.len() && helpers::spec_fits(pre.staged[i], n, max) {
            post == pre && (exists|i: int|
                #![auto]
                0 <= i < pre.staged.len() && helpers::spec_fits(pre.staged[i], n, max) && (forall|
                    j: int,
                |
                    0 <= j < i ==> !helpers::spec_fits(pre.staged[j], n, max)) && r == Result::Ok::<
                    u64,
                    SectorBuilderErr,
                >(pre.staged[i].sector_id))
        } else if count_open(pre.staged) < max_staged as int {
            &&& r == Result::Ok::<u64, SectorBuilderErr>(new_id)
            &&& post.sealed == pre.sealed
            &&& post.last_committed_sector_id == new_id
            &&& post.staged == pre.staged.push(
                (StagedSectorMetadataView {
                    sector_id: new_id,
                    sector_access: crate::store::spec_staging_access(miner, new_id, false),
                    pieces: Seq::empty(),
                    seal_status: crate::metadata::SealStatusView::AcceptingData,
                }),
            )
        } else {
            post == pre && r == Result::Err::<u64, SectorBuilderErr>(SectorBuilderErr::FullyStaged)
        }
    }
}

impl SectorMetadataManager {
    /// How many bytes of caller data one staged sector holds.
    pub fn max_user_bytes(&self) -> (r: u64)
        ensures
            r == self.max_user_bytes_per_staged_sector,
    {
        self.max_user_bytes_per_staged_sector
    }

    /// Picks or allocates the staged sector an incoming piece will be
    /// written to, and reserves its id. The reservation is persisted
    /// together with the completed write that
    /// [`SectorMetadataManager::add_piece_second`] records, never on its
    /// own.
    pub fn add_piece_first(&mut self, piece_bytes_amount: u64) -> (r: Result<
        u64,
        SectorBuilderErr,
    >)
        requires
            old(self).inv(),
        ensures
            final(self).inv_base(),
            final(self).snapshotted == old(self).snapshotted,
            final(self).kv_store == old(self).kv_store,
            final(self).sector_store == old(self).sector_store,
            final(self).max_num_staged_sectors == old(self).max_num_staged_sectors,
            final(self).max_user_bytes_per_staged_sector == old(self).max_user_bytes_per_staged_sector,
            final(self).prover_id == old(self).prover_id,
            final(self).sector_size == old(self).sector_size,
            final(self).miner == old(self).miner,
            final(self).state@.last_committed_sector_id >= old(self).state@.last_committed_sector_id,
            r is Err ==> final(self).state@ == old(self).state@ && final(self).inv(),
            add_first_post(
                old(self).state@,
                final(self).state@,
                r,
                piece_bytes_amount,
                old(self).max_user_bytes_per_staged_sector,
                old(self).max_num_staged_sectors,
                old(self).miner@,
            ),
    {
        if self.state.last_committed_sector_id == u64::MAX
            || self.state.staged.sectors.len() >= usize::MAX {
            return Result::Err(
                SectorBuilderErr::Unrecoverable(String::from_str("sector ids exhausted")),
            );
        }
        let new_id = self.state.last_committed_sector_id + 1;
        let access = self.sector_store.new_staging_sector_access(self.miner.as_str(), new_id, false);
        let ghost pre_staged = self.state.staged@;
        let r = helpers::add_piece_first(
            &mut self.state.staged,
            piece_bytes_amount,
            new_id,
            access,
            self.max_user_bytes_per_staged_sector,
            self.max_num_staged_sectors,
        );
        match r {
            Result::Ok(id) => {
                if id == new_id {
                    proof {
                        crate::state::lemma_count_open_push(
                            pre_staged,
                            (StagedSectorMetadataView {
                                sector_id: new_id,
                                sector_access: crate::store::spec_staging_access(
                                    self.miner@,
                                    new_id,
                                    false,
                                ),
                                pieces: Seq::empty(),
                                seal_status: crate::metadata::SealStatusView::AcceptingData,
                            }),
                        );
                    }
                    self.state.last_committed_sector_id = new_id;
                } else {
                    proof {
                        assert(self.state@ =~= old(self).state@);
                    }
                }
                Result::Ok(id)
            },
            Result::Err(e) => {
                proof {
                    assert(self.state@ =~= old(self).state@);
                }
                Result::Err(e)
            },
        }
    }
}

/// The record of a piece placed in a sector: the metadata appended by a
/// completed write of `key` with `n` bytes.
pub open spec fn placed_piece(key: Seq<char>, n: u64) -> crate::metadata::PieceMetadataView {
    crate::metadata::PieceMetadataView {
        piece_key: key,
        num_bytes: n,
        comm_p: Option::None,
        piece_inclusion_proof: Option::None,
    }
}

/// The staged sector `s` after a completed write of piece `key` with `n`
/// bytes: the piece's metadata is appended, and the sector is marked fully
/// packed once its capacity `max` is reached.
pub open spec fn sector_after_piece(
    s: StagedSectorMetadataView,
    key: Seq<char>,
    n: u64,
    max: u64,
) -> StagedSectorMetadataView {
    let s2 = StagedSectorMetadataView { pieces: s.pieces.push(placed_piece(key, n)), ..s };
    if s2.used() >= max {
        StagedSectorMetadataView { seal_status: crate::metadata::SealStatusView::FullyPacked, ..s2 }
    } else {
        s2
    }
}

/// The outcome the piece-recording step promises, for the staged sector
/// carrying `sector_id` at index `i`.
pub open spec fn add_second_post_at(
    pre: SectorBuilderStateView,
    post: SectorBuilderStateView,
    r: Result<u64, SectorBuilderErr>,
    i: int,
    sector_id: u64,
    key: Seq<char>,
    n: u64,
    written: u64,
    max: u64,
) -> bool {
    if written != n {
        post == pre && r == Result::Err::<u64, SectorBuilderErr>(
            SectorBuilderErr::IncompleteWriteError {
                num_bytes_written: written,
                num_bytes_in_piece: n,
            },
        )
    } else if !helpers::spec_fits(pre.staged[i], n, max) {
        post == pre && r == Result::Err::<u64, SectorBuilderErr>(
            SectorBuilderErr::OverflowError { num_bytes: n, max },
        )
    } else if pre.staged[i].pieces.len() >= usize::MAX {
        post == pre && (r matches Result::Err(e) && e@ is Unrecoverable)
    } else {
        &&& r == Result::Ok::<u64, SectorBuilderErr>(sector_id)
        &&& post.sealed == pre.sealed
        &&& post.last_committed_sector_id == pre.last_committed_sector_id
        &&& post.staged == pre.staged.update(i, sector_after_piece(pre.staged[i], key, n, max))
    }
}

impl SectorMetadataManager {
    /// Records that the bytes of a piece were written into the reserved
    /// sector, and persists the state snapshot before replying. On success
    /// the returned id names a staged sector whose last piece carries
    /// exactly the submitted key and length.
    #[verifier::rlimit(60)]
    pub fn add_piece_second(
        &mut self,
        sector_id: u64,
        piece_key: String,
        piece_bytes_amount: u64,
        num_bytes_written: u64,
    ) -> (r: Result<u64, SectorBuilderErr>)
        requires
            old(self).inv_base(),
        ensures
            final(self).inv_base(),
            r is Ok ==> final(self).inv(),
            final(self).sector_store == old(self).sector_store,
            final(self).max_num_staged_sectors == old(self).max_num_staged_sectors,
            final(self).max_user_bytes_per_staged_sector == old(self).max_user_bytes_per_staged_sector,
            final(self).prover_id == old(self).prover_id,
            final(self).sector_size == old(self).sector_size,
            final(self).miner == old(self).miner,
            r is Err ==> final(self).state@ == old(self).state@ && final(self).snapshotted == old(self).snapshotted && final(self).kv_store == old(self).kv_store,
            !staged_contains(old(self).state@.staged, sector_id) ==> r == Result::Err::<
                u64,
                SectorBuilderErr,
            >(SectorBuilderErr::SectorNotFound(sector_id)),
            staged_contains(old(self).state@.staged, sector_id) ==> (exists|i: int|
                #![auto]
                0 <= i < old(self).state@.staged.len() && old(self).state@.staged[i].sector_id
                    == sector_id && add_second_post_at(
                    old(self).state@,
                    final(self).state@,
                    r,
                    i,
                    sector_id,
                    piece_key@,
                    piece_bytes_amount,
                    num_bytes_written,
                    old(self).max_user_bytes_per_staged_sector,
                )),
    {
        let idx = match self.state.staged.get_index(sector_id) {
            Option::Some(i) => i,
            Option::None => {
                return Result::Err(SectorBuilderErr::SectorNotFound(sector_id));
            },
        };
        if num_bytes_written != piece_bytes_amount {
            let e = Result::Err::<u64, SectorBuilderErr>(
                SectorBuilderErr::IncompleteWriteError {
                    num_bytes_written,
                    num_bytes_in_piece: piece_bytes_amount,
                },
            );
            proof {
                assert(add_second_post_at(
                    self.state@,
                    self.state@,
                    e,
                    idx as int,
                    sector_id,
                    piece_key@,
                    piece_bytes_amount,
                    num_bytes_written,
                    self.max_user_bytes_per_staged_sector,
                ));
            }
            return e;
        }
        let max = self.max_user_bytes_per_staged_sector;
        let accepting = match self.state.staged.sectors[idx].seal_status {
            SealStatus::AcceptingData => true,
            _ => false,
        };
        let fits: bool = if accepting {
            let lens = helpers::piece_lens(&self.state.staged.sectors[idx].pieces);
            proof {
                helpers::lemma_piece_lens_view(self.state.staged.sectors@[idx as int]);
                assert(lens@ =~= self.state@.staged[idx as int].piece_lens());
                crate::pieces::lemma_used_nonneg(lens@);
                assert(self.state@.staged[idx as int].wf(max));
            }
            let used = crate::pieces::sector_used(&lens);
            let after = crate::pieces::used_after(used, piece_bytes_amount);
            after <= max as u128
        } else {
            false
        };
        proof {
            assert(fits == helpers::spec_fits(
                self.state@.staged[idx as int],
                piece_bytes_amount,
                max,
            ));
        }
        if !fits {
            let e = Result::Err::<u64, SectorBuilderErr>(
                SectorBuilderErr::OverflowError { num_bytes: piece_bytes_amount, max },
            );
            proof {
                assert(add_second_post_at(
                    self.state@,
                    self.state@,
                    e,
                    idx as int,
                    sector_id,
                    piece_key@,
                    piece_bytes_amount,
                    num_bytes_written,
                    max,
                ));
            }
            return e;
        }
        if self.state.staged.sectors[idx].pieces.len() >= usize::MAX {
            let e = Result::Err::<u64, SectorBuilderErr>(
                SectorBuilderErr::Unrecoverable(String::from_str("piece count exhausted")),
            );
            proof {
                assert(add_second_post_at(
                    self.state@,
                    self.state@,
                    e,
                    idx as int,
                    sector_id,
                    piece_key@,
                    piece_bytes_amount,
                    num_bytes_written,
                    max,
                ));
            }
            return e;
        }
        let ghost pre = self.state@;
        let ghost gkey = piece_key@;
        let sector = self.state.staged.sectors.remove(idx);
        let updated = match helpers::add_piece_second(
            sector,
            piece_key,
            piece_bytes_amount,
            num_bytes_written,
            max,
        ) {
            Result::Ok(s2) => s2,
            Result::Err(_) => {
                proof {
                    assert(false);
                }
                unreached()
            },
        };
        self.state.staged.sectors.insert(idx, updated);
        proof {
            assert(self.state@.staged =~= pre.staged.update(
                idx as int,
                sector_after_piece(
                    pre.staged[idx as int],
                    piece_key@,
                    piece_bytes_amount,
                    max,
                ),
            ));
            crate::state::lemma_count_open_update(
                pre.staged,
                idx as int,
                sector_after_piece(pre.staged[idx as int], piece_key@, piece_bytes_amount, max),
            );
        }
        self.checkpoint();
        let rr = Result::Ok::<u64, SectorBuilderErr>(sector_id);
        proof {
            assert(self.state@.staged == pre.staged.update(
                idx as int,
                sector_after_piece(pre.staged[idx as int], gkey, piece_bytes_amount, max),
            ));
            assert(self.state@.sealed == pre.sealed);
            assert(add_second_post_at(
                pre,
                self.state@,
                rr,
                idx as int,
                sector_id,
                gkey,
                piece_bytes_amount,
                num_bytes_written,
                max,
            ));
        }
        rr
    }
}

/// The health verdict for a sealed sector whose file was observed with the
/// given contents (`None` when the file is missing): the observed length
/// must match the recorded length and the observed BLAKE2b digest the
/// recorded checksum.
pub open spec fn spec_health(
    m: SealedSectorMetadataView,
    observed: Option<Seq<u8>>,
) -> SealedSectorHealth {
    match observed {
        Option::None => SealedSectorHealth::ErrorMissing,
        Option::Some(b) => {
            if b.len() != m.len {
                SealedSectorHealth::ErrorInvalidLength
            } else if spec_blake2b(b) != m.blake2b_checksum {
                SealedSectorHealth::ErrorInvalidChecksum
            } else {
                SealedSectorHealth::Healthy
            }
        },
    }
}

/// What a sealed-sector listing reports: one entry per sealed sector in
/// order, carrying that sector's record, and — exactly when a health check
/// was asked for — the verdict of judging the observed file contents
/// against the recorded length and checksum.
pub open spec fn sealed_listing_post(
    st: SectorBuilderStateView,
    check_health: bool,
    observed: Seq<Option<Vec<u8>>>,
    r: Seq<crate::metadata::GetSealedSectorResult>,
) -> bool {
    &&& r.len() == st.sealed.len()
    &&& (forall|i: int| 0 <= i < r.len() ==> (#[trigger] r[i]).meta() == st.sealed[i])
    &&& (check_health ==> forall|i: int|
        0 <= i < r.len() ==> ((#[trigger] r[i]) matches
            crate::metadata::GetSealedSectorResult::WithHealth(h, _) && h == spec_health(
            st.sealed[i],
            match observed[i] {
                Option::Some(b) => Option::Some(b@),
                Option::None => Option::None,
            },
        )))
    &&& (!check_health ==> forall|i: int| 0 <= i < r.len() ==> (#[trigger] r[i]) is WithoutHealth)
}

/// Judges a sealed sector's file against its recorded length and checksum.
/// Never touches state: health is reported per call only.
pub fn compute_health(m: &SealedSectorMetadata, observed: &Option<Vec<u8>>) -> (h:
    SealedSectorHealth)
    ensures
        h == spec_health(
            m@,
            match observed {
                Option::Some(b) => Option::Some(b@),
                Option::None => Option::None,
            },
        ),
{
    match observed {
        Option::None => SealedSectorHealth::ErrorMissing,
        Option::Some(bytes) => {
            if bytes.len() as u64 != m.len {
                SealedSectorHealth::ErrorInvalidLength
            } else {
                let digest = calculate_checksum(bytes);
                if !bytes_eq(&digest, &m.blake2b_checksum) {
                    SealedSectorHealth::ErrorInvalidChecksum
                } else {
                    SealedSectorHealth::Healthy
                }
            }
        },
    }
}

/// What a status lookup reports, per spec of the engine: the status of the
/// staged sector carrying the id; else the sealed record under the id,
/// reported as `Sealed`; else a caller error naming the unknown id.
pub open spec fn seal_status_post(
    st: SectorBuilderStateView,
    sector_id: u64,
    r: Result<SealStatus, SectorBuilderErr>,
) -> bool {
    match r {
        Result::Ok(status) => {
            ||| (exists|i: int|
                #![auto]
                0 <= i < st.staged.len() && st.staged[i].sector_id == sector_id && status@
                    == st.staged[i].seal_status)
            ||| (!staged_contains(st.staged, sector_id) && (exists|j: int|
                #![auto]
                0 <= j < st.sealed.len() && st.sealed[j].sector_id == sector_id && status@
                    == crate::metadata::SealStatusView::Sealed(st.sealed[j])))
        },
        Result::Err(e) => {
            &&& e == SectorBuilderErr::SectorNotFound(sector_id)
            &&& !staged_contains(st.staged, sector_id)
            &&& !sealed_contains(st.sealed, sector_id)
        },
    }
}

impl SectorMetadataManager {
    /// Where the sector with the given id stands: its staged status, or its
    /// sealed record, or a caller error naming the unknown id.
    pub fn get_seal_status(&self, sector_id: u64) -> (r: Result<SealStatus, SectorBuilderErr>)
        ensures
            seal_status_post(self.state@, sector_id, r),
    {
        match self.state.staged.get_index(sector_id) {
            Option::Some(i) => {
                let st = self.state.staged.sectors[i].seal_status.duplicate();
                proof {
                    assert(self.state@.staged[i as int] == self.state.staged.sectors@[i as int]@);
                    assert(st@ == self.state@.staged[i as int].seal_status);
                }
                return Result::Ok(st);
            },
            Option::None => {},
        }
        match self.state.sealed.get_index(sector_id) {
            Option::Some(j) => {
                let st = SealStatus::Sealed(Box::new(self.state.sealed.sectors[j].duplicate()));
                proof {
                    assert(self.state@.sealed[j as int] == self.state.sealed.sectors@[j as int]@);
                    assert(st@ == crate::metadata::SealStatusView::Sealed(
                        self.state@.sealed[j as int],
                    ));
                }
                Result::Ok(st)
            },
            Option::None => Result::Err(SectorBuilderErr::SectorNotFound(sector_id)),
        }
    }

    /// All staged sector records.
    pub fn get_staged_sectors(&self) -> (r: Vec<StagedSectorMetadata>)
        ensures
            r@.len() == self.state@.staged.len(),
            forall|i: int| 0 <= i < r@.len() ==> (#[trigger] r@[i])@ == self.state@.staged[i],
    {
        let mut r: Vec<StagedSectorMetadata> = Vec::new();
        let mut i: usize = 0;
        while i < self.state.staged.sectors.len()
            invariant
                0 <= i <= self.state.staged@.len(),
                r@.len() == i,
                forall|j: int| 0 <= j < i ==> (#[trigger] r@[j])@ == self.state@.staged[j],
            decreases self.state.staged@.len() - i,
        {
            r.push(self.state.staged.sectors[i].duplicate());
            i = i + 1;
        }
        r
    }

    /// All sealed sector records, each judged against its file's observed
    /// contents when a health check was asked for. `observed[i]` holds the
    /// bytes of the file of the i-th sealed sector, or nothing if it is
    /// missing.
    pub fn get_sealed_sectors(
        &self,
        check_health: bool,
        observed: &Vec<Option<Vec<u8>>>,
    ) -> (r: Vec<crate::metadata::GetSealedSectorResult>)
        requires
            check_health ==> observed@.len() == self.state@.sealed.len(),
        ensures
            sealed_listing_post(self.state@, check_health, observed@, r@),
    {
        let mut r: Vec<crate::metadata::GetSealedSectorResult> = Vec::new();
        let mut i: usize = 0;
        while i < self.state.sealed.sectors.len()
            invariant
                0 <= i <= self.state.sealed@.len(),
                check_health ==> observed@.len() == self.state@.sealed.len(),
                r@.len() == i,
                forall|j: int|
                    0 <= j < i ==> (#[trigger] r@[j]).meta() == self.state@.sealed[j],
                check_health ==> forall|j: int|
                    0 <= j < i ==> ((#[trigger] r@[j]) matches
                        crate::metadata::GetSealedSectorResult::WithHealth(h, _) && h
                        == spec_health(
                        self.state@.sealed[j],
                        match observed@[j] {
                            Option::Some(b) => Option::Some(b@),
                            Option::None => Option::None,
                        },
                    )),
                !check_health ==> forall|j: int|
                    0 <= j < i ==> (#[trigger] r@[j]) is WithoutHealth,
            decreases self.state.sealed@.len() - i,
        {
            let meta = self.state.sealed.sectors[i].duplicate();
            if check_health {
                let h = compute_health(&meta, &observed[i]);
                r.push(crate::metadata::GetSealedSectorResult::WithHealth(h, meta));
            } else {
                r.push(crate::metadata::GetSealedSectorResult::WithoutHealth(meta));
            }
            i = i + 1;
        }
        r
    }
}

impl SectorMetadataManager {
    /// Picks every staged sector due for sealing under the packer's rule,
    /// marks each ready, persists the snapshot, and returns the chosen ids
    /// in ascending order.
    pub fn get_sectors_ready_for_sealing(&mut self, seal_all_staged_sectors: bool) -> (r: Vec<u64>)
        requires
            old(self).inv(),
        ensures
            final(self).inv(),
            final(self).sector_store == old(self).sector_store,
            final(self).max_num_staged_sectors == old(self).max_num_staged_sectors,
            final(self).max_user_bytes_per_staged_sector == old(self).max_user_bytes_per_staged_sector,
            final(self).prover_id == old(self).prover_id,
            final(self).sector_size == old(self).sector_size,
            final(self).miner == old(self).miner,
            final(self).state@.sealed == old(self).state@.sealed,
            final(self).state@.last_committed_sector_id == old(self).state@.last_committed_sector_id,
            final(self).state@.staged.len() == old(self).state@.staged.len(),
            forall|i: int|
                0 <= i < old(self).state@.staged.len() ==> final(self).state@.staged[i] == (
                if helpers::spec_ready(
                    old(self).state@.staged,
                    i,
                    old(self).max_user_bytes_per_staged_sector,
                    old(self).max_num_staged_sectors,
                    seal_all_staged_sectors,
                ) {
                    (StagedSectorMetadataView {
                        seal_status: crate::metadata::SealStatusView::ReadyForSealing,
                        ..old(self).state@.staged[i]
                    })
                } else {
                    old(self).state@.staged[i]
                }),
            r@ == helpers::spec_ready_ids(
                old(self).state@.staged,
                old(self).max_user_bytes_per_staged_sector,
                old(self).max_num_staged_sectors,
                seal_all_staged_sectors,
            ),
    {
        let ghost pre = self.state@;
        let r = helpers::get_sectors_ready_for_sealing(
            &mut self.state.staged,
            self.max_user_bytes_per_staged_sector,
            self.max_num_staged_sectors,
            seal_all_staged_sectors,
        );
        proof {
            assert(forall|i: int|
                0 <= i < self.state@.staged.len() ==> ((#[trigger] self.state@.staged[i]).seal_status.is_open()
                    ==> pre.staged[i].seal_status.is_open()));
            crate::state::lemma_count_open_mono(pre.staged, self.state@.staged);
            assert(forall|i: int|
                0 <= i < self.state@.staged.len() ==> (#[trigger] self.state@.staged[i]).sector_id
                    == pre.staged[i].sector_id);
        }
        self.checkpoint();
        r
    }

    /// Prepares the seal job for a sector picked for sealing: binds the
    /// given ticket, transitions the sector to `Sealing`, persists the
    /// snapshot, and returns everything the worker needs.
    pub fn create_seal_task_proto(&mut self, sector_id: u64, seal_ticket: SealTicket) -> (r:
        Result<crate::worker::SealTaskPrototype, SectorBuilderErr>)
        requires
            old(self).inv(),
        ensures
            final(self).inv(),
            final(self).sector_store == old(self).sector_store,
            final(self).max_num_staged_sectors == old(self).max_num_staged_sectors,
            final(self).max_user_bytes_per_staged_sector == old(self).max_user_bytes_per_staged_sector,
            final(self).prover_id == old(self).prover_id,
            final(self).sector_size == old(self).sector_size,
            final(self).miner == old(self).miner,
            r is Err ==> final(self).state@ == old(self).state@,
            !staged_contains(old(self).state@.staged, sector_id) ==> r == Result::Err::<
                crate::worker::SealTaskPrototype,
                SectorBuilderErr,
            >(SectorBuilderErr::SectorNotFound(sector_id)),
            staged_contains(old(self).state@.staged, sector_id) ==> (exists|i: int|
                #![auto]
                0 <= i < old(self).state@.staged.len() && old(self).state@.staged[i].sector_id
                    == sector_id && (if !(old(self).state@.staged[i].seal_status
                    is ReadyForSealing) {
                    r matches Result::Err(e) && e@ is Unrecoverable
                } else {
                    {
                        &&& final(self).state@.sealed == old(self).state@.sealed
                        &&& final(self).state@.last_committed_sector_id == old(self).state@.last_committed_sector_id
                        &&& final(self).state@.staged == old(self).state@.staged.update(
                            i,
                            (StagedSectorMetadataView {
                                seal_status: crate::metadata::SealStatusView::Sealing(
                                    seal_ticket@,
                                ),
                                ..old(self).state@.staged[i]
                            }),
                        )
                        &&& (r matches Result::Ok(proto) && {
                            &&& proto.sector_id == sector_id
                            &&& proto.sector_class == old(self).sector_store.sector_class
                            &&& proto.seal_ticket@ == seal_ticket@
                            &&& proto.staged_sector_access@ == old(self).state@.staged[i].sector_access
                            &&& proto.sealed_sector_access@ == crate::store::spec_sealed_access(
                                old(self).miner@,
                                sector_id,
                            )
                            &&& proto.piece_lens@ == old(self).state@.staged[i].piece_lens()
                        })
                    }
                })),
    {
        let idx = match self.state.staged.get_index(sector_id) {
            Option::Some(i) => i,
            Option::None => {
                return Result::Err(SectorBuilderErr::SectorNotFound(sector_id));
            },
        };
        let ready = match self.state.staged.sectors[idx].seal_status {
            SealStatus::ReadyForSealing => true,
            _ => false,
        };
        proof {
            assert(self.state@.staged[idx as int] == self.state.staged.sectors@[idx as int]@);
        }
        if !ready {
            return Result::Err(
                SectorBuilderErr::Unrecoverable(String::from_str("sector is not ready for sealing")),
            );
        }
        let ghost pre = self.state@;
        let piece_lens = helpers::piece_lens(&self.state.staged.sectors[idx].pieces);
        let staged_access = self.state.staged.sectors[idx].sector_access.clone();
        let sealed_access = self.sector_store.new_sealed_sector_access(
            self.miner.as_str(),
            sector_id,
        );
        let proto = crate::worker::SealTaskPrototype {
            sector_id,
            sector_class: self.sector_store.sector_class,
            seal_ticket: seal_ticket.duplicate(),
            sealed_sector_access: sealed_access,
            staged_sector_access: staged_access,
            piece_lens,
        };
        self.state.staged.sectors[idx].seal_status = SealStatus::Sealing(seal_ticket);
        proof {
            let updated = (StagedSectorMetadataView {
                seal_status: crate::metadata::SealStatusView::Sealing(proto.seal_ticket@),
                ..pre.staged[idx as int]
            });
            assert(self.state@.staged =~= pre.staged.update(idx as int, updated));
            crate::state::lemma_count_open_update(pre.staged, idx as int, updated);
            helpers::lemma_piece_lens_view(self.state.staged.sectors@[idx as int]);
            assert(proto.piece_lens@ =~= pre.staged[idx as int].piece_lens());
        }
        self.checkpoint();
        Result::Ok(proto)
    }
}

/// The pieces of a freshly sealed sector: each staged piece with its
/// commitment and inclusion proof from the seal output attached.
fn enrich_pieces(
    pieces: &Vec<crate::metadata::PieceMetadata>,
    comm_ps: &Vec<Vec<u8>>,
    piece_inclusion_proofs: &Vec<Vec<u8>>,
) -> (r: Vec<crate::metadata::PieceMetadata>)
    requires
        pieces@.len() == comm_ps@.len(),
        pieces@.len() == piece_inclusion_proofs@.len(),
    ensures
        r@.len() == pieces@.len(),
        forall|j: int|
            0 <= j < r@.len() ==> {
                &&& (#[trigger] r@[j])@.piece_key == pieces@[j]@.piece_key
                &&& r@[j]@.num_bytes == pieces@[j]@.num_bytes
                &&& r@[j]@.comm_p == Option::Some(comm_ps@[j]@)
                &&& r@[j]@.piece_inclusion_proof == Option::Some(piece_inclusion_proofs@[j]@)
            },
{
    let mut r: Vec<crate::metadata::PieceMetadata> = Vec::new();
    let mut k: usize = 0;
    while k < pieces.len()
        invariant
            0 <= k <= pieces@.len(),
            pieces@.len() == comm_ps@.len(),
            pieces@.len() == piece_inclusion_proofs@.len(),
            r@.len() == k,
            forall|j: int|
                0 <= j < k ==> {
                    &&& (#[trigger] r@[j])@.piece_key == pieces@[j]@.piece_key
                    &&& r@[j]@.num_bytes == pieces@[j]@.num_bytes
                    &&& r@[j]@.comm_p == Option::Some(comm_ps@[j]@)
                    &&& r@[j]@.piece_inclusion_proof == Option::Some(
                        piece_inclusion_proofs@[j]@,
                    )
                },
        decreases pieces@.len() - k,
    {
        let p = crate::metadata::PieceMetadata {
            piece_key: pieces[k].piece_key.clone(),
            num_bytes: pieces[k].num_bytes,
            comm_p: Option::Some(copy_bytes(&comm_ps[k])),
            piece_inclusion_proof: Option::Some(copy_bytes(&piece_inclusion_proofs[k])),
        };
        r.push(p);
        k = k + 1;
    }
    r
}

/// Committing a finished seal restores the state invariants: removing the
/// staged entry and inserting the sealed record at its sorted position
/// keeps both maps sorted, disjoint and within bounds.
proof fn lemma_commit_sealed_wf(
    pre: SectorBuilderStateView,
    post: SectorBuilderStateView,
    idx: int,
    pos: int,
    meta: SealedSectorMetadataView,
    sector_id: u64,
    max_bytes: u64,
    max_staged: u8,
)
    requires
        pre.wf(max_bytes),
        count_open(pre.staged) <= max_staged as int,
        0 <= idx < pre.staged.len(),
        pre.staged[idx].sector_id == sector_id,
        0 <= pos <= pre.sealed.len(),
        forall|j: int| 0 <= j < pos ==> (#[trigger] pre.sealed[j]).sector_id < sector_id,
        pos < pre.sealed.len() ==> pre.sealed[pos].sector_id > sector_id,
        meta.sector_id == sector_id,
        meta.used() <= u64::MAX,
        post.staged == pre.staged.remove(idx),
        post.sealed == pre.sealed.insert(pos, meta),
        post.last_committed_sector_id == pre.last_committed_sector_id,
    ensures
        post.wf(max_bytes),
        count_open(post.staged) <= max_staged as int,
{
    crate::state::lemma_count_open_remove(pre.staged, idx);
    assert(staged_ids_increasing(post.staged)) by {
        assert(forall|a: int, b: int|
            0 <= a < b < post.staged.len() ==> post.staged[a].sector_id
                < post.staged[b].sector_id);
    }
    assert(sealed_ids_increasing(post.sealed)) by {
        assert(forall|a: int| 0 <= a < pos ==> (#[trigger] post.sealed[a]).sector_id < sector_id);
        assert(forall|a: int|
            pos < a < post.sealed.len() ==> (#[trigger] post.sealed[a]).sector_id > sector_id);
    }
    assert(forall|a: int|
        0 <= a < post.staged.len() ==> (#[trigger] post.staged[a]).wf(max_bytes));
    assert(forall|a: int, b: int|
        0 <= a < post.staged.len() && 0 <= b < post.sealed.len() ==> post.staged[a].sector_id
            != post.sealed[b].sector_id) by {
        assert(forall|a: int|
            0 <= a < post.staged.len() ==> (#[trigger] post.staged[a]).sector_id != sector_id);
    }
    assert(forall|a: int|
        0 <= a < post.sealed.len() ==> (#[trigger] post.sealed[a]).used() <= u64::MAX);
}

/// A seal output that cannot be committed for the given staged sector: the
/// sector was not dispatched (not `Sealing`), or the output does not carry
/// exactly one commitment and one inclusion proof per piece.
pub open spec fn seal_output_mismatched(
    sector: StagedSectorMetadataView,
    output: crate::worker::SealOutput,
) -> bool {
    ||| !(sector.seal_status is Sealing)
    ||| sector.pieces.len() != output.comm_ps@.len()
    ||| sector.pieces.len() != output.piece_inclusion_proofs@.len()
}

/// The state change a finished seal commits for the staged sector at index
/// `i` of `pre`, and the record it reports: the sector leaves the staged
/// map; the sealed record enters the sealed map; the record carries the
/// output's commitments, the file's checksum and length, the dispatch
/// ticket, and every piece enriched with its commitment and inclusion
/// proof.
pub open spec fn seal_success_at(
    pre: SectorBuilderStateView,
    post: SectorBuilderStateView,
    i: int,
    sector_id: u64,
    output: crate::worker::SealOutput,
    blake2b_checksum: Seq<u8>,
    len: u64,
    miner: Seq<char>,
    meta: SealedSectorMetadata,
) -> bool {
    let pre_sector = pre.staged[i];
    &&& post.staged == pre.staged.remove(i)
    &&& (exists|pos: int|
        0 <= pos <= pre.sealed.len() && post.sealed == pre.sealed.insert(pos, meta@))
    &&& post.last_committed_sector_id == pre.last_committed_sector_id
    &&& meta@.sector_id == sector_id
    &&& meta@.sector_access == crate::store::spec_sealed_access(miner, sector_id)
    &&& meta@.comm_r == output.comm_r@
    &&& meta@.comm_d == output.comm_d@
    &&& meta@.p_aux == output.p_aux@
    &&& meta@.proof == output.proof@
    &&& meta@.blake2b_checksum == blake2b_checksum
    &&& meta@.len == len
    &&& (pre_sector.seal_status matches crate::metadata::SealStatusView::Sealing(t)
        && meta@.seal_ticket == t)
    &&& meta@.pieces.len() == pre_sector.pieces.len()
    &&& (forall|k: int|
        0 <= k < meta@.pieces.len() ==> {
            &&& (#[trigger] meta@.pieces[k]).piece_key == pre_sector.pieces[k].piece_key
            &&& meta@.pieces[k].num_bytes == pre_sector.pieces[k].num_bytes
            &&& meta@.pieces[k].comm_p == Option::Some(output.comm_ps@[k]@)
            &&& meta@.pieces[k].piece_inclusion_proof == Option::Some(
                output.piece_inclusion_proofs@[k]@,
            )
        })
}

/// The whole outcome of recording a finished seal: a caller error for an
/// unknown id, an unrecoverable refusal for a sector that was not sealing
/// or an output out of step with its pieces — both leaving state unchanged
/// — and otherwise the committed success.
pub open spec fn seal_success_post(
    pre: SectorBuilderStateView,
    post: SectorBuilderStateView,
    sector_id: u64,
    output: crate::worker::SealOutput,
    blake2b_checksum: Seq<u8>,
    len: u64,
    miner: Seq<char>,
    r: Result<SealedSectorMetadata, SectorBuilderErr>,
) -> bool {
    &&& (!staged_contains(pre.staged, sector_id) ==> r == Result::Err::<
        SealedSectorMetadata,
        SectorBuilderErr,
    >(SectorBuilderErr::SectorNotFound(sector_id)) && post == pre)
    &&& (staged_contains(pre.staged, sector_id) ==> (exists|i: int|
        #![auto]
        0 <= i < pre.staged.len() && pre.staged[i].sector_id == sector_id && (if
        seal_output_mismatched(pre.staged[i], output) {
            (r matches Result::Err(e) && e@ is Unrecoverable) && post == pre
        } else {
            r matches Result::Ok(meta) && seal_success_at(
                pre,
                post,
                i,
                sector_id,
                output,
                blake2b_checksum,
                len,
                miner,
                meta,
            )
        })))
}

impl SectorMetadataManager {
    /// Records a failed seal: the sector stays staged with status
    /// `Failed(reason)` and the snapshot is persisted. The engine never
    /// retries on its own; a failed seal is observable, not fatal.
    pub fn mark_seal_failure(&mut self, sector_id: u64, reason: String) -> (r: Result<
        (),
        SectorBuilderErr,
    >)
        requires
            old(self).inv(),
        ensures
            final(self).inv(),
            final(self).sector_store == old(self).sector_store,
            final(self).max_num_staged_sectors == old(self).max_num_staged_sectors,
            final(self).max_user_bytes_per_staged_sector == old(self).max_user_bytes_per_staged_sector,
            final(self).prover_id == old(self).prover_id,
            final(self).sector_size == old(self).sector_size,
            final(self).miner == old(self).miner,
            r is Err ==> final(self).state@ == old(self).state@,
            !staged_contains(old(self).state@.staged, sector_id) ==> r == Result::Err::<
                (),
                SectorBuilderErr,
            >(SectorBuilderErr::SectorNotFound(sector_id)),
            staged_contains(old(self).state@.staged, sector_id) ==> ({
                &&& r is Ok
                &&& final(self).state@.sealed == old(self).state@.sealed
                &&& final(self).state@.last_committed_sector_id == old(self).state@.last_committed_sector_id
                &&& (exists|i: int|
                    #![auto]
                    0 <= i < old(self).state@.staged.len() && old(self).state@.staged[i].sector_id
                        == sector_id && final(self).state@.staged
                        == old(self).state@.staged.update(
                        i,
                        (StagedSectorMetadataView {
                            seal_status: crate::metadata::SealStatusView::Failed(reason@),
                            ..old(self).state@.staged[i]
                        }),
                    ))
            }),
    {
        let idx = match self.state.staged.get_index(sector_id) {
            Option::Some(i) => i,
            Option::None => {
                return Result::Err(SectorBuilderErr::SectorNotFound(sector_id));
            },
        };
        let ghost pre = self.state@;
        let ghost greason = reason@;
        self.state.staged.sectors[idx].seal_status = SealStatus::Failed(reason);
        proof {
            let updated = (StagedSectorMetadataView {
                seal_status: crate::metadata::SealStatusView::Failed(greason),
                ..pre.staged[idx as int]
            });
            assert(self.state@.staged =~= pre.staged.update(idx as int, updated));
            crate::state::lemma_count_open_update(pre.staged, idx as int, updated);
        }
        self.checkpoint();
        Result::Ok(())
    }

    /// Records a finished seal: removes the sector from the staged map,
    /// inserts the sealed record built from the worker's output — pieces
    /// enriched with their commitments and inclusion proofs, the file's
    /// checksum and length, and the ticket the seal was bound to — persists
    /// the snapshot, and returns the record.
    #[verifier::rlimit(100)]
    pub fn mark_seal_success(
        &mut self,
        sector_id: u64,
        output: crate::worker::SealOutput,
        blake2b_checksum: Vec<u8>,
        len: u64,
    ) -> (r: Result<SealedSectorMetadata, SectorBuilderErr>)
        requires
            old(self).inv(),
        ensures
            final(self).inv(),
            final(self).sector_store == old(self).sector_store,
            final(self).max_num_staged_sectors == old(self).max_num_staged_sectors,
            final(self).max_user_bytes_per_staged_sector == old(self).max_user_bytes_per_staged_sector,
            final(self).prover_id == old(self).prover_id,
            final(self).sector_size == old(self).sector_size,
            final(self).miner == old(self).miner,
            r is Err ==> final(self).state@ == old(self).state@,
            seal_success_post(
                old(self).state@,
                final(self).state@,
                sector_id,
                output,
                blake2b_checksum@,
                len,
                old(self).miner@,
                r,
            ),
    {
        let idx = match self.state.staged.get_index(sector_id) {
            Option::Some(i) => i,
            Option::None => {
                return Result::Err(SectorBuilderErr::SectorNotFound(sector_id));
            },
        };
        proof {
            assert(self.state@.staged[idx as int] == self.state.staged.sectors@[idx as int]@);
        }
        let ticket = match &self.state.staged.sectors[idx].seal_status {
            SealStatus::Sealing(t) => t.duplicate(),
            _ => {
                return Result::Err(
                    SectorBuilderErr::Unrecoverable(String::from_str("sector was not sealing")),
                );
            },
        };
        let n_pieces = self.state.staged.sectors[idx].pieces.len();
        if output.comm_ps.len() != n_pieces || output.piece_inclusion_proofs.len() != n_pieces {
            return Result::Err(
                SectorBuilderErr::Unrecoverable(
                    String::from_str("seal output does not match the sector's pieces"),
                ),
            );
        }
        let ghost pre = self.state@;
        let sector = self.state.staged.sectors.remove(idx);
        proof {
            assert(self.state@.staged =~= pre.staged.remove(idx as int));
            crate::state::lemma_count_open_remove(pre.staged, idx as int);
        }
        let pieces2 = enrich_pieces(
            &sector.pieces,
            &output.comm_ps,
            &output.piece_inclusion_proofs,
        );
        let access = self.sector_store.new_sealed_sector_access(self.miner.as_str(), sector_id);
        let meta = SealedSectorMetadata {
            sector_id,
            sector_access: access,
            pieces: pieces2,
            comm_r: output.comm_r,
            comm_d: output.comm_d,
            p_aux: output.p_aux,
            proof: output.proof,
            blake2b_checksum,
            len,
            seal_ticket: ticket,
        };
        let mut pos: usize = 0;
        while pos < self.state.sealed.sectors.len() && self.state.sealed.sectors[pos].sector_id
            < sector_id
            invariant
                self.state@.sealed == pre.sealed,
                0 <= pos <= self.state.sealed.sectors@.len(),
                forall|j: int| 0 <= j < pos ==> (#[trigger] pre.sealed[j]).sector_id < sector_id,
            decreases self.state.sealed.sectors@.len() - pos,
        {
            proof {
                assert(pre.sealed[pos as int] == self.state.sealed.sectors@[pos as int]@);
            }
            pos = pos + 1;
        }
        proof {
            assert(forall|j: int|
                0 <= j < pre.sealed.len() ==> (#[trigger] pre.sealed[j]).sector_id != sector_id);
            if pos < pre.sealed.len() {
                assert(pre.sealed[pos as int] == self.state.sealed.sectors@[pos as int]@);
                assert(pre.sealed[pos as int].sector_id > sector_id);
            }
            assert(meta@.piece_lens() =~= pre.staged[idx as int].piece_lens());
        }
        let reply = meta.duplicate();
        self.state.sealed.sectors.insert(pos, meta);
        proof {
            assert(self.state@.sealed =~= pre.sealed.insert(pos as int, reply@));
            lemma_commit_sealed_wf(
                pre,
                self.state@,
                idx as int,
                pos as int,
                reply@,
                sector_id,
                self.max_user_bytes_per_staged_sector,
                self.max_num_staged_sectors,
            );
        }
        self.checkpoint();
        Result::Ok(reply)
    }
}

/// Index of the first piece stored under the given key, if any.
fn find_piece_index(pieces: &Vec<crate::metadata::PieceMetadata>, piece_key: &String) -> (r:
    Option<usize>)
    ensures
        match r {
            Option::Some(k) => {
                &&& k < pieces@.len()
                &&& pieces@[k as int]@.piece_key == piece_key@
                &&& forall|b: int|
                    0 <= b < k ==> (#[trigger] pieces@[b])@.piece_key != piece_key@
            },
            Option::None => forall|b: int|
                0 <= b < pieces@.len() ==> (#[trigger] pieces@[b])@.piece_key != piece_key@,
        },
{
    let mut k: usize = 0;
    while k < pieces.len()
        invariant
            0 <= k <= pieces@.len(),
            forall|b: int| 0 <= b < k ==> (#[trigger] pieces@[b])@.piece_key != piece_key@,
        decreases pieces@.len() - k,
    {
        if pieces[k].piece_key == *piece_key {
            return Option::Some(k);
        }
        k = k + 1;
    }
    Option::None
}

/// Whether `id` is among the declared faults.
fn contains_id(faults: &Vec<u64>, id: u64) -> (r: bool)
    ensures
        r == faults@.contains(id),
{
    let mut i: usize = 0;
    while i < faults.len()
        invariant
            0 <= i <= faults@.len(),
            forall|j: int| 0 <= j < i ==> faults@[j] != id,
        decreases faults@.len() - i,
    {
        if faults[i] == id {
            return true;
        }
        i = i + 1;
    }
    proof {
        if faults@.contains(id) {
            let w = choose|w: int| 0 <= w < faults@.len() && faults@[w] == id;
            assert(faults@[w] == id);
        }
    }
    false
}

impl SectorMetadataManager {
    /// The replica descriptions a spacetime proof runs over: one per sealed
    /// sector, marked faulty exactly when its id is among `faults`.
    pub fn build_replica_infos(&self, faults: &Vec<u64>) -> (r: Vec<crate::worker::ReplicaInfo>)
        ensures
            r@.len() == self.state@.sealed.len(),
            forall|i: int|
                0 <= i < r@.len() ==> {
                    &&& (#[trigger] r@[i]).sector_id == self.state@.sealed[i].sector_id
                    &&& r@[i].sector_access@ == self.state@.sealed[i].sector_access
                    &&& r@[i].comm_r@ == self.state@.sealed[i].comm_r
                    &&& r@[i].p_aux@ == self.state@.sealed[i].p_aux
                    &&& r@[i].is_faulty == faults@.contains(self.state@.sealed[i].sector_id)
                },
    {
        let mut r: Vec<crate::worker::ReplicaInfo> = Vec::new();
        let mut i: usize = 0;
        while i < self.state.sealed.sectors.len()
            invariant
                0 <= i <= self.state.sealed@.len(),
                r@.len() == i,
                forall|j: int|
                    0 <= j < i ==> {
                        &&& (#[trigger] r@[j]).sector_id == self.state@.sealed[j].sector_id
                        &&& r@[j].sector_access@ == self.state@.sealed[j].sector_access
                        &&& r@[j].comm_r@ == self.state@.sealed[j].comm_r
                        &&& r@[j].p_aux@ == self.state@.sealed[j].p_aux
                        &&& r@[j].is_faulty == faults@.contains(self.state@.sealed[j].sector_id)
                    },
            decreases self.state.sealed@.len() - i,
        {
            let sector = &self.state.sealed.sectors[i];
            proof {
                assert(self.state@.sealed[i as int] == self.state.sealed.sectors@[i as int]@);
            }
            let info = crate::worker::ReplicaInfo {
                sector_id: sector.sector_id,
                sector_access: sector.sector_access.clone(),
                comm_r: copy_bytes(&sector.comm_r),
                p_aux: sector.p_aux.duplicate(),
                is_faulty: contains_id(faults, sector.sector_id),
            };
            r.push(info);
            i = i + 1;
        }
        r
    }
}

/// Whether the sealed sector holds a piece under the given key.
pub open spec fn sector_has_piece(m: SealedSectorMetadataView, key: Seq<char>) -> bool {
    exists|k: int| 0 <= k < m.pieces.len() && (#[trigger] m.pieces[k]).piece_key == key
}

/// Whether `proto` is the unseal job for the first piece stored under `key`
/// in the sealed sector `m`: its offset is the fill of the preceding pieces
/// aligned for the piece, and the job names the sector's file, ticket and
/// data commitment.
pub open spec fn retrieve_proto_matches(
    m: SealedSectorMetadataView,
    sector_class: SectorClass,
    miner: Seq<char>,
    key: Seq<char>,
    proto: crate::worker::UnsealTaskPrototype,
) -> bool {
    exists|k: int|
        #![trigger m.pieces[k]]
        {
            &&& 0 <= k < m.pieces.len()
            &&& m.pieces[k].piece_key == key
            &&& (forall|b: int| 0 <= b < k ==> (#[trigger] m.pieces[b]).piece_key != key)
            &&& proto.sector_id == m.sector_id
            &&& proto.sector_class == sector_class
            &&& proto.comm_d@ == m.comm_d
            &&& proto.seal_ticket@ == m.seal_ticket
            &&& proto.source_access@ == m.sector_access
            &&& proto.destination_access@ == crate::store::spec_staging_access(
                miner,
                m.sector_id,
                true,
            )
            &&& proto.piece_len == m.pieces[k].num_bytes
            &&& proto.piece_start_byte as int == crate::pieces::spec_piece_start(
                spec_used(m.piece_lens().subrange(0, k)),
                m.pieces[k].num_bytes as int,
            )
        }
}

/// What a retrieval request yields: a caller error naming the key exactly
/// when no sealed sector holds a piece under it; else the unseal job for
/// the first such piece of the first such sector.
pub open spec fn retrieve_post(
    st: SectorBuilderStateView,
    sector_class: SectorClass,
    miner: Seq<char>,
    piece_key: String,
    r: Result<crate::worker::UnsealTaskPrototype, SectorBuilderErr>,
) -> bool {
    match r {
        Result::Err(e) => {
            &&& e == SectorBuilderErr::PieceNotFound(piece_key)
            &&& forall|a: int|
                0 <= a < st.sealed.len() ==> !sector_has_piece(
                    #[trigger] st.sealed[a],
                    piece_key@,
                )
        },
        Result::Ok(proto) => (exists|i: int|
            #![trigger st.sealed[i]]
            0 <= i < st.sealed.len() && sector_has_piece(st.sealed[i], piece_key@) && (forall|
                a: int,
            |
                0 <= a < i ==> !sector_has_piece(st.sealed[a], piece_key@))
                && retrieve_proto_matches(st.sealed[i], sector_class, miner, piece_key@, proto)),
    }
}

impl SectorMetadataManager {
    /// Prepares the unseal job that reconstructs the piece stored under
    /// `piece_key`: locates the first sealed sector holding the key, and
    /// computes the piece's byte offset as the fill its predecessors
    /// produce under the placement rule. Never touches state.
    #[verifier::rlimit(100)]
    pub fn create_retrieve_piece_task_proto(&self, piece_key: String) -> (r: Result<
        crate::worker::UnsealTaskPrototype,
        SectorBuilderErr,
    >)
        requires
            self.inv_base(),
        ensures
            retrieve_post(
                self.state@,
                self.sector_store.sector_class,
                self.miner@,
                piece_key,
                r,
            ),
    {
        let mut i: usize = 0;
        while i < self.state.sealed.sectors.len()
            invariant
                self.inv_base(),
                0 <= i <= self.state@.sealed.len(),
                forall|a: int|
                    0 <= a < i ==> !sector_has_piece(#[trigger] self.state@.sealed[a], piece_key@),
            decreases self.state@.sealed.len() - i,
        {
            let sector = &self.state.sealed.sectors[i];
            proof {
                assert(self.state@.sealed[i as int] == self.state.sealed.sectors@[i as int]@);
            }
            match find_piece_index(&sector.pieces, &piece_key) {
                Option::Some(k) => {
                    let ghost m = self.state@.sealed[i as int];
                    proof {
                        assert(forall|b: int|
                            0 <= b < m.pieces.len() ==> (#[trigger] m.pieces[b])
                                == sector.pieces@[b]@);
                    }
                    let mut prefix: Vec<u64> = Vec::new();
                    let mut b: usize = 0;
                    proof {
                        assert(prefix@ =~= m.piece_lens().subrange(0, 0));
                    }
                    while b < k
                        invariant
                            0 <= b <= k,
                            k < sector.pieces@.len(),
                            sector == &self.state.sealed.sectors[i as int],
                            i < self.state@.sealed.len(),
                            m == self.state@.sealed[i as int],
                            self.state@.sealed[i as int] == self.state.sealed.sectors@[i as int]@,
                            prefix@ =~= m.piece_lens().subrange(0, b as int),
                        decreases k - b,
                    {
                        prefix.push(sector.pieces[b].num_bytes);
                        proof {
                            assert(prefix@ =~= m.piece_lens().subrange(0, b + 1));
                        }
                        b = b + 1;
                    }
                    let num_bytes = sector.pieces[k].num_bytes;
                    proof {
                        let lens = m.piece_lens();
                        assert(self.state@.sealed[i as int].used() <= u64::MAX);
                        crate::pieces::lemma_used_prefix(lens, k + 1);
                        assert(lens.subrange(0, k + 1).drop_last() =~= lens.subrange(0, k as int));
                        assert(lens.subrange(0, k + 1).last() == lens[k as int]);
                        assert(spec_used(lens.subrange(0, k + 1)) == crate::pieces::spec_used_after(
                            spec_used(lens.subrange(0, k as int)),
                            num_bytes as int,
                        ));
                        crate::pieces::lemma_used_nonneg(lens.subrange(0, k as int));
                    }
                    let start = crate::pieces::get_piece_start_byte(&prefix, num_bytes);
                    let proto = crate::worker::UnsealTaskPrototype {
                        comm_d: copy_bytes(&sector.comm_d),
                        sector_class: self.sector_store.sector_class,
                        source_access: sector.sector_access.clone(),
                        destination_access: self.sector_store.new_staging_sector_access(
                            self.miner.as_str(),
                            sector.sector_id,
                            true,
                        ),
                        sector_id: sector.sector_id,
                        piece_start_byte: start,
                        piece_len: num_bytes,
                        seal_ticket: sector.seal_ticket.duplicate(),
                    };
                    proof {
                        let m2 = self.state@.sealed[i as int];
                        assert(m2.pieces[k as int].piece_key == piece_key@);
                        assert(sector_has_piece(m2, piece_key@));
                        assert(retrieve_proto_matches(
                            m2,
                            self.sector_store.sector_class,
                            self.miner@,
                            piece_key@,
                            proto,
                        )) by {
                            assert(m2.pieces[k as int].piece_key == piece_key@);
                            assert(proto.piece_start_byte as int
                                == crate::pieces::spec_piece_start(
                                spec_used(m2.piece_lens().subrange(0, k as int)),
                                m2.pieces[k as int].num_bytes as int,
                            ));
                        }
                        assert(exists|i2: int|
                            #![trigger self.state@.sealed[i2]]
                            0 <= i2 < self.state@.sealed.len() && sector_has_piece(
                                self.state@.sealed[i2],
                                piece_key@,
                            ) && (forall|a: int|
                                0 <= a < i2 ==> !sector_has_piece(
                                    self.state@.sealed[a],
                                    piece_key@,
                                )) && retrieve_proto_matches(
                                self.state@.sealed[i2],
                                self.sector_store.sector_class,
                                self.miner@,
                                piece_key@,
                                proto,
                            )) by {
                            assert(sector_has_piece(self.state@.sealed[i as int], piece_key@));
                        }
                    }
                    return Result::Ok(proto);
                },
                Option::None => {
                    proof {
                        if sector_has_piece(self.state@.sealed[i as int], piece_key@) {
                            assert(false);
                        }
                    }
                },
            }
            i = i + 1;
        }
        Result::Err(SectorBuilderErr::PieceNotFound(piece_key))
    }
}

/// Whether `proto` is the seal job for the staged sector `sector`: it
/// names the sector, its staged file, the sealed file the seal will
/// produce, the sector's piece lengths in order, the bound ticket and the
/// sector class.
pub open spec fn seal_proto_matches(
    proto: crate::worker::SealTaskPrototype,
    sector: StagedSectorMetadataView,
    sector_class: SectorClass,
    ticket: crate::metadata::SealTicketView,
    miner: Seq<char>,
) -> bool {
    &&& proto.sector_id == sector.sector_id
    &&& proto.sector_class == sector_class
    &&& proto.seal_ticket@ == ticket
    &&& proto.staged_sector_access@ == sector.sector_access
    &&& proto.sealed_sector_access@ == crate::store::spec_sealed_access(miner, sector.sector_id)
    &&& proto.piece_lens@ == sector.piece_lens()
}

/// Every dispatched job matches the sector of `pre` picked for it: the
/// job at `j` names the sector at index `picked[j]`, which was due for
/// sealing.
pub open spec fn dispatched_protos_match_by(
    pre: Seq<StagedSectorMetadataView>,
    sector_class: SectorClass,
    ticket: crate::metadata::SealTicketView,
    miner: Seq<char>,
    max_bytes: u64,
    max_staged: u8,
    seal_all: bool,
    protos: Seq<crate::worker::SealTaskPrototype>,
    picked: Seq<int>,
) -> bool {
    &&& picked.len() == protos.len()
    &&& (forall|j: int|
        0 <= j < protos.len() ==> {
            &&& 0 <= #[trigger] picked[j] < pre.len()
            &&& helpers::spec_ready(pre, picked[j], max_bytes, max_staged, seal_all)
            &&& seal_proto_matches(protos[j], pre[picked[j]], sector_class, ticket, miner)
        })
}

/// Every dispatched job names some sector that was due for sealing in
/// `pre` and matches it field for field: some assignment of picked sector
/// indexes, one per job, fits.
pub open spec fn dispatched_protos_match(
    pre: Seq<StagedSectorMetadataView>,
    sector_class: SectorClass,
    ticket: crate::metadata::SealTicketView,
    miner: Seq<char>,
    max_bytes: u64,
    max_staged: u8,
    seal_all: bool,
    protos: Seq<crate::worker::SealTaskPrototype>,
) -> bool {
    exists|picked: Seq<int>|
        #![trigger dispatched_protos_match_by(pre, sector_class, ticket, miner, max_bytes, max_staged, seal_all, protos, picked)]
        dispatched_protos_match_by(
            pre,
            sector_class,
            ticket,
            miner,
            max_bytes,
            max_staged,
            seal_all,
            protos,
            picked,
        )
}

impl SectorMetadataManager {
    /// Picks every staged sector due for sealing under the packer's rule,
    /// transitions each to `Sealing` bound to the given ticket, persists
    /// the snapshot, and returns one seal job per pick, in ascending id
    /// order.
    #[verifier::rlimit(100)]
    pub fn create_seal_task_protos(
        &mut self,
        seal_all_staged_sectors: bool,
        seal_ticket: SealTicket,
    ) -> (r: Vec<crate::worker::SealTaskPrototype>)
        requires
            old(self).inv(),
        ensures
            final(self).inv(),
            final(self).sector_store == old(self).sector_store,
            final(self).max_num_staged_sectors == old(self).max_num_staged_sectors,
            final(self).max_user_bytes_per_staged_sector == old(
                self,
            ).max_user_bytes_per_staged_sector,
            final(self).prover_id == old(self).prover_id,
            final(self).sector_size == old(self).sector_size,
            final(self).miner == old(self).miner,
            final(self).state@.sealed == old(self).state@.sealed,
            final(self).state@.last_committed_sector_id == old(
                self,
            ).state@.last_committed_sector_id,
            final(self).state@.staged.len() == old(self).state@.staged.len(),
            forall|i: int|
                0 <= i < old(self).state@.staged.len() ==> final(self).state@.staged[i] == (
                if helpers::spec_ready(
                    old(self).state@.staged,
                    i,
                    old(self).max_user_bytes_per_staged_sector,
                    old(self).max_num_staged_sectors,
                    seal_all_staged_sectors,
                ) {
                    (StagedSectorMetadataView {
                        seal_status: crate::metadata::SealStatusView::Sealing(seal_ticket@),
                        ..old(self).state@.staged[i]
                    })
                } else {
                    old(self).state@.staged[i]
                }),
            r@.len() == helpers::spec_ready_ids(
                old(self).state@.staged,
                old(self).max_user_bytes_per_staged_sector,
                old(self).max_num_staged_sectors,
                seal_all_staged_sectors,
            ).len(),
            forall|j: int|
                0 <= j < r@.len() ==> (#[trigger] r@[j]).sector_id == helpers::spec_ready_ids(
                    old(self).state@.staged,
                    old(self).max_user_bytes_per_staged_sector,
                    old(self).max_num_staged_sectors,
                    seal_all_staged_sectors,
                )[j],
            dispatched_protos_match(
                old(self).state@.staged,
                old(self).sector_store.sector_class,
                seal_ticket@,
                old(self).miner@,
                old(self).max_user_bytes_per_staged_sector,
                old(self).max_num_staged_sectors,
                seal_all_staged_sectors,
                r@,
            ),
    {
        let ghost s0 = self.state@.staged;
        let ghost gclass = self.sector_store.sector_class;
        let ghost gminer = self.miner@;
        let max_user_bytes = self.max_user_bytes_per_staged_sector;
        let max_staged = self.max_num_staged_sectors;
        let open_count = self.state.staged.count_open_sectors();
        let first_open = helpers::first_open_index(&self.state.staged);
        let mut protos: Vec<crate::worker::SealTaskPrototype> = Vec::new();
        let ghost mut picked: Seq<int> = Seq::empty();
        let mut i: usize = 0;
        while i < self.state.staged.sectors.len()
            invariant
                s0 == old(self).state@.staged,
                self.state@.sealed == old(self).state@.sealed,
                self.state@.last_committed_sector_id == old(self).state@.last_committed_sector_id,
                self.kv_store == old(self).kv_store,
                self.snapshotted == old(self).snapshotted,
                self.sector_store == old(self).sector_store,
                self.max_num_staged_sectors == old(self).max_num_staged_sectors,
                self.max_user_bytes_per_staged_sector == old(
                    self,
                ).max_user_bytes_per_staged_sector,
                self.prover_id == old(self).prover_id,
                self.sector_size == old(self).sector_size,
                self.miner == old(self).miner,
                max_user_bytes == self.max_user_bytes_per_staged_sector,
                max_staged == self.max_num_staged_sectors,
                self.state@.staged.len() == s0.len(),
                0 <= i <= s0.len(),
                open_count as int == count_open(s0),
                match first_open {
                    Option::Some(f) => f < s0.len() && helpers::spec_oldest_open(s0, f as int),
                    Option::None => forall|j: int|
                        0 <= j < s0.len() ==> !(#[trigger] s0[j]).seal_status.is_open(),
                },
                forall|k: int| 0 <= k < s0.len() ==> (#[trigger] s0[k]).wf(max_user_bytes),
                forall|j: int| i <= j < s0.len() ==> self.state@.staged[j] == s0[j],
                forall|j: int|
                    0 <= j < i ==> self.state@.staged[j] == (if helpers::spec_ready(
                        s0,
                        j,
                        max_user_bytes,
                        max_staged,
                        seal_all_staged_sectors,
                    ) {
                        (StagedSectorMetadataView {
                            seal_status: crate::metadata::SealStatusView::Sealing(seal_ticket@),
                            ..s0[j]
                        })
                    } else {
                        s0[j]
                    }),
                protos@.len() == helpers::spec_ready_ids_upto(
                    s0,
                    i as int,
                    max_user_bytes,
                    max_staged,
                    seal_all_staged_sectors,
                ).len(),
                forall|j: int|
                    0 <= j < protos@.len() ==> (#[trigger] protos@[j]).sector_id
                        == helpers::spec_ready_ids_upto(
                        s0,
                        i as int,
                        max_user_bytes,
                        max_staged,
                        seal_all_staged_sectors,
                    )[j],
                gclass == self.sector_store.sector_class,
                gminer == self.miner@,
                picked.len() == protos@.len(),
                forall|j: int|
                    0 <= j < protos@.len() ==> {
                        &&& 0 <= #[trigger] picked[j] < s0.len()
                        &&& helpers::spec_ready(
                            s0,
                            picked[j],
                            max_user_bytes,
                            max_staged,
                            seal_all_staged_sectors,
                        )
                        &&& seal_proto_matches(
                            protos@[j],
                            s0[picked[j]],
                            gclass,
                            seal_ticket@,
                            gminer,
                        )
                    },
            decreases s0.len() - i,
        {
            let open = self.state.staged.sectors[i].seal_status.is_open();
            let full = match self.state.staged.sectors[i].seal_status {
                SealStatus::FullyPacked => true,
                _ => false,
            };
            let lens = helpers::piece_lens(&self.state.staged.sectors[i].pieces);
            proof {
                assert(self.state@.staged[i as int] == self.state.staged.sectors@[i as int]@);
                helpers::lemma_piece_lens_view(self.state.staged.sectors@[i as int]);
                assert(lens@ =~= s0[i as int].piece_lens());
                assert(s0[i as int].wf(max_user_bytes));
                crate::pieces::lemma_used_nonneg(lens@);
            }
            let used = crate::pieces::sector_used(&lens);
            let oldest_when_capped = open_count == max_staged as usize && (match first_open {
                Option::Some(f) => f == i,
                Option::None => false,
            });
            let ready = open && (seal_all_staged_sectors || full || used >= max_user_bytes
                || oldest_when_capped);
            proof {
                assert(ready == helpers::spec_ready(
                    s0,
                    i as int,
                    max_user_bytes,
                    max_staged,
                    seal_all_staged_sectors,
                ));
            }
            if ready {
                let sector_id = self.state.staged.sectors[i].sector_id;
                let proto = crate::worker::SealTaskPrototype {
                    sector_id,
                    sector_class: self.sector_store.sector_class,
                    seal_ticket: seal_ticket.duplicate(),
                    sealed_sector_access: self.sector_store.new_sealed_sector_access(
                        self.miner.as_str(),
                        sector_id,
                    ),
                    staged_sector_access: self.state.staged.sectors[i].sector_access.clone(),
                    piece_lens: lens,
                };
                self.state.staged.sectors[i].seal_status = SealStatus::Sealing(
                    seal_ticket.duplicate(),
                );
                proof {
                    assert(self.state@.staged[i as int] =~= (StagedSectorMetadataView {
                        seal_status: crate::metadata::SealStatusView::Sealing(seal_ticket@),
                        ..s0[i as int]
                    }));
                    assert(seal_proto_matches(proto, s0[i as int], gclass, seal_ticket@, gminer));
                }
                protos.push(proto);
                proof {
                    picked = picked.push(i as int);
                }
            }
            proof {
                assert(protos@.len() == helpers::spec_ready_ids_upto(
                    s0,
                    i + 1,
                    max_user_bytes,
                    max_staged,
                    seal_all_staged_sectors,
                ).len());
                assert(forall|j: int|
                    0 <= j < protos@.len() ==> (#[trigger] protos@[j]).sector_id
                        == helpers::spec_ready_ids_upto(
                        s0,
                        i + 1,
                        max_user_bytes,
                        max_staged,
                        seal_all_staged_sectors,
                    )[j]);
                assert(forall|j: int| i + 1 <= j < s0.len() ==> self.state@.staged[j] == s0[j]);
            }
            i = i + 1;
        }
        proof {
            assert(forall|j: int|
                0 <= j < self.state@.staged.len() ==> ((#[trigger] self.state@.staged[j]).seal_status.is_open()
                    ==> s0[j].seal_status.is_open()));
            crate::state::lemma_count_open_mono(s0, self.state@.staged);
            assert(forall|j: int|
                0 <= j < self.state@.staged.len() ==> (#[trigger] self.state@.staged[j]).sector_id
                    == s0[j].sector_id);
            assert(dispatched_protos_match_by(
                s0,
                gclass,
                seal_ticket@,
                gminer,
                max_user_bytes,
                max_staged,
                seal_all_staged_sectors,
                protos@,
                picked,
            ));
            assert(dispatched_protos_match(
                s0,
                gclass,
                seal_ticket@,
                gminer,
                max_user_bytes,
                max_staged,
                seal_all_staged_sectors,
                protos@,
            )) by {
                assert(dispatched_protos_match_by(
                    s0,
                    gclass,
                    seal_ticket@,
                    gminer,
                    max_user_bytes,
                    max_staged,
                    seal_all_staged_sectors,
                    protos@,
                    picked,
                ));
            }
        }
        self.checkpoint();
        protos
    }
}

/// The packer never overfills: when a piece write is accepted into a state
/// whose staged sectors all respect the capacity `max`, every staged sector
/// of the resulting state still has fill at most `max` under the placement
/// rule.
pub proof fn lemma_packer_respects_capacity(
    pre: SectorBuilderStateView,
    post: SectorBuilderStateView,
    r: Result<u64, SectorBuilderErr>,
    i: int,
    sector_id: u64,
    key: Seq<char>,
    n: u64,
    written: u64,
    max: u64,
)
    requires
        0 <= i < pre.staged.len(),
        forall|a: int| 0 <= a < pre.staged.len() ==> (#[trigger] pre.staged[a]).wf(max),
        add_second_post_at(pre, post, r, i, sector_id, key, n, written, max),
        r is Ok,
    ensures
        forall|a: int| 0 <= a < post.staged.len() ==> (#[trigger] post.staged[a]).used() <= max,
{
    let s2 = sector_after_piece(pre.staged[i], key, n, max);
    assert(s2.piece_lens() =~= pre.staged[i].piece_lens().push(n));
    crate::pieces::lemma_used_push(pre.staged[i].piece_lens(), n);
    assert(post.staged == pre.staged.update(i, s2));
    assert(forall|a: int|
        0 <= a < post.staged.len() && a != i ==> post.staged[a] == pre.staged[a]);
}

/// Every accepted admission is recorded where it reports: the returned id
/// names a staged sector of the resulting state whose last piece carries
/// exactly the submitted key and length.
pub proof fn lemma_admitted_piece_recorded(
    pre: SectorBuilderStateView,
    post: SectorBuilderStateView,
    r: Result<u64, SectorBuilderErr>,
    i: int,
    sector_id: u64,
    key: Seq<char>,
    n: u64,
    written: u64,
    max: u64,
)
    requires
        0 <= i < pre.staged.len(),
        pre.staged[i].sector_id == sector_id,
        add_second_post_at(pre, post, r, i, sector_id, key, n, written, max),
        r is Ok,
    ensures
        r == Result::Ok::<u64, SectorBuilderErr>(sector_id),
        post.staged[i].sector_id == sector_id,
        post.staged[i].pieces.len() == pre.staged[i].pieces.len() + 1,
        post.staged[i].pieces.last() == placed_piece(key, n),
{
}

/// Sector ids issue strictly upward: an admission step never lowers
/// `last_committed_sector_id`, and whenever it hands out an id that no
/// staged sector carried before, that id is freshly allocated one above the
/// old watermark.
pub proof fn lemma_allocation_monotonic(
    pre: SectorBuilderStateView,
    post: SectorBuilderStateView,
    r: Result<u64, SectorBuilderErr>,
    n: u64,
    max: u64,
    max_staged: u8,
    miner: Seq<char>,
)
    requires
        add_first_post(pre, post, r, n, max, max_staged, miner),
    ensures
        post.last_committed_sector_id >= pre.last_committed_sector_id,
        forall|id: u64|
            r == Result::Ok::<u64, SectorBuilderErr>(id) && !staged_contains(pre.staged, id)
                ==> post.last_committed_sector_id > pre.last_committed_sector_id && id
                == post.last_committed_sector_id,
{
}

/// Admission is total for well-sized pieces: as long as ids and staging
/// slots are not exhausted, a piece within the sector capacity is either
/// accepted or refused with exactly `FullyStaged`. Callers racing through
/// the scheduler therefore all see one of those two outcomes.
pub proof fn lemma_admission_succeeds_or_fully_staged(
    pre: SectorBuilderStateView,
    post: SectorBuilderStateView,
    r: Result<u64, SectorBuilderErr>,
    n: u64,
    max: u64,
    max_staged: u8,
    miner: Seq<char>,
)
    requires
        add_first_post(pre, post, r, n, max, max_staged, miner),
        n <= max,
        pre.last_committed_sector_id < u64::MAX,
        pre.staged.len() < usize::MAX,
    ensures
        r is Ok || r == Result::Err::<u64, SectorBuilderErr>(SectorBuilderErr::FullyStaged),
{
}

/// A crash loses no committed progress: whenever the manager's invariant
/// holds, decoding the stored snapshot succeeds and yields the last
/// snapshotted state, so a restart resumes exactly there.
pub proof fn lemma_restart_recovers_snapshot(m: SectorMetadataManager)
    requires
        m.inv_base(),
    ensures
        m.kv_store@.contains_key(m.spec_key()),
        spec_parse_state(m.kv_store@[m.spec_key()], 0) == Option::Some(
            (m.snapshotted@, m.kv_store@[m.spec_key()].len() as int),
        ),
        snapshot_loadable(
            m.kv_store@[m.spec_key()],
            m.max_user_bytes_per_staged_sector,
            m.max_num_staged_sectors,
        ),
{
    lemma_snapshot_round_trip(m.snapshotted@);
}

} // verus!
