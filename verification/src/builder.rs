//! The caller-facing builder for driving the engine step by step, and the
//! parameter-cache precondition every engine start checks.

use vstd::prelude::*;
use crate::error::SectorBuilderErr;
use crate::helpers;
use crate::metadata::{SectorClass, StagedSectorMetadata};
use crate::state::{staged_ids_increasing, StagedState};
use crate::store::SectorStore;

verus! {

/// What the embedder observed of one file: whether a regular file exists
/// under the path, and how long it is.
#[derive(Debug, Clone, Copy, PartialEq, Eq, Structural)]
pub struct FileStat {
    pub is_file: bool,
    pub len: u64,
}

impl FileStat {
    /// A regular, non-empty file.
    pub open spec fn usable(&self) -> bool {
        self.is_file && self.len > 0
    }
}

/// The observed state of the four parameter-cache files a proof kind pair
/// needs: a verifying key and a Groth parameters file each for replication
/// proofs and for spacetime proofs.
#[derive(Debug, Clone, Copy, PartialEq, Eq, Structural)]
pub struct ParameterCacheStats {
    pub porep_verifying_key: FileStat,
    pub porep_params: FileStat,
    pub post_verifying_key: FileStat,
    pub post_params: FileStat,
}

impl ParameterCacheStats {
    pub open spec fn hydrated(&self) -> bool {
        &&& self.porep_verifying_key.usable()
        &&& self.porep_params.usable()
        &&& self.post_verifying_key.usable()
        &&& self.post_params.usable()
    }
}

/// Accepts exactly a regular, non-empty file.
pub fn ensure_file(stat: &FileStat) -> (r: Result<(), SectorBuilderErr>)
    ensures
        r is Ok <==> stat.usable(),
        r matches Result::Err(e) ==> e@ is Unrecoverable,
{
    if !stat.is_file {
        return Result::Err(SectorBuilderErr::Unrecoverable(String::from_str("not a file")));
    }
    if stat.len == 0 {
        return Result::Err(SectorBuilderErr::Unrecoverable(String::from_str("empty file")));
    }
    Result::Ok(())
}

/// Checks that both proof kinds' verifying keys and Groth parameters are
/// present as regular, non-empty files. Absence is a fatal startup error.
pub fn ensure_parameter_cache_hydrated(stats: &ParameterCacheStats) -> (r: Result<
    (),
    SectorBuilderErr,
>)
    ensures
        r is Ok <==> stats.hydrated(),
        r matches Result::Err(e) ==> e@ is Unrecoverable,
{
    match ensure_file(&stats.porep_verifying_key) {
        Result::Ok(()) => {},
        Result::Err(e) => {
            return Result::Err(e);
        },
    }
    match ensure_file(&stats.porep_params) {
        Result::Ok(()) => {},
        Result::Err(e) => {
            return Result::Err(e);
        },
    }
    match ensure_file(&stats.post_verifying_key) {
        Result::Ok(()) => {},
        Result::Err(e) => {
            return Result::Err(e);
        },
    }
    match ensure_file(&stats.post_params) {
        Result::Ok(()) => {},
        Result::Err(e) => {
            return Result::Err(e);
        },
    }
    Result::Ok(())
}

/// A builder whose caller owns the sector maps and drives each operation
/// itself: it holds no threads and no store handles beyond the pure sector
/// store.
#[derive(Debug, Clone, Copy, PartialEq, Eq, Structural)]
pub struct SimpleSectorBuilder {
    pub sector_store: SectorStore,
    pub max_num_staged_sectors: u8,
}

impl SimpleSectorBuilder {
    /// A builder for the given sector class, constructed only over a
    /// hydrated parameter cache.
    pub fn new(
        sector_class: SectorClass,
        max_num_staged_sectors: u8,
        parameter_cache: &ParameterCacheStats,
    ) -> (r: Result<SimpleSectorBuilder, SectorBuilderErr>)
        ensures
            r is Ok <==> parameter_cache.hydrated(),
            r matches Result::Ok(b) ==> b.sector_store.sector_class == sector_class
                && b.max_num_staged_sectors == max_num_staged_sectors,
            r matches Result::Err(e) ==> e@ is Unrecoverable,
    {
        match ensure_parameter_cache_hydrated(parameter_cache) {
            Result::Ok(()) => {},
            Result::Err(e) => {
                return Result::Err(e);
            },
        }
        Result::Ok(
            SimpleSectorBuilder { sector_store: SectorStore::new(sector_class), max_num_staged_sectors },
        )
    }

    /// Picks the sector a piece of the given length would be written to:
    /// the oldest open sector it fits, else a new sector under
    /// `new_sector_id` when a staging slot is free, else the `FullyStaged`
    /// refusal. The caller keeps ownership of the sector map; a freshly
    /// allocated sector's access name is deterministic in its id.
    pub fn add_piece_first(
        &self,
        miner: String,
        staged_sectors: Vec<StagedSectorMetadata>,
        piece_bytes_amount: u64,
        new_sector_id: u64,
    ) -> (r: Result<u64, SectorBuilderErr>)
        requires
            staged_ids_increasing(
                staged_sectors@.map_values(|s: StagedSectorMetadata| s@),
            ),
            forall|i: int|
                0 <= i < staged_sectors@.len() ==> (#[trigger] staged_sectors@[i]@).wf(
                    crate::store::spec_max_unsealed_bytes(
                        self.sector_store.sector_class.sector_size,
                    ) as u64,
                ),
            forall|i: int|
                0 <= i < staged_sectors@.len() ==> (#[trigger] staged_sectors@[i]@).sector_id
                    < new_sector_id,
            staged_sectors@.len() < usize::MAX,
        ensures
            ({
                let views = staged_sectors@.map_values(|s: StagedSectorMetadata| s@);
                let max = crate::store::spec_max_unsealed_bytes(
                    self.sector_store.sector_class.sector_size,
                ) as u64;
                if piece_bytes_amount > max {
                    r == Result::Err::<u64, SectorBuilderErr>(
                        SectorBuilderErr::OverflowError { num_bytes: piece_bytes_amount, max },
                    )
                } else if exists|i: int|
                    0 <= i < views.len() && helpers::spec_fits(views[i], piece_bytes_amount, max) {
                    exists|i: int|
                        #![auto]
                        0 <= i < views.len() && helpers::spec_fits(
                            views[i],
                            piece_bytes_amount,
                            max,
                        ) && (forall|j: int|
                            0 <= j < i ==> !helpers::spec_fits(views[j], piece_bytes_amount, max))
                            && r == Result::Ok::<u64, SectorBuilderErr>(views[i].sector_id)
                } else if crate::state::count_open(views) < self.max_num_staged_sectors as int {
                    r == Result::Ok::<u64, SectorBuilderErr>(new_sector_id)
                } else {
                    r == Result::Err::<u64, SectorBuilderErr>(SectorBuilderErr::FullyStaged)
                }
            }),
    {
        let mut staged = StagedState { sectors: staged_sectors };
        let max_user_bytes = self.sector_store.max_unsealed_bytes_per_sector();
        let access = self.sector_store.new_staging_sector_access(
            miner.as_str(),
            new_sector_id,
            false,
        );
        helpers::add_piece_first(
            &mut staged,
            piece_bytes_amount,
            new_sector_id,
            access,
            max_user_bytes,
            self.max_num_staged_sectors,
        )
    }

    /// Records a completed piece write into the given staged sector and
    /// returns the updated record: the piece's metadata is appended, and
    /// the sector is marked fully packed once its capacity is reached. A
    /// short write is a fatal receiver error.
    pub fn add_piece_second(
        &self,
        staged_sector: StagedSectorMetadata,
        piece_key: String,
        piece_bytes_amount: u64,
        num_bytes_written: u64,
    ) -> (r: Result<StagedSectorMetadata, SectorBuilderErr>)
        requires
            helpers::spec_fits(
                staged_sector@,
                piece_bytes_amount,
                crate::store::spec_max_unsealed_bytes(
                    self.sector_store.sector_class.sector_size,
                ) as u64,
            ),
            staged_sector.pieces@.len() < usize::MAX,
        ensures
            num_bytes_written != piece_bytes_amount ==> r == Result::Err::<
                StagedSectorMetadata,
                SectorBuilderErr,
            >(
                SectorBuilderErr::IncompleteWriteError {
                    num_bytes_written,
                    num_bytes_in_piece: piece_bytes_amount,
                },
            ),
            num_bytes_written == piece_bytes_amount ==> (r matches Result::Ok(s2) && s2@
                == crate::metadata_manager::sector_after_piece(
                staged_sector@,
                piece_key@,
                piece_bytes_amount,
                crate::store::spec_max_unsealed_bytes(
                    self.sector_store.sector_class.sector_size,
                ) as u64,
            )),
    {
        let max_user_bytes = self.sector_store.max_unsealed_bytes_per_sector();
        let ghost gkey = piece_key@;
        let ghost pre = staged_sector@;
        let r = helpers::add_piece_second(
            staged_sector,
            piece_key,
            piece_bytes_amount,
            num_bytes_written,
            max_user_bytes,
        );
        proof {
            if num_bytes_written == piece_bytes_amount {
                match r {
                    Result::Ok(ref s2) => {
                        assert((*s2)@ =~= crate::metadata_manager::sector_after_piece(
                            pre,
                            gkey,
                            piece_bytes_amount,
                            max_user_bytes,
                        ));
                    },
                    Result::Err(_) => {},
                }
            }
        }
        r
    }

    /// Picks every staged sector due for sealing and returns the chosen
    /// ids in ascending order. The caller keeps ownership of the sector
    /// map and applies the `ReadyForSealing` transitions itself.
    pub fn get_sectors_ready_for_sealing(
        &self,
        staged_sectors: Vec<StagedSectorMetadata>,
        seal_all_staged_sectors: bool,
    ) -> (r: Vec<u64>)
        requires
            forall|i: int|
                0 <= i < staged_sectors@.len() ==> (#[trigger] staged_sectors@[i]@).wf(
                    crate::store::spec_max_unsealed_bytes(
                        self.sector_store.sector_class.sector_size,
                    ) as u64,
                ),
        ensures
            r@ == helpers::spec_ready_ids(
                staged_sectors@.map_values(|s: StagedSectorMetadata| s@),
                crate::store::spec_max_unsealed_bytes(
                    self.sector_store.sector_class.sector_size,
                ) as u64,
                self.max_num_staged_sectors,
                seal_all_staged_sectors,
            ),
    {
        let mut staged = StagedState { sectors: staged_sectors };
        let max_user_bytes = self.sector_store.max_unsealed_bytes_per_sector();
        helpers::get_sectors_ready_for_sealing(
            &mut staged,
            max_user_bytes,
            self.max_num_staged_sectors,
            seal_all_staged_sectors,
        )
    }
}

} // verus!
