//! The scheduler's decision core. One scheduler owns the metadata manager;
//! its embedder runs the select loop, performs file and worker plumbing, and
//! hands every event to exactly one of the handlers here, one at a time.
//! Requests handled in arrival order therefore mutate state in that order.

use vstd::prelude::*;
use crate::error::SectorBuilderErr;
use crate::metadata::{
    GetSealedSectorResult, SealStatus, SealTicket, SealedSectorMetadata, StagedSectorMetadata,
};
use crate::metadata_manager::{add_first_post, SectorMetadataManager};
use crate::worker::{SealOutput, SealTaskPrototype, UnsealTaskPrototype, WorkerTask};
use crate::state::staged_contains;

verus! {

/// Whether a listing of sealed sectors should validate the files on disk.
#[derive(Debug, Clone, Copy, PartialEq, Eq, Structural)]
pub struct PerformHealthCheck(pub bool);

/// The single-threaded owner of the engine state. Every handler restores
/// the manager's invariant before returning, so each reply a caller sees
/// reflects a persisted snapshot.
pub struct Scheduler {
    pub m: SectorMetadataManager,
    /// The chain-derived entropy bound into seals this scheduler dispatches.
    pub seal_ticket: SealTicket,
    /// Once set, every new request is refused; worker results are still
    /// applied so in-flight seals drain cleanly.
    pub shutting_down: bool,
}

impl Scheduler {
    pub open spec fn inv(&self) -> bool {
        self.m.inv()
    }

    /// A scheduler over the given manager, accepting requests.
    pub fn start(m: SectorMetadataManager, seal_ticket: SealTicket) -> (s: Self)
        requires
            m.inv(),
        ensures
            s.inv(),
            !s.shutting_down,
            s.m == m,
            s.seal_ticket == seal_ticket,
    {
        Scheduler { m, seal_ticket, shutting_down: false }
    }

    /// First admission step for a piece: picks or allocates the target
    /// sector. Refused once shutdown has begun.
    pub fn handle_add_piece_first(&mut self, piece_bytes_amount: u64) -> (r: Result<
        u64,
        SectorBuilderErr,
    >)
        requires
            old(self).inv(),
        ensures
            final(self).m.inv_base(),
            final(self).shutting_down == old(self).shutting_down,
            final(self).seal_ticket == old(self).seal_ticket,
            old(self).shutting_down ==> final(self).m == old(self).m && (r matches Result::Err(e)
                && e@ is Unrecoverable),
            !old(self).shutting_down ==> add_first_post(
                old(self).m.state@,
                final(self).m.state@,
                r,
                piece_bytes_amount,
                old(self).m.max_user_bytes_per_staged_sector,
                old(self).m.max_num_staged_sectors,
                old(self).m.miner@,
            ),
            r is Err ==> final(self).m.inv(),
    {
        if self.shutting_down {
            return Result::Err(
                SectorBuilderErr::Unrecoverable(String::from_str("engine is shutting down")),
            );
        }
        self.m.add_piece_first(piece_bytes_amount)
    }

    /// Second admission step: records the completed write and persists the
    /// snapshot. Refused once shutdown has begun.
    pub fn handle_add_piece_second(
        &mut self,
        sector_id: u64,
        piece_key: String,
        piece_bytes_amount: u64,
        num_bytes_written: u64,
    ) -> (r: Result<u64, SectorBuilderErr>)
        requires
            old(self).m.inv_base(),
        ensures
            final(self).m.inv_base(),
            final(self).shutting_down == old(self).shutting_down,
            final(self).seal_ticket == old(self).seal_ticket,
            old(self).shutting_down ==> final(self).m == old(self).m && (r matches Result::Err(e)
                && e@ is Unrecoverable),
            r is Ok ==> final(self).m.inv(),
            !old(self).shutting_down && !staged_contains(old(self).m.state@.staged, sector_id)
                ==> r == Result::Err::<u64, SectorBuilderErr>(
                SectorBuilderErr::SectorNotFound(sector_id),
            ),
            !old(self).shutting_down && staged_contains(old(self).m.state@.staged, sector_id)
                ==> (exists|i: int|
                #![auto]
                0 <= i < old(self).m.state@.staged.len()
                    && old(self).m.state@.staged[i].sector_id == sector_id
                    && crate::metadata_manager::add_second_post_at(
                    old(self).m.state@,
                    final(self).m.state@,
                    r,
                    i,
                    sector_id,
                    piece_key@,
                    piece_bytes_amount,
                    num_bytes_written,
                    old(self).m.max_user_bytes_per_staged_sector,
                )),
    {
        if self.shutting_down {
            return Result::Err(
                SectorBuilderErr::Unrecoverable(String::from_str("engine is shutting down")),
            );
        }
        self.m.add_piece_second(sector_id, piece_key, piece_bytes_amount, num_bytes_written)
    }

    /// Picks every sector due for sealing, transitions each to `Sealing`
    /// bound to this scheduler's ticket, persists the snapshot, and returns
    /// one seal job per pick. During shutdown nothing new is dispatched.
    pub fn check_and_dispatch(&mut self, seal_all_staged_sectors: bool) -> (r: Vec<
        SealTaskPrototype,
    >)
        requires
            old(self).inv(),
        ensures
            final(self).inv(),
            final(self).shutting_down == old(self).shutting_down,
            final(self).seal_ticket == old(self).seal_ticket,
            old(self).shutting_down ==> final(self).m == old(self).m && r@.len() == 0,
            !old(self).shutting_down ==> final(self).m.state@.sealed == old(self).m.state@.sealed,
            !old(self).shutting_down ==> final(self).m.state@.last_committed_sector_id == old(
                self,
            ).m.state@.last_committed_sector_id,
            !old(self).shutting_down ==> final(self).m.state@.staged.len() == old(
                self,
            ).m.state@.staged.len(),
            !old(self).shutting_down ==> (forall|i: int|
                0 <= i < old(self).m.state@.staged.len() ==> final(self).m.state@.staged[i] == (
                if crate::helpers::spec_ready(
                    old(self).m.state@.staged,
                    i,
                    old(self).m.max_user_bytes_per_staged_sector,
                    old(self).m.max_num_staged_sectors,
                    seal_all_staged_sectors,
                ) {
                    (crate::metadata::StagedSectorMetadataView {
                        seal_status: crate::metadata::SealStatusView::Sealing(
                            old(self).seal_ticket@,
                        ),
                        ..old(self).m.state@.staged[i]
                    })
                } else {
                    old(self).m.state@.staged[i]
                })),
            !old(self).shutting_down ==> r@.len() == crate::helpers::spec_ready_ids(
                old(self).m.state@.staged,
                old(self).m.max_user_bytes_per_staged_sector,
                old(self).m.max_num_staged_sectors,
                seal_all_staged_sectors,
            ).len(),
            !old(self).shutting_down ==> (forall|j: int|
                0 <= j < r@.len() ==> (#[trigger] r@[j]).sector_id
                    == crate::helpers::spec_ready_ids(
                    old(self).m.state@.staged,
                    old(self).m.max_user_bytes_per_staged_sector,
                    old(self).m.max_num_staged_sectors,
                    seal_all_staged_sectors,
                )[j]),
            !old(self).shutting_down ==> crate::metadata_manager::dispatched_protos_match(
                old(self).m.state@.staged,
                old(self).m.sector_store.sector_class,
                old(self).seal_ticket@,
                old(self).m.miner@,
                old(self).m.max_user_bytes_per_staged_sector,
                old(self).m.max_num_staged_sectors,
                seal_all_staged_sectors,
                r@,
            ),
    {
        if self.shutting_down {
            return Vec::new();
        }
        self.m.create_seal_task_protos(seal_all_staged_sectors, self.seal_ticket.duplicate())
    }

    /// Applies one worker's seal outcome: a success moves the sector to the
    /// sealed map, a failure leaves it staged as `Failed(reason)`. Applied
    /// even during shutdown, so in-flight seals drain and persist.
    pub fn handle_seal_result(
        &mut self,
        sector_id: u64,
        outcome: Result<(SealOutput, Vec<u8>, u64), String>,
    ) -> (r: Result<Option<SealedSectorMetadata>, SectorBuilderErr>)
        requires
            old(self).inv(),
        ensures
            final(self).inv(),
            final(self).shutting_down == old(self).shutting_down,
            final(self).seal_ticket == old(self).seal_ticket,
            outcome matches Result::Err(reason) ==> staged_contains(
                old(self).m.state@.staged,
                sector_id,
            ) ==> (r is Ok && (exists|i: int|
                #![auto]
                0 <= i < old(self).m.state@.staged.len()
                    && old(self).m.state@.staged[i].sector_id == sector_id && final(self).m.state@.staged == old(self).m.state@.staged.update(
                    i,
                    (crate::metadata::StagedSectorMetadataView {
                        seal_status: crate::metadata::SealStatusView::Failed(reason@),
                        ..old(self).m.state@.staged[i]
                    }),
                ))),
            outcome matches Result::Ok(out) ==> ({
                &&& (!staged_contains(old(self).m.state@.staged, sector_id) ==> r == Result::Err::<
                    Option<SealedSectorMetadata>,
                    SectorBuilderErr,
                >(SectorBuilderErr::SectorNotFound(sector_id)) && final(self).m.state@ == old(
                    self,
                ).m.state@)
                &&& (staged_contains(old(self).m.state@.staged, sector_id) ==> (exists|i: int|
                    #![auto]
                    0 <= i < old(self).m.state@.staged.len()
                        && old(self).m.state@.staged[i].sector_id == sector_id && (if
                    crate::metadata_manager::seal_output_mismatched(
                        old(self).m.state@.staged[i],
                        out.0,
                    ) {
                        (r matches Result::Err(e) && e@ is Unrecoverable) && final(self).m.state@
                            == old(self).m.state@
                    } else {
                        r matches Result::Ok(opt) && (opt matches Option::Some(meta)
                            && crate::metadata_manager::seal_success_at(
                            old(self).m.state@,
                            final(self).m.state@,
                            i,
                            sector_id,
                            out.0,
                            out.1@,
                            out.2,
                            old(self).m.miner@,
                            meta,
                        ))
                    })))
            }),
    {
        match outcome {
            Result::Ok((output, blake2b_checksum, len)) => {
                let ghost pre = self.m.state@;
                let ghost gout = output;
                let ghost gck = blake2b_checksum@;
                let rm = self.m.mark_seal_success(sector_id, output, blake2b_checksum, len);
                let ghost grm = rm;
                let r = match rm {
                    Result::Ok(meta) => Result::Ok(Option::Some(meta)),
                    Result::Err(e) => Result::Err(e),
                };
                proof {
                    if staged_contains(pre.staged, sector_id) {
                        let i = choose|i: int|
                            #![auto]
                            0 <= i < pre.staged.len() && pre.staged[i].sector_id == sector_id && (
                            if crate::metadata_manager::seal_output_mismatched(
                                pre.staged[i],
                                gout,
                            ) {
                                (grm matches Result::Err(e) && e@ is Unrecoverable)
                                    && self.m.state@ == pre
                            } else {
                                grm matches Result::Ok(meta)
                                    && crate::metadata_manager::seal_success_at(
                                    pre,
                                    self.m.state@,
                                    i,
                                    sector_id,
                                    gout,
                                    gck,
                                    len,
                                    self.m.miner@,
                                    meta,
                                )
                            });
                        assert(0 <= i < pre.staged.len() && pre.staged[i].sector_id == sector_id);
                    }
                }
                r
            },
            Result::Err(reason) => {
                match self.m.mark_seal_failure(sector_id, reason) {
                    Result::Ok(()) => Result::Ok(Option::None),
                    Result::Err(e) => Result::Err(e),
                }
            },
        }
    }

    /// Answers a status request; reads never mutate state.
    pub fn handle_get_seal_status(&self, sector_id: u64) -> (r: Result<
        SealStatus,
        SectorBuilderErr,
    >)
        requires
            self.inv(),
        ensures
            crate::metadata_manager::seal_status_post(self.m.state@, sector_id, r),
    {
        self.m.get_seal_status(sector_id)
    }

    /// Prepares the unseal job for a stored piece; the embedder runs it and
    /// reads the reconstructed bytes. Refused once shutdown has begun.
    pub fn handle_retrieve_piece(&mut self, piece_key: String) -> (r: Result<
        UnsealTaskPrototype,
        SectorBuilderErr,
    >)
        requires
            old(self).inv(),
        ensures
            *final(self) == *old(self),
            final(self).inv(),
            old(self).shutting_down ==> (r matches Result::Err(e) && e@ is Unrecoverable),
            !old(self).shutting_down ==> crate::metadata_manager::retrieve_post(
                old(self).m.state@,
                old(self).m.sector_store.sector_class,
                old(self).m.miner@,
                piece_key,
                r,
            ),
    {
        if self.shutting_down {
            return Result::Err(
                SectorBuilderErr::Unrecoverable(String::from_str("engine is shutting down")),
            );
        }
        self.m.create_retrieve_piece_task_proto(piece_key)
    }

    /// Lists sealed sectors, judging each file when asked to.
    pub fn handle_get_sealed_sectors(
        &self,
        check_health: PerformHealthCheck,
        observed: &Vec<Option<Vec<u8>>>,
    ) -> (r: Vec<GetSealedSectorResult>)
        requires
            self.inv(),
            check_health.0 ==> observed@.len() == self.m.state@.sealed.len(),
        ensures
            crate::metadata_manager::sealed_listing_post(
                self.m.state@,
                check_health.0,
                observed@,
                r@,
            ),
    {
        self.m.get_sealed_sectors(check_health.0, observed)
    }

    /// Lists staged sectors.
    pub fn handle_get_staged_sectors(&self) -> (r: Vec<StagedSectorMetadata>)
        requires
            self.inv(),
        ensures
            r@.len() == self.m.state@.staged.len(),
            forall|i: int| 0 <= i < r@.len() ==> (#[trigger] r@[i])@ == self.m.state@.staged[i],
    {
        self.m.get_staged_sectors()
    }

    /// Begins shutdown: every later request is refused, and the returned
    /// tasks tell the embedder to stop each of its `num_workers` workers
    /// after its current job.
    pub fn handle_shutdown(&mut self, num_workers: usize) -> (r: Vec<WorkerTask>)
        requires
            old(self).inv(),
        ensures
            final(self).inv(),
            final(self).m == old(self).m,
            final(self).shutting_down,
            r@.len() == num_workers,
            forall|i: int| 0 <= i < r@.len() ==> (#[trigger] r@[i]) is Shutdown,
    {
        self.shutting_down = true;
        let mut r: Vec<WorkerTask> = Vec::new();
        let mut i: usize = 0;
        while i < num_workers
            invariant
                0 <= i <= num_workers,
                r@.len() == i,
                forall|j: int| 0 <= j < i ==> (#[trigger] r@[j]) is Shutdown,
            decreases num_workers - i,
        {
            r.push(WorkerTask::Shutdown);
            i = i + 1;
        }
        r
    }
}

} // verus!
