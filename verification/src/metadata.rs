//! Metadata records for pieces, staged sectors and sealed sectors, together
//! with their mathematical views.

use vstd::prelude::*;
use crate::pieces;

verus! {

/// A moment in time, as whole seconds since the Unix epoch. Accepted with a
/// piece as its requested storage deadline; the engine records it but takes
/// no action on it.
#[derive(Debug, Clone, Copy, PartialEq, Eq, Structural)]
pub struct SecondsSinceEpoch(pub u64);

/// Chain-derived entropy bound into a seal. The same ticket reproduces or
/// verifies the same seal.
#[derive(Debug, Clone, PartialEq, Eq)]
pub struct SealTicket {
    /// Height of the block the ticket was drawn from.
    pub block_height: u64,
    /// The entropy itself; 32 bytes in every well-formed ticket.
    pub ticket_bytes: Vec<u8>,
}

#[verifier::ext_equal]
pub ghost struct SealTicketView {
    pub block_height: u64,
    pub ticket_bytes: Seq<u8>,
}

impl View for SealTicket {
    type V = SealTicketView;

    open spec fn view(&self) -> SealTicketView {
        SealTicketView { block_height: self.block_height, ticket_bytes: self.ticket_bytes@ }
    }
}

/// Persistent auxiliary commitments produced by a seal.
#[derive(Debug, Clone, PartialEq, Eq)]
pub struct PersistentAux {
    pub comm_c: Vec<u8>,
    pub comm_r_last: Vec<u8>,
}

#[verifier::ext_equal]
pub ghost struct PersistentAuxView {
    pub comm_c: Seq<u8>,
    pub comm_r_last: Seq<u8>,
}

impl View for PersistentAux {
    type V = PersistentAuxView;

    open spec fn view(&self) -> PersistentAuxView {
        PersistentAuxView { comm_c: self.comm_c@, comm_r_last: self.comm_r_last@ }
    }
}

/// One piece as recorded inside a sector. The two optional commitment fields
/// are absent while the sector is staged and present once it is sealed.
#[derive(Debug, Clone, PartialEq, Eq)]
pub struct PieceMetadata {
    /// Caller-chosen handle, unique per sealed sector.
    pub piece_key: String,
    /// Unpadded length of the piece in bytes.
    pub num_bytes: u64,
    /// Piece commitment, 32 bytes once present.
    pub comm_p: Option<Vec<u8>>,
    /// Proof that the piece is included in the sealed sector's data
    /// commitment.
    pub piece_inclusion_proof: Option<Vec<u8>>,
}

#[verifier::ext_equal]
pub ghost struct PieceMetadataView {
    pub piece_key: Seq<char>,
    pub num_bytes: u64,
    pub comm_p: Option<Seq<u8>>,
    pub piece_inclusion_proof: Option<Seq<u8>>,
}

impl View for PieceMetadata {
    type V = PieceMetadataView;

    open spec fn view(&self) -> PieceMetadataView {
        PieceMetadataView {
            piece_key: self.piece_key@,
            num_bytes: self.num_bytes,
            comm_p: match self.comm_p {
                Option::Some(ref c) => Option::Some(c@),
                Option::None => Option::None,
            },
            piece_inclusion_proof: match self.piece_inclusion_proof {
                Option::Some(ref p) => Option::Some(p@),
                Option::None => Option::None,
            },
        }
    }
}

/// A sealed sector: the replica produced from a staged sector, its
/// commitments, its proof, and what is needed to validate the file on disk.
#[derive(Debug, Clone, PartialEq, Eq)]
pub struct SealedSectorMetadata {
    pub sector_id: u64,
    /// Stable handle naming the sealed file.
    pub sector_access: String,
    /// The pieces of the sector, in on-disk order, with their commitments
    /// and inclusion proofs now present.
    pub pieces: Vec<PieceMetadata>,
    /// Replica commitment, 32 bytes.
    pub comm_r: Vec<u8>,
    /// Data commitment, 32 bytes.
    pub comm_d: Vec<u8>,
    pub p_aux: PersistentAux,
    /// Serialized SNARK proof of the seal.
    pub proof: Vec<u8>,
    /// BLAKE2b digest of the sealed file, 32 bytes.
    pub blake2b_checksum: Vec<u8>,
    /// Length of the sealed file in bytes.
    pub len: u64,
    /// The ticket the seal was bound to.
    pub seal_ticket: SealTicket,
}

#[verifier::ext_equal]
pub ghost struct SealedSectorMetadataView {
    pub sector_id: u64,
    pub sector_access: Seq<char>,
    pub pieces: Seq<PieceMetadataView>,
    pub comm_r: Seq<u8>,
    pub comm_d: Seq<u8>,
    pub p_aux: PersistentAuxView,
    pub proof: Seq<u8>,
    pub blake2b_checksum: Seq<u8>,
    pub len: u64,
    pub seal_ticket: SealTicketView,
}

impl SealedSectorMetadataView {
    /// The unpadded lengths of the sector's pieces, in placement order.
    pub open spec fn piece_lens(self) -> Seq<u64> {
        self.pieces.map_values(|p: PieceMetadataView| p.num_bytes)
    }

    /// The sector's fill under the placement rule.
    pub open spec fn used(self) -> int {
        pieces::spec_used(self.piece_lens())
    }
}

impl View for SealedSectorMetadata {
    type V = SealedSectorMetadataView;

    open spec fn view(&self) -> SealedSectorMetadataView {
        SealedSectorMetadataView {
            sector_id: self.sector_id,
            sector_access: self.sector_access@,
            pieces: self.pieces@.map_values(|p: PieceMetadata| p@),
            comm_r: self.comm_r@,
            comm_d: self.comm_d@,
            p_aux: self.p_aux@,
            proof: self.proof@,
            blake2b_checksum: self.blake2b_checksum@,
            len: self.len,
            seal_ticket: self.seal_ticket@,
        }
    }
}

/// Where a sector stands in the seal state machine.
#[derive(Debug, Clone, PartialEq, Eq)]
pub enum SealStatus {
    /// Staged and open: the packer may place further pieces in it.
    AcceptingData,
    /// Staged and full: no further piece fits, not yet picked for sealing.
    FullyPacked,
    /// Picked for sealing; a seal job may be dispatched for it.
    ReadyForSealing,
    /// Dispatch suspended at an operator's request.
    Paused,
    /// A seal job bound to the given ticket is in flight.
    Sealing(SealTicket),
    /// Sealing finished; the sector now lives in the sealed map.
    Sealed(Box<SealedSectorMetadata>),
    /// Sealing failed with the given reason; the engine never retries on
    /// its own.
    Failed(String),
}

#[verifier::ext_equal]
pub ghost enum SealStatusView {
    AcceptingData,
    FullyPacked,
    ReadyForSealing,
    Paused,
    Sealing(SealTicketView),
    Sealed(SealedSectorMetadataView),
    Failed(Seq<char>),
}

impl View for SealStatus {
    type V = SealStatusView;

    open spec fn view(&self) -> SealStatusView {
        match self {
            SealStatus::AcceptingData => SealStatusView::AcceptingData,
            SealStatus::FullyPacked => SealStatusView::FullyPacked,
            SealStatus::ReadyForSealing => SealStatusView::ReadyForSealing,
            SealStatus::Paused => SealStatusView::Paused,
            SealStatus::Sealing(t) => SealStatusView::Sealing(t@),
            SealStatus::Sealed(m) => SealStatusView::Sealed((**m)@),
            SealStatus::Failed(r) => SealStatusView::Failed(r@),
        }
    }
}

impl SealStatusView {
    /// An open sector still counts against the cap on simultaneously staged
    /// sectors: it is accepting data or full but not yet picked for sealing.
    pub open spec fn is_open(self) -> bool {
        self is AcceptingData || self is FullyPacked
    }
}

impl SealStatus {
    /// Whether a sector with this status still counts against the cap on
    /// simultaneously staged sectors.
    pub fn is_open(&self) -> (r: bool)
        ensures
            r == self@.is_open(),
    {
        match self {
            SealStatus::AcceptingData => true,
            SealStatus::FullyPacked => true,
            _ => false,
        }
    }
}

/// A staged sector: a container that is still gaining pieces or waiting for
/// its seal to finish.
#[derive(Debug, Clone, PartialEq, Eq)]
pub struct StagedSectorMetadata {
    pub sector_id: u64,
    /// Stable handle naming the staged file.
    pub sector_access: String,
    /// Pieces in on-disk order.
    pub pieces: Vec<PieceMetadata>,
    pub seal_status: SealStatus,
}

#[verifier::ext_equal]
pub ghost struct StagedSectorMetadataView {
    pub sector_id: u64,
    pub sector_access: Seq<char>,
    pub pieces: Seq<PieceMetadataView>,
    pub seal_status: SealStatusView,
}

impl View for StagedSectorMetadata {
    type V = StagedSectorMetadataView;

    open spec fn view(&self) -> StagedSectorMetadataView {
        StagedSectorMetadataView {
            sector_id: self.sector_id,
            sector_access: self.sector_access@,
            pieces: self.pieces@.map_values(|p: PieceMetadata| p@),
            seal_status: self.seal_status@,
        }
    }
}

impl StagedSectorMetadataView {
    /// The unpadded lengths of the sector's pieces, in placement order.
    pub open spec fn piece_lens(self) -> Seq<u64> {
        self.pieces.map_values(|p: PieceMetadataView| p.num_bytes)
    }

    /// The sector's fill under the placement rule.
    pub open spec fn used(self) -> int {
        pieces::spec_used(self.piece_lens())
    }

    /// A staged sector never exceeds its capacity, and never carries the
    /// status of a sealed sector.
    pub open spec fn wf(self, max_bytes: u64) -> bool {
        &&& self.used() <= max_bytes
        &&& !(self.seal_status is Sealed)
    }
}

/// A copy of a byte string.
pub fn copy_bytes(v: &Vec<u8>) -> (r: Vec<u8>)
    ensures
        r@ == v@,
{
    vstd::slice::slice_to_vec(v.as_slice())
}

/// A copy of an optional byte string.
pub fn copy_opt_bytes(v: &Option<Vec<u8>>) -> (r: Option<Vec<u8>>)
    ensures
        match v {
            Option::Some(b) => r matches Option::Some(b2) && b2@ == b@,
            Option::None => r is None,
        },
{
    match v {
        Option::Some(b) => Option::Some(copy_bytes(b)),
        Option::None => Option::None,
    }
}

impl SealTicket {
    /// A copy whose view equals this ticket's view.
    pub fn duplicate(&self) -> (r: Self)
        ensures
            r@ == self@,
    {
        SealTicket { block_height: self.block_height, ticket_bytes: copy_bytes(&self.ticket_bytes) }
    }
}

impl PersistentAux {
    /// A copy whose view equals this record's view.
    pub fn duplicate(&self) -> (r: Self)
        ensures
            r@ == self@,
    {
        PersistentAux {
            comm_c: copy_bytes(&self.comm_c),
            comm_r_last: copy_bytes(&self.comm_r_last),
        }
    }
}

impl PieceMetadata {
    /// A copy whose view equals this record's view.
    pub fn duplicate(&self) -> (r: Self)
        ensures
            r@ == self@,
    {
        let r = PieceMetadata {
            piece_key: self.piece_key.clone(),
            num_bytes: self.num_bytes,
            comm_p: copy_opt_bytes(&self.comm_p),
            piece_inclusion_proof: copy_opt_bytes(&self.piece_inclusion_proof),
        };
        proof {
            assert(r@ =~= self@);
        }
        r
    }
}

/// A copy of a piece list whose views match elementwise.
pub fn copy_pieces(ps: &Vec<PieceMetadata>) -> (r: Vec<PieceMetadata>)
    ensures
        r@.map_values(|p: PieceMetadata| p@) == ps@.map_values(|p: PieceMetadata| p@),
{
    let mut r: Vec<PieceMetadata> = Vec::new();
    let mut i: usize = 0;
    while i < ps.len()
        invariant
            0 <= i <= ps@.len(),
            r@.len() == i,
            forall|j: int| 0 <= j < i ==> (#[trigger] r@[j])@ == ps@[j]@,
        decreases ps@.len() - i,
    {
        r.push(ps[i].duplicate());
        i = i + 1;
    }
    proof {
        assert(r@.map_values(|p: PieceMetadata| p@) =~= ps@.map_values(|p: PieceMetadata| p@));
    }
    r
}

impl SealedSectorMetadata {
    /// A copy whose view equals this record's view.
    pub fn duplicate(&self) -> (r: Self)
        ensures
            r@ == self@,
    {
        let r = SealedSectorMetadata {
            sector_id: self.sector_id,
            sector_access: self.sector_access.clone(),
            pieces: copy_pieces(&self.pieces),
            comm_r: copy_bytes(&self.comm_r),
            comm_d: copy_bytes(&self.comm_d),
            p_aux: self.p_aux.duplicate(),
            proof: copy_bytes(&self.proof),
            blake2b_checksum: copy_bytes(&self.blake2b_checksum),
            len: self.len,
            seal_ticket: self.seal_ticket.duplicate(),
        };
        proof {
            assert(r@ =~= self@);
        }
        r
    }
}

impl SealStatus {
    /// A copy whose view equals this status's view.
    pub fn duplicate(&self) -> (r: Self)
        ensures
            r@ == self@,
    {
        match self {
            SealStatus::AcceptingData => SealStatus::AcceptingData,
            SealStatus::FullyPacked => SealStatus::FullyPacked,
            SealStatus::ReadyForSealing => SealStatus::ReadyForSealing,
            SealStatus::Paused => SealStatus::Paused,
            SealStatus::Sealing(t) => SealStatus::Sealing(t.duplicate()),
            SealStatus::Sealed(m) => SealStatus::Sealed(Box::new((**m).duplicate())),
            SealStatus::Failed(r) => SealStatus::Failed(r.clone()),
        }
    }
}

impl StagedSectorMetadata {
    /// A copy whose view equals this record's view.
    pub fn duplicate(&self) -> (r: Self)
        ensures
            r@ == self@,
    {
        let r = StagedSectorMetadata {
            sector_id: self.sector_id,
            sector_access: self.sector_access.clone(),
            pieces: copy_pieces(&self.pieces),
            seal_status: self.seal_status.duplicate(),
        };
        proof {
            assert(r@ =~= self@);
        }
        r
    }
}

/// The health of a sealed sector's file on disk, as judged against the
/// recorded checksum and length.
#[derive(Debug, Clone, Copy, PartialEq, Eq, Structural)]
pub enum SealedSectorHealth {
    Healthy,
    ErrorInvalidChecksum,
    ErrorInvalidLength,
    ErrorMissing,
}

/// One sealed sector as reported to a caller, with its health when the
/// caller asked for the files to be checked.
#[derive(Debug, Clone, PartialEq, Eq)]
pub enum GetSealedSectorResult {
    WithHealth(SealedSectorHealth, SealedSectorMetadata),
    WithoutHealth(SealedSectorMetadata),
}

impl GetSealedSectorResult {
    pub open spec fn meta(&self) -> SealedSectorMetadataView {
        match self {
            GetSealedSectorResult::WithHealth(_, m) => m@,
            GetSealedSectorResult::WithoutHealth(m) => m@,
        }
    }
}

/// The configuration a sector builder is constructed for: how large its
/// sectors are and how many SNARK partitions a seal proof uses.
#[derive(Debug, Clone, Copy, PartialEq, Eq, Structural)]
pub struct SectorClass {
    pub sector_size: u64,
    pub porep_proof_partitions: u8,
}

} // verus!
