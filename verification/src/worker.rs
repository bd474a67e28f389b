//! What the engine hands a worker: everything a seal or unseal job needs,
//! as plain values, and the record a finished seal reports back.

use vstd::prelude::*;
use crate::metadata::{PersistentAux, SealTicket, SectorClass};

verus! {

/// Everything a worker needs to run one seal job. The accesses name the
/// staged file to consume and the sealed file to produce.
#[derive(Debug, Clone, PartialEq, Eq)]
pub struct SealTaskPrototype {
    pub sector_id: u64,
    pub sector_class: SectorClass,
    pub seal_ticket: SealTicket,
    pub sealed_sector_access: String,
    pub staged_sector_access: String,
    pub piece_lens: Vec<u64>,
}

/// Everything a worker needs to reconstruct one piece's bytes from a sealed
/// sector into a scratch file.
#[derive(Debug, Clone, PartialEq, Eq)]
pub struct UnsealTaskPrototype {
    pub comm_d: Vec<u8>,
    pub sector_class: SectorClass,
    pub source_access: String,
    pub destination_access: String,
    pub sector_id: u64,
    pub piece_start_byte: u64,
    pub piece_len: u64,
    pub seal_ticket: SealTicket,
}

/// What a successful seal reports: the replica and data commitments, the
/// auxiliary commitments, the SNARK proof, and one piece commitment and
/// inclusion proof per piece in placement order.
#[derive(Debug, Clone, PartialEq, Eq)]
pub struct SealOutput {
    pub comm_r: Vec<u8>,
    pub comm_d: Vec<u8>,
    pub p_aux: PersistentAux,
    pub proof: Vec<u8>,
    pub comm_ps: Vec<Vec<u8>>,
    pub piece_inclusion_proofs: Vec<Vec<u8>>,
}

/// One replica as handed to the spacetime prover: the file it lives in,
/// its replica commitment, its persistent auxiliary commitments, and
/// whether it is declared faulty.
#[derive(Debug, Clone, PartialEq, Eq)]
pub struct ReplicaInfo {
    pub sector_id: u64,
    pub sector_access: String,
    pub comm_r: Vec<u8>,
    pub p_aux: PersistentAux,
    pub is_faulty: bool,
}

/// One entry of the worker queue.
#[derive(Debug, Clone, PartialEq, Eq)]
pub enum WorkerTask {
    Seal(SealTaskPrototype),
    Unseal(UnsealTaskPrototype),
    /// Makes the worker exit once its current job is done.
    Shutdown,
}

} // verus!
