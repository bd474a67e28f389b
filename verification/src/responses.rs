//! The flat codes a foreign-function boundary reports: response status,
//! seal-status and health codes, and the classification of engine errors
//! into them.

use vstd::prelude::*;
use crate::error::{SectorBuilderErr, SectorManagerErr};
use crate::metadata::{SealStatus, SealedSectorHealth};

verus! {

/// The sector configuration as a foreign caller hands it over.
#[derive(Debug, Clone, Copy, PartialEq, Eq, Structural)]
pub struct FFISectorClass {
    pub sector_size: u64,
    pub porep_proof_partitions: u8,
}

/// A sealed sector's health as a flat code.
#[derive(Debug, Clone, Copy, PartialEq, Eq, Structural)]
pub enum FFISealedSectorHealth {
    Unknown,
    Healthy,
    ErrorInvalidChecksum,
    ErrorInvalidLength,
    ErrorMissing,
}

/// How a call ended, from the caller's point of view.
#[derive(Debug, Clone, Copy, PartialEq, Eq, Structural)]
pub enum FCPResponseStatus {
    FCPNoError,
    FCPUnclassifiedError,
    FCPCallerError,
    FCPReceiverError,
}

/// Where a sector stands, as a flat code.
#[derive(Debug, Clone, Copy, PartialEq, Eq, Structural)]
pub enum FFISealStatus {
    Sealed,
    Pending,
    Failed,
    Sealing,
}

/// One spacetime-proof challenge: the challenged sector and leaf.
#[derive(Debug, Clone, Copy, PartialEq, Eq, Structural)]
pub struct FFIChallenge {
    pub sector: u64,
    pub leaf: u64,
}

/// What each health verdict maps to as a flat code.
pub open spec fn spec_health_code(h: SealedSectorHealth) -> FFISealedSectorHealth {
    match h {
        SealedSectorHealth::Healthy => FFISealedSectorHealth::Healthy,
        SealedSectorHealth::ErrorInvalidChecksum => FFISealedSectorHealth::ErrorInvalidChecksum,
        SealedSectorHealth::ErrorInvalidLength => FFISealedSectorHealth::ErrorInvalidLength,
        SealedSectorHealth::ErrorMissing => FFISealedSectorHealth::ErrorMissing,
    }
}

impl From<SealedSectorHealth> for FFISealedSectorHealth {
    fn from(status: SealedSectorHealth) -> (r: Self) {
        match status {
            SealedSectorHealth::Healthy => FFISealedSectorHealth::Healthy,
            SealedSectorHealth::ErrorInvalidChecksum => FFISealedSectorHealth::ErrorInvalidChecksum,
            SealedSectorHealth::ErrorInvalidLength => FFISealedSectorHealth::ErrorInvalidLength,
            SealedSectorHealth::ErrorMissing => FFISealedSectorHealth::ErrorMissing,
        }
    }
}

impl vstd::std_specs::convert::FromSpecImpl<SealedSectorHealth> for FFISealedSectorHealth {
    open spec fn obeys_from_spec() -> bool {
        true
    }

    open spec fn from_spec(v: SealedSectorHealth) -> Self {
        spec_health_code(v)
    }
}

/// The flat code a seal status reports: staged sectors that are not yet
/// dispatched are pending, dispatched ones sealing, and the rest carry
/// their terminal state.
pub fn seal_status_code(status: &SealStatus) -> (r: FFISealStatus)
    ensures
        r == (match status@ {
            crate::metadata::SealStatusView::Sealed(_) => FFISealStatus::Sealed,
            crate::metadata::SealStatusView::Sealing(_) => FFISealStatus::Sealing,
            crate::metadata::SealStatusView::Failed(_) => FFISealStatus::Failed,
            _ => FFISealStatus::Pending,
        }),
{
    match status {
        SealStatus::Sealed(_) => FFISealStatus::Sealed,
        SealStatus::Sealing(_) => FFISealStatus::Sealing,
        SealStatus::Failed(_) => FFISealStatus::Failed,
        _ => FFISealStatus::Pending,
    }
}

/// The response status an engine error is reported under, with its text:
/// invalid inputs are caller errors, internal failures receiver errors.
pub fn err_code_and_msg(err: &SectorBuilderErr) -> (r: (FCPResponseStatus, String))
    ensures
        r.0 == (match err@ {
            crate::error::SectorBuilderErrView::OverflowError {
                ..
            } => FCPResponseStatus::FCPCallerError,
            crate::error::SectorBuilderErrView::IncompleteWriteError {
                ..
            } => FCPResponseStatus::FCPReceiverError,
            crate::error::SectorBuilderErrView::Unrecoverable(_) => FCPResponseStatus::FCPReceiverError,
            crate::error::SectorBuilderErrView::PieceNotFound(_) => FCPResponseStatus::FCPCallerError,
            crate::error::SectorBuilderErrView::SectorNotFound(_) => FCPResponseStatus::FCPCallerError,
            crate::error::SectorBuilderErrView::FullyStaged => FCPResponseStatus::FCPCallerError,
        }),
{
    let code = match err {
        SectorBuilderErr::OverflowError { .. } => FCPResponseStatus::FCPCallerError,
        SectorBuilderErr::IncompleteWriteError { .. } => FCPResponseStatus::FCPReceiverError,
        SectorBuilderErr::Unrecoverable(_) => FCPResponseStatus::FCPReceiverError,
        SectorBuilderErr::PieceNotFound(_) => FCPResponseStatus::FCPCallerError,
        SectorBuilderErr::SectorNotFound(_) => FCPResponseStatus::FCPCallerError,
        SectorBuilderErr::FullyStaged => FCPResponseStatus::FCPCallerError,
    };
    (code, err.message())
}

/// The response status a sector-store error is reported under.
pub fn manager_err_code(err: &SectorManagerErr) -> (r: FCPResponseStatus)
    ensures
        r == (match err {
            SectorManagerErr::UnclassifiedError(_) => FCPResponseStatus::FCPUnclassifiedError,
            SectorManagerErr::CallerError(_) => FCPResponseStatus::FCPCallerError,
            SectorManagerErr::ReceiverError(_) => FCPResponseStatus::FCPReceiverError,
        }),
{
    match err {
        SectorManagerErr::UnclassifiedError(_) => FCPResponseStatus::FCPUnclassifiedError,
        SectorManagerErr::CallerError(_) => FCPResponseStatus::FCPCallerError,
        SectorManagerErr::ReceiverError(_) => FCPResponseStatus::FCPReceiverError,
    }
}

/// Converts a foreign sector-class description into the engine's own.
pub fn from_ffi_sector_class(fsc: FFISectorClass) -> (r: crate::metadata::SectorClass)
    ensures
        r.sector_size == fsc.sector_size,
        r.porep_proof_partitions == fsc.porep_proof_partitions,
{
    crate::metadata::SectorClass {
        sector_size: fsc.sector_size,
        porep_proof_partitions: fsc.porep_proof_partitions,
    }
}

} // verus!
