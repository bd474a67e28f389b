//! The error classes every caller-visible result carries.

use vstd::prelude::*;
use crate::text::u64_to_string;

verus! {

/// Errors raised by the engine itself.
#[derive(Debug, Clone, PartialEq, Eq)]
pub enum SectorBuilderErr {
    /// A piece larger than any sector can hold was submitted (caller error).
    OverflowError { num_bytes: u64, max: u64 },
    /// A piece write stopped short of the promised length (receiver error;
    /// fatal).
    IncompleteWriteError { num_bytes_written: u64, num_bytes_in_piece: u64 },
    /// The engine's own state can no longer be trusted; the process should
    /// exit (receiver error).
    Unrecoverable(String),
    /// No sealed sector holds a piece with the given key (caller error).
    PieceNotFound(String),
    /// No staged or sealed sector carries the given id (caller error).
    SectorNotFound(u64),
    /// Every staged-sector slot is taken and none of the open sectors can
    /// host the piece (caller error).
    FullyStaged,
}

/// Errors raised by the sector store an engine is built over.
#[derive(Debug, Clone, PartialEq, Eq)]
pub enum SectorManagerErr {
    UnclassifiedError(String),
    CallerError(String),
    ReceiverError(String),
}

impl SectorBuilderErr {
    /// Whether the engine's state may be inconsistent after this error, so
    /// that the process should exit rather than continue.
    pub fn is_unrecoverable(&self) -> (r: bool)
        ensures
            r == (self@ is Unrecoverable),
    {
        match self {
            SectorBuilderErr::Unrecoverable(_) => true,
            _ => false,
        }
    }

    /// A one-line description of the error.
    pub fn message(&self) -> (r: String)
    {
        match self {
            SectorBuilderErr::OverflowError { num_bytes, max } => {
                let mut s = String::from_str("piece of ");
                s.append(u64_to_string(*num_bytes).as_str());
                s.append(" bytes exceeds the maximum of ");
                s.append(u64_to_string(*max).as_str());
                s.append(" bytes per sector");
                s
            },
            SectorBuilderErr::IncompleteWriteError { num_bytes_written, num_bytes_in_piece } => {
                let mut s = String::from_str("wrote ");
                s.append(u64_to_string(*num_bytes_written).as_str());
                s.append(" of ");
                s.append(u64_to_string(*num_bytes_in_piece).as_str());
                s.append(" piece bytes");
                s
            },
            SectorBuilderErr::Unrecoverable(reason) => {
                let mut s = String::from_str("unrecoverable: ");
                s.append(reason.as_str());
                s
            },
            SectorBuilderErr::PieceNotFound(key) => {
                let mut s = String::from_str("no piece with key ");
                s.append(key.as_str());
                s.append(" found");
                s
            },
            SectorBuilderErr::SectorNotFound(id) => {
                let mut s = String::from_str("no sector with id ");
                s.append(u64_to_string(*id).as_str());
                s.append(" found");
                s
            },
            SectorBuilderErr::FullyStaged => {
                String::from_str("no more staged sectors may be created")
            },
        }
    }
}

#[verifier::ext_equal]
pub ghost enum SectorBuilderErrView {
    OverflowError { num_bytes: u64, max: u64 },
    IncompleteWriteError { num_bytes_written: u64, num_bytes_in_piece: u64 },
    Unrecoverable(Seq<char>),
    PieceNotFound(Seq<char>),
    SectorNotFound(u64),
    FullyStaged,
}

impl View for SectorBuilderErr {
    type V = SectorBuilderErrView;

    open spec fn view(&self) -> SectorBuilderErrView {
        match self {
            SectorBuilderErr::OverflowError { num_bytes, max } => SectorBuilderErrView::OverflowError {
                num_bytes: *num_bytes,
                max: *max,
            },
            SectorBuilderErr::IncompleteWriteError {
                num_bytes_written,
                num_bytes_in_piece,
            } => SectorBuilderErrView::IncompleteWriteError {
                num_bytes_written: *num_bytes_written,
                num_bytes_in_piece: *num_bytes_in_piece,
            },
            SectorBuilderErr::Unrecoverable(r) => SectorBuilderErrView::Unrecoverable(r@),
            SectorBuilderErr::PieceNotFound(k) => SectorBuilderErrView::PieceNotFound(k@),
            SectorBuilderErr::SectorNotFound(id) => SectorBuilderErrView::SectorNotFound(*id),
            SectorBuilderErr::FullyStaged => SectorBuilderErrView::FullyStaged,
        }
    }
}

/// Passes a result through unchanged. Unrecoverable errors are meant to be
/// reported on the way out; logging is the embedder's concern, through
/// [`SectorBuilderErr::is_unrecoverable`] and [`SectorBuilderErr::message`].
pub fn log_unrecov<T>(result: Result<T, SectorBuilderErr>) -> (r: Result<T, SectorBuilderErr>)
    ensures
        r == result,
{
    result
}

} // verus!
