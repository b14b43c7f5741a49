//! What a failed operation reports.

use vstd::prelude::*;

verus! {

/// Why a submission ended without a completion. Each kind carries the code
/// that the operating system gave for the failure.
#[derive(Clone, Copy, Debug, PartialEq, Eq, Structural)]
pub enum AsyncIoError {
    /// A read could not be carried out.
    ReadVectored(i32),
    /// A write, or one of the reads that prepare it, could not be carried out.
    WriteVectored(i32),
    /// The file could not be flushed to stable storage.
    Fsync(i32),
}

/// Why a question to the disk itself went unanswered.
#[derive(Clone, Copy, Debug, PartialEq, Eq, Structural)]
pub enum DiskFileError {
    /// The end of the file could not be found.
    Size(i32),
}

} // verus!
