//! Synchronous disk backend for a virtual block device.
//!
//! The backend decides and never touches the file itself. An operation is
//! submitted to the engine, which answers with the system call that is due;
//! a driver makes the call and hands its return value back; the engine says
//! which call comes next, or queues the completion. What the engine decides
//! is stated in its contracts and proved.

pub mod align;
pub mod completion;
pub mod error;
pub mod file_model;
pub mod frame;
pub mod iovec;
pub mod raw_sync;
pub mod submission;
pub mod topology;

pub use error::{AsyncIoError, DiskFileError};
pub use frame::Frame;
pub use iovec::{IoVec, Scratch, Segment};
pub use raw_sync::{RawFileDiskSync, RawFileSync};
pub use submission::{Operation, Request, Stage, Step, Submission};
pub use topology::DiskTopology;
