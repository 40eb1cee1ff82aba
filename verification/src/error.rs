//! The failures of a callback, and the codes that stand for them towards
//! the kernel.

use crate::r2client::ClientError;
use vstd::prelude::*;

verus! {

/// Why a callback failed.
#[derive(Clone, Copy, Debug, PartialEq, Eq, Structural)]
pub enum FsError {
    /// The inode number or the name is unknown.
    NotFound,
    /// The store refused or the exchange broke off, or the local copy of an
    /// object could not be written or read.
    Io,
    /// A response of the store does not follow its schema.
    Parse,
}

/// The error codes that reach the kernel.
#[derive(Clone, Copy, Debug, PartialEq, Eq, Structural)]
pub enum ReplyCode {
    /// No such entry.
    NoEntry,
    /// Input/output error.
    IoError,
}

impl FsError {
    /// The code that stands for an error towards the kernel.
    pub open spec fn spec_reply_code(self) -> ReplyCode {
        match self {
            FsError::NotFound => ReplyCode::NoEntry,
            FsError::Io => ReplyCode::IoError,
            FsError::Parse => ReplyCode::IoError,
        }
    }

    /// The code that stands for an error towards the kernel: an unknown
    /// inode or name is "no such entry", everything else an I/O error.
    #[verifier::when_used_as_spec(spec_reply_code)]
    pub fn reply_code(self) -> (code: ReplyCode)
        ensures
            code == self.spec_reply_code(),
    {
        match self {
            FsError::NotFound => ReplyCode::NoEntry,
            FsError::Io => ReplyCode::IoError,
            FsError::Parse => ReplyCode::IoError,
        }
    }

    /// The error of a callback whose exchange with the store failed.
    pub open spec fn spec_from_client(e: ClientError) -> FsError {
        match e {
            ClientError::Parse => FsError::Parse,
            _ => FsError::Io,
        }
    }

    /// The error of a callback whose exchange with the store failed: a
    /// malformed response stays a parse error, every other failure is
    /// reported as an I/O error.
    #[verifier::when_used_as_spec(spec_from_client)]
    pub fn from_client(e: ClientError) -> (error: FsError)
        ensures
            error == FsError::spec_from_client(e),
    {
        match e {
            ClientError::Parse => FsError::Parse,
            _ => FsError::Io,
        }
    }
}

} // verus!
