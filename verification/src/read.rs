//! Reads: the range of a file that a read returns, and the steps by which
//! a read is served from the local copy of an object.

use crate::error::FsError;
use crate::r2client::sig::header_pairs;
use crate::r2client::{ClientError, SignedRequest};
use crate::utils::Timestamp;
use vstd::prelude::*;
use vstd::slice::{slice_subrange, slice_to_vec};

verus! {

/// The bytes of `content` that a read at `offset` for `size` bytes returns:
/// nothing where the offset lies at or beyond the end (or before the
/// start), else the bytes from the offset up to `size` of them, as far as
/// the content reaches.
pub open spec fn range_of(content: Seq<u8>, offset: i64, size: u32) -> Seq<u8> {
    if offset < 0 || offset >= content.len() {
        Seq::empty()
    } else if offset + size <= content.len() {
        content.subrange(offset as int, offset + size)
    } else {
        content.subrange(offset as int, content.len() as int)
    }
}

/// A read returns nothing at or beyond the end of the content; before the
/// end it returns the bytes at the offset, `size` of them or as many as are
/// left, whichever is less.
pub proof fn lemma_range_of(content: Seq<u8>, offset: i64, size: u32)
    requires
        offset >= 0,
    ensures
        offset >= content.len() ==> range_of(content, offset, size).len() == 0,
        offset < content.len() ==> {
            &&& range_of(content, offset, size).len() == if size <= content.len() - offset {
                size as int
            } else {
                content.len() - offset
            }
            &&& forall|i: int|
                0 <= i < range_of(content, offset, size).len() ==> range_of(
                    content,
                    offset,
                    size,
                )[i] == content[offset + i]
        },
{
}

/// Cuts the bytes that a read at `offset` for `size` bytes returns out of
/// the content of a file.
pub fn read_range(content: &[u8], offset: i64, size: u32) -> (data: Vec<u8>)
    ensures
        data@ == range_of(content@, offset, size),
{
    if offset < 0 {
        return Vec::new();
    }
    let len: usize = content.len();
    if offset as u64 >= len as u64 {
        return Vec::new();
    }
    let start: usize = offset as usize;
    let left: usize = len - start;
    let end: usize = if (size as usize) <= left {
        start + size as usize
    } else {
        len
    };
    slice_to_vec(slice_subrange(content, start, end))
}

/// The path of the local copy of an object: the cache directory followed by
/// the key, as it stands.
pub open spec fn cache_path_of(local_dir: Seq<char>, key: Seq<char>) -> Seq<char> {
    local_dir + key
}

/// Where the answer to a read stands.
#[derive(Debug)]
pub enum ReadState {
    /// It waits to hear whether the local copy at `path` exists.
    Probing { key: String, path: String, offset: i64, size: u32 },
    /// It waits for the object to arrive at `path`.
    Fetching { path: String, offset: i64, size: u32 },
    /// It waits for the content of the local copy.
    Loading { offset: i64, size: u32 },
    /// The read was answered.
    Done,
}

/// What the caller is to do next for a read.
#[derive(Debug)]
pub enum ReadAction {
    /// Find out whether a file exists at `path`.
    Probe { path: String },
    /// Send `request` and write the body of a successful response to
    /// `path`.
    Fetch { request: SignedRequest, path: String },
    /// Read the whole file at `path`.
    Load { path: String },
    /// Answer the read with `data`.
    Reply { data: Vec<u8> },
    /// Answer the read with `error`.
    Fail { error: FsError },
}

/// What came of the last action.
#[derive(Debug)]
pub enum ReadEvent {
    /// Whether the file exists, and the instant at which a request that
    /// fetches it would be signed.
    Probed { present: bool, now: Timestamp },
    /// Whether the object arrived and was written out.
    Fetched { outcome: Result<(), ClientError> },
    /// The content of the file, or `None` where it could not be read.
    Loaded { content: Option<Vec<u8>> },
}

/// The state of a read as a mathematical value.
pub ghost enum ReadStateView {
    Probing { key: Seq<char>, path: Seq<char>, offset: i64, size: u32 },
    Fetching { path: Seq<char>, offset: i64, size: u32 },
    Loading { offset: i64, size: u32 },
    Done,
}

/// An action of a read as a mathematical value.
pub ghost enum ReadActionView {
    Probe { path: Seq<char> },
    Fetch { url: Seq<char>, headers: Seq<(Seq<char>, Seq<char>)>, path: Seq<char> },
    Load { path: Seq<char> },
    Reply { data: Seq<u8> },
    Fail { error: FsError },
}

/// An event of a read as a mathematical value.
pub ghost enum ReadEventView {
    Probed { present: bool, now: Timestamp },
    Fetched { outcome: Result<(), ClientError> },
    Loaded { content: Option<Seq<u8>> },
}

impl View for ReadState {
    type V = ReadStateView;

    open spec fn view(&self) -> ReadStateView {
        match self {
            ReadState::Probing { key, path, offset, size } => ReadStateView::Probing {
                key: key@,
                path: path@,
                offset: *offset,
                size: *size,
            },
            ReadState::Fetching { path, offset, size } => ReadStateView::Fetching {
                path: path@,
                offset: *offset,
                size: *size,
            },
            ReadState::Loading { offset, size } => ReadStateView::Loading {
                offset: *offset,
                size: *size,
            },
            ReadState::Done => ReadStateView::Done,
        }
    }
}

impl View for ReadAction {
    type V = ReadActionView;

    open spec fn view(&self) -> ReadActionView {
        match self {
            ReadAction::Probe { path } => ReadActionView::Probe { path: path@ },
            ReadAction::Fetch { request, path } => ReadActionView::Fetch {
                url: request.url@,
                headers: header_pairs(request.headers@),
                path: path@,
            },
            ReadAction::Load { path } => ReadActionView::Load { path: path@ },
            ReadAction::Reply { data } => ReadActionView::Reply { data: data@ },
            ReadAction::Fail { error } => ReadActionView::Fail { error: *error },
        }
    }
}

impl View for ReadEvent {
    type V = ReadEventView;

    open spec fn view(&self) -> ReadEventView {
        match self {
            ReadEvent::Probed { present, now } => ReadEventView::Probed {
                present: *present,
                now: *now,
            },
            ReadEvent::Fetched { outcome } => ReadEventView::Fetched { outcome: *outcome },
            ReadEvent::Loaded { content } => ReadEventView::Loaded {
                content: match content {
                    Some(bytes) => Some(bytes@),
                    None => None,
                },
            },
        }
    }
}

/// The answer that ends a read without a further step.
pub open spec fn read_fails(error: FsError) -> (ReadStateView, ReadActionView) {
    (ReadStateView::Done, ReadActionView::Fail { error })
}

} // verus!
