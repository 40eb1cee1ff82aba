//! The filesystem adapter: what each callback of the virtual filesystem
//! answers.
//!
//! The adapter neither sends requests nor touches the disk. Where a
//! callback needs either, it hands the caller a step to perform and takes
//! the outcome back.

use crate::dir::{
    collect_flat, dir_entries, entry_views, enumerated, flat_objects, lemma_enumerated, object_views,
    page, refresh, root_or_default, DirEntry, FlatObject, FlatObjectView,
};
use crate::error::FsError;
use crate::inode::{root_attr, spec_root_attr, FileAttr, FileType, InodeTable, TableView, FIRST_INO, ROOT_INO};
use crate::r2client::parsers::list_bucket_objects_parser::ListBucketObjectsResult;
use crate::r2client::parsers::list_buckets_parser::ListAllMyBucketsResult;
use crate::r2client::sig::{header_pairs, signed_headers, SignError};
use crate::r2client::{host_of, object_url, objects_url, ClientError, R2Client, SignedRequest};
use crate::read::{
    cache_path_of, range_of, read_fails, read_range, ReadAction, ReadActionView, ReadEvent,
    ReadEventView, ReadState, ReadStateView,
};
use crate::utils::{instant_of, parse_system_time, Timestamp};
use vstd::prelude::*;

verus! {

/// For how many seconds the kernel may keep an answer before it asks again.
pub const TTL_SECS: u64 = 1;

/// The answer to a lookup: the attributes of the entry, for how long they
/// stay valid, and the generation of the inode.
#[derive(Clone, Copy, Debug, PartialEq, Eq, Structural)]
pub struct EntryReply {
    pub ttl_secs: u64,
    pub attr: FileAttr,
    pub generation: u64,
}

/// The answer to a request for attributes.
#[derive(Clone, Copy, Debug, PartialEq, Eq, Structural)]
pub struct AttrReply {
    pub ttl_secs: u64,
    pub attr: FileAttr,
}

/// The filesystem as a mathematical value.
pub ghost struct FsView {
    /// The account's identifier.
    pub account: Seq<char>,
    /// The identifier of the access key.
    pub access_key: Seq<char>,
    /// The secret of the access key.
    pub secret_key: Seq<char>,
    /// The bucket that is shown; empty until one was chosen.
    pub bucket: Seq<char>,
    /// The directory that holds the local copies.
    pub local_dir: Seq<char>,
    /// The inode table.
    pub table: TableView,
}

impl FsView {
    /// What a lookup of `name` below `parent` answers.
    pub open spec fn lookup(self, parent: u64, name: Seq<char>) -> Result<EntryReply, FsError> {
        if parent == ROOT_INO && self.table.ids.contains_key(name) {
            Ok(EntryReply { ttl_secs: TTL_SECS, attr: self.table.attrs[self.table.ids[name]], generation: 0 })
        } else {
            Err(FsError::NotFound)
        }
    }

    /// What a request for the attributes of `ino` answers.
    pub open spec fn getattr(self, ino: u64) -> Result<AttrReply, FsError> {
        if self.table.attrs.contains_key(ino) {
            Ok(AttrReply { ttl_secs: TTL_SECS, attr: self.table.attrs[ino] })
        } else {
            Err(FsError::NotFound)
        }
    }

    /// The headers of the signed request that fetches the object `key` of
    /// the bucket at the instant `now`, or why it cannot be signed.
    pub open spec fn object_headers(self, key: Seq<char>, now: Timestamp) -> Result<
        Seq<(Seq<char>, Seq<char>)>,
        SignError,
    > {
        signed_headers(
            host_of(self.account),
            object_url(self.account, self.bucket, key),
            self.access_key,
            self.secret_key,
            now,
        )
    }

    /// The headers of the signed request that lists the objects of the
    /// bucket at the instant `now`, or why it cannot be signed.
    pub open spec fn listing_headers(self, now: Timestamp) -> Result<
        Seq<(Seq<char>, Seq<char>)>,
        SignError,
    > {
        signed_headers(
            host_of(self.account),
            objects_url(self.account, self.bucket),
            self.access_key,
            self.secret_key,
            now,
        )
    }

    /// How a read of the inode `ino` begins: an inode without a name is
    /// not found; for any other, the caller is asked whether the local copy
    /// of the object exists.
    pub open spec fn read_start(self, ino: u64, offset: i64, size: u32) -> (
        ReadStateView,
        ReadActionView,
    ) {
        match self.table.key_of(ino) {
            None => read_fails(FsError::NotFound),
            Some(key) => (
                ReadStateView::Probing {
                    key,
                    path: cache_path_of(self.local_dir, key),
                    offset,
                    size,
                },
                ReadActionView::Probe { path: cache_path_of(self.local_dir, key) },
            ),
        }
    }

    /// How a read goes on after an event.
    ///
    /// A local copy that exists is loaded; one that is missing is fetched
    /// first, with a request signed at the instant of the event. After a
    /// fetch that succeeded the copy is loaded. The content that was loaded
    /// answers the read with the range that was asked for. A request that
    /// cannot be signed, a fetch or a load that failed, and an event that
    /// the state does not wait for end the read with an I/O error.
    pub open spec fn read_step(self, state: ReadStateView, event: ReadEventView) -> (
        ReadStateView,
        ReadActionView,
    ) {
        match (state, event) {
            (
                ReadStateView::Probing { key, path, offset, size },
                ReadEventView::Probed { present, now },
            ) => if present {
                (ReadStateView::Loading { offset, size }, ReadActionView::Load { path })
            } else {
                match self.object_headers(key, now) {
                    Ok(headers) => (
                        ReadStateView::Fetching { path, offset, size },
                        ReadActionView::Fetch {
                            url: object_url(self.account, self.bucket, key),
                            headers,
                            path,
                        },
                    ),
                    Err(_) => read_fails(FsError::Io),
                }
            },
            (ReadStateView::Fetching { path, offset, size }, ReadEventView::Fetched { outcome }) => {
                match outcome {
                    Ok(_) => (ReadStateView::Loading { offset, size }, ReadActionView::Load { path }),
                    Err(_) => read_fails(FsError::Io),
                }
            },
            (ReadStateView::Loading { offset, size }, ReadEventView::Loaded { content }) => {
                match content {
                    Some(bytes) => (
                        ReadStateView::Done,
                        ReadActionView::Reply { data: range_of(bytes, offset, size) },
                    ),
                    None => read_fails(FsError::Io),
                }
            },
            _ => read_fails(FsError::Io),
        }
    }

    /// The filesystem after the bucket `name` that was created at `created`
    /// was chosen: the bucket is shown, and the root takes its times from
    /// the bucket's creation.
    pub open spec fn with_bucket(self, name: Seq<char>, created: Timestamp) -> FsView {
        FsView { bucket: name, table: self.table.with_root(spec_root_attr(created)), ..self }
    }

    /// The filesystem after the bucket listing `listing` arrived at
    /// startup: the first bucket is chosen. `None` where the listing names
    /// no bucket or the creation time of the first is malformed.
    pub open spec fn with_buckets(self, listing: ListAllMyBucketsResult) -> Option<FsView> {
        if !listing.has_bucket() {
            None
        } else {
            match instant_of(listing.first_bucket().creation_date@) {
                None => None,
                Some(created) => Some(self.with_bucket(listing.first_bucket().name@, created)),
            }
        }
    }

    /// The filesystem after an enumeration of the top-level objects
    /// `objects`.
    pub open spec fn with_objects(self, objects: Seq<FlatObjectView>) -> FsView {
        FsView { table: enumerated(root_or_default(self.table), objects), ..self }
    }
}

/// What a read runs against: the files on the local disk by path, the
/// objects that the store serves by URL, the instant that the clock shows,
/// and the number of requests that were sent to the store.
pub ghost struct World {
    pub disk: Map<Seq<char>, Seq<u8>>,
    pub store: Map<Seq<char>, Seq<u8>>,
    pub now: Timestamp,
    pub downloads: nat,
}

impl World {
    /// What a faithful caller makes of an action: the world after it, and
    /// the event that it reports; no event where the action ends the read.
    ///
    /// A fetch counts as a request whatever comes of it. The store serves
    /// the objects it holds and refuses every other URL; the body of what
    /// it serves is written to the path in full.
    pub open spec fn perform(self, action: ReadActionView) -> (World, Option<ReadEventView>) {
        match action {
            ReadActionView::Probe { path } => (
                self,
                Some(ReadEventView::Probed { present: self.disk.contains_key(path), now: self.now }),
            ),
            ReadActionView::Fetch { url, headers, path } => if self.store.contains_key(url) {
                (
                    World {
                        disk: self.disk.insert(path, self.store[url]),
                        downloads: self.downloads + 1,
                        ..self
                    },
                    Some(ReadEventView::Fetched { outcome: Ok(()) }),
                )
            } else {
                (
                    World { downloads: self.downloads + 1, ..self },
                    Some(ReadEventView::Fetched { outcome: Err(ClientError::Storage(404)) }),
                )
            },
            ReadActionView::Load { path } => (
                self,
                Some(
                    ReadEventView::Loaded {
                        content: if self.disk.contains_key(path) {
                            Some(self.disk[path])
                        } else {
                            None
                        },
                    },
                ),
            ),
            ReadActionView::Reply { data } => (self, None),
            ReadActionView::Fail { error } => (self, None),
        }
    }
}

/// The world and the last action after a faithful caller has carried a
/// read on for at most `steps` further actions.
pub open spec fn run_read(
    fs: FsView,
    world: World,
    state: ReadStateView,
    action: ReadActionView,
    steps: nat,
) -> (World, ReadActionView)
    decreases steps,
{
    match world.perform(action).1 {
        None => (world, action),
        Some(event) => if steps == 0 {
            (world.perform(action).0, action)
        } else {
            run_read(
                fs,
                world.perform(action).0,
                fs.read_step(state, event).0,
                fs.read_step(state, event).1,
                (steps - 1) as nat,
            )
        },
    }
}

/// The world after a faithful caller has served a read, and the answer.
pub open spec fn serve_read(fs: FsView, world: World, ino: u64, offset: i64, size: u32) -> (
    World,
    ReadActionView,
) {
    run_read(fs, world, fs.read_start(ino, offset, size).0, fs.read_start(ino, offset, size).1, 3)
}

/// A read is answered after at most three actions and sends at most one
/// request to the store. Where it is answered with data, the data is the
/// range that was asked for of the local copy; a copy that was there
/// before is served without a request, and a copy that was missing costs
/// exactly one. A second read of the same inode then sends no request at
/// all: both reads together fetch the object once.
pub proof fn lemma_read_fetches_once(
    fs: FsView,
    world: World,
    ino: u64,
    offset: i64,
    size: u32,
    again_offset: i64,
    again_size: u32,
)
    ensures
        ({
            let first = serve_read(fs, world, ino, offset, size);
            let second = serve_read(fs, first.0, ino, again_offset, again_size);
            let path = cache_path_of(fs.local_dir, fs.table.key_of(ino)->0);
            &&& first.1 is Reply || first.1 is Fail
            &&& first.0.downloads <= world.downloads + 1
            &&& first.1 is Reply ==> {
                &&& fs.table.key_of(ino) is Some
                &&& first.0.disk.contains_key(path)
                &&& first.1 == (ReadActionView::Reply {
                    data: range_of(first.0.disk[path], offset, size),
                })
                &&& world.disk.contains_key(path) ==> first.0 == world
                &&& !world.disk.contains_key(path) ==> first.0.downloads == world.downloads + 1
                &&& second.0 == first.0
                &&& second.1 == (ReadActionView::Reply {
                    data: range_of(first.0.disk[path], again_offset, again_size),
                })
            }
        }),
{
    reveal_with_fuel(run_read, 4);
}

/// After an enumeration, a request for attributes finds exactly the inodes
/// that the listing of the root names, and reports for each the kind that
/// the listing gave it.
pub proof fn lemma_getattr_agrees_with_listing(
    fs: FsView,
    root: FileAttr,
    flat: Seq<FlatObjectView>,
)
    requires
        root.ino == ROOT_INO,
        root.kind == FileType::Directory,
        FIRST_INO + flat.len() <= u64::MAX,
        fs.table == enumerated(root, flat),
    ensures
        forall|ino: u64|
            fs.getattr(ino) is Ok ==> exists|p: int|
                0 <= p < dir_entries(flat).len() && (#[trigger] dir_entries(flat)[p]).ino == ino,
        forall|p: int|
            0 <= p < dir_entries(flat).len() ==> {
                &&& fs.getattr((#[trigger] dir_entries(flat)[p]).ino) is Ok
                &&& fs.getattr(dir_entries(flat)[p].ino)->Ok_0.attr.kind == dir_entries(
                    flat,
                )[p].kind
            },
{
    lemma_enumerated(root, flat);
    assert forall|ino: u64| fs.getattr(ino) is Ok implies exists|p: int|
        0 <= p < dir_entries(flat).len() && (#[trigger] dir_entries(flat)[p]).ino == ino by {
        if ino == ROOT_INO {
            assert(dir_entries(flat)[0].ino == ino);
        } else {
            assert(dir_entries(flat)[ino as int].ino == ino);
        }
    }
}

/// The filesystem: the client's credentials, the bucket that is shown, the
/// directory of the local copies, and the inode table.
pub struct R2FS {
    r2_client: R2Client,
    bucket: String,
    local_dir: String,
    table: InodeTable,
}

impl View for R2FS {
    type V = FsView;

    closed spec fn view(&self) -> FsView {
        FsView {
            account: self.r2_client.account_id(),
            access_key: self.r2_client.access_key(),
            secret_key: self.r2_client.secret_key(),
            bucket: self.bucket@,
            local_dir: self.local_dir@,
            table: self.table@,
        }
    }
}

impl R2FS {
    /// The invariant of the filesystem: its table is well formed.
    pub closed spec fn wf(&self) -> bool {
        self.table.wf()
    }

    /// A well-formed filesystem has a well-formed table.
    pub proof fn lemma_view_wf(&self)
        requires
            self.wf(),
        ensures
            self@.table.wf(),
    {
        self.table.lemma_view_wf();
    }

    /// A filesystem for the account with these credentials. No bucket is
    /// chosen yet and the table is empty; the local copies go to
    /// `/tmp/r2fs_local/`.
    pub fn new(cf_account_id: String, r2_access_key_id: String, r2_secret_access_key: String) -> (fs:
        R2FS)
        ensures
            fs.wf(),
            fs@ == (FsView {
                account: cf_account_id@,
                access_key: r2_access_key_id@,
                secret_key: r2_secret_access_key@,
                bucket: Seq::<char>::empty(),
                local_dir: "/tmp/r2fs_local/"@,
                table: TableView::empty(),
            }),
    {
        let r2_client = R2Client::new(cf_account_id, r2_access_key_id, r2_secret_access_key);
        R2FS {
            r2_client,
            bucket: String::new(),
            local_dir: String::from_str("/tmp/r2fs_local/"),
            table: InodeTable::new(),
        }
    }

    /// Takes the bucket listing that was fetched at startup: the bucket
    /// that it names first becomes the bucket that is shown, and the root
    /// directory gets its record, with all times at the bucket's creation.
    ///
    /// A listing without a bucket, or with a malformed creation time in its
    /// first bucket, is a parse error and changes nothing.
    pub fn init_bucket_dirs(&mut self, listing: &ListAllMyBucketsResult) -> (outcome: Result<
        (),
        FsError,
    >)
        requires
            old(self).wf(),
        ensures
            final(self).wf(),
            match old(self)@.with_buckets(*listing) {
                Some(after) => outcome == Ok::<(), FsError>(()) && final(self)@ == after,
                None => outcome == Err::<(), FsError>(FsError::Parse) && final(self)@ == old(
                    self,
                )@,
            },
    {
        if listing.buckets.bucket.len() == 0 {
            return Err(FsError::Parse);
        }
        let first = &listing.buckets.bucket[0];
        let created = match parse_system_time(first.creation_date.as_str()) {
            Some(created) => created,
            None => { return Err(FsError::Parse); },
        };
        self.choose_bucket(first.name.clone(), created);
        Ok(())
    }

    /// Shows the bucket `name`, and gives the root directory its record,
    /// with all times at `created`, the bucket's creation.
    pub fn choose_bucket(&mut self, name: String, created: Timestamp)
        requires
            old(self).wf(),
        ensures
            final(self).wf(),
            final(self)@ == old(self)@.with_bucket(name@, created),
    {
        self.bucket = name;
        self.table.set_root(root_attr(created));
    }

    /// Looks `name` up in the directory `parent`. Only the root is a
    /// directory, so every other parent has no entries; below the root the
    /// name is found exactly if the index of names holds it.
    pub fn lookup(&self, parent: u64, name: &str) -> (outcome: Result<EntryReply, FsError>)
        requires
            self.wf(),
        ensures
            outcome == self@.lookup(parent, name@),
            outcome == Err::<EntryReply, FsError>(FsError::NotFound) <==> !(parent == ROOT_INO
                && self@.table.ids.contains_key(name@)),
    {
        if parent != ROOT_INO {
            return Err(FsError::NotFound);
        }
        proof {
            self.table.lemma_view_wf();
        }
        match self.table.id_of(name) {
            Some(ino) => match self.table.attributes_of(ino) {
                Some(attr) => Ok(EntryReply { ttl_secs: TTL_SECS, attr, generation: 0 }),
                None => Err(FsError::NotFound),
            },
            None => Err(FsError::NotFound),
        }
    }

    /// The attributes of the inode `ino`.
    pub fn getattr(&self, ino: u64) -> (outcome: Result<AttrReply, FsError>)
        ensures
            outcome == self@.getattr(ino),
    {
        match self.table.attributes_of(ino) {
            Some(attr) => Ok(AttrReply { ttl_secs: TTL_SECS, attr }),
            None => Err(FsError::NotFound),
        }
    }

    /// Lists the root directory from the object listing `listing` of the
    /// bucket, and refreshes the inode table from it.
    ///
    /// Only the root can be listed. The times of the top-level objects are
    /// read first; a malformed time is a parse error. The listing is then
    /// made as `enumerate` makes it. A call that fails changes nothing.
    pub fn readdir(&mut self, ino: u64, offset: i64, listing: &ListBucketObjectsResult) -> (outcome:
        Result<Vec<DirEntry>, FsError>)
        requires
            old(self).wf(),
            listing.contents@.len() + 3 <= i64::MAX,
        ensures
            final(self).wf(),
            match outcome {
                Ok(entries) => {
                    &&& ino == ROOT_INO
                    &&& flat_objects(listing.contents@) is Some
                    &&& final(self)@ == old(self)@.with_objects(flat_objects(listing.contents@)->0)
                    &&& entry_views(entries@) == page(
                        dir_entries(flat_objects(listing.contents@)->0),
                        offset,
                    )
                },
                Err(e) => {
                    &&& final(self)@ == old(self)@
                    &&& e == if ino != ROOT_INO {
                        FsError::NotFound
                    } else {
                        FsError::Parse
                    }
                    &&& ino != ROOT_INO || flat_objects(listing.contents@) is None
                },
            },
    {
        if ino != ROOT_INO {
            return Err(FsError::NotFound);
        }
        match collect_flat(&listing.contents) {
            Some(objects) => Ok(self.enumerate(offset, &objects)),
            None => Err(FsError::Parse),
        }
    }

    /// Lists the root directory from the top-level objects `objects` of the
    /// bucket, and refreshes the inode table from them.
    ///
    /// The listing of the root is `.`, `..` and the objects in their order.
    /// The call delivers the listing from the position `offset` on, and
    /// each entry carries the offset at which a later call resumes after
    /// it.
    ///
    /// Whatever the offset, the table is rebuilt from all the objects: the
    /// root keeps its record (or gets one with its times at the epoch where
    /// it had none), every other record and every name is dropped, and the
    /// objects are registered in order, from the first free number.
    pub fn enumerate(&mut self, offset: i64, objects: &Vec<FlatObject>) -> (entries: Vec<DirEntry>)
        requires
            old(self).wf(),
            objects@.len() + 3 <= i64::MAX,
        ensures
            final(self).wf(),
            final(self)@ == old(self)@.with_objects(object_views(objects@)),
            entry_views(entries@) == page(dir_entries(object_views(objects@)), offset),
    {
        refresh(&mut self.table, objects, offset)
    }

    /// The client that signs the requests of this filesystem.
    pub fn client(&self) -> (client: &R2Client)
        ensures
            client.account_id() == self@.account,
            client.access_key() == self@.access_key,
            client.secret_key() == self@.secret_key,
    {
        &self.r2_client
    }

    /// Composes the request whose response a listing of the directory
    /// `ino` is made from, signed at the instant `now`.
    ///
    /// Only the root can be listed: for any other inode nothing is to be
    /// sent, and the answer is that it was not found. A request that cannot
    /// be signed is an I/O error.
    pub fn readdir_request(&self, ino: u64, now: &Timestamp) -> (outcome: Result<
        SignedRequest,
        FsError,
    >)
        ensures
            match outcome {
                Ok(request) => {
                    &&& ino == ROOT_INO
                    &&& request.url@ == objects_url(self@.account, self@.bucket)
                    &&& self@.listing_headers(*now) == Ok::<
                        Seq<(Seq<char>, Seq<char>)>,
                        SignError,
                    >(header_pairs(request.headers@))
                },
                Err(e) => if ino != ROOT_INO {
                    e == FsError::NotFound
                } else {
                    e == FsError::Io && self@.listing_headers(*now) is Err
                },
            },
    {
        if ino != ROOT_INO {
            return Err(FsError::NotFound);
        }
        match self.r2_client.list_bucket_objects(self.bucket.as_str(), now) {
            Ok(request) => Ok(request),
            Err(_) => Err(FsError::Io),
        }
    }

    /// Begins a read of `size` bytes at `offset` from the inode `ino`, and
    /// says what the caller is to do first.
    pub fn read(&self, ino: u64, offset: i64, size: u32) -> (next: (ReadState, ReadAction))
        requires
            self.wf(),
        ensures
            (next.0@, next.1@) == self@.read_start(ino, offset, size),
    {
        match self.table.key_of(ino) {
            None => (ReadState::Done, ReadAction::Fail { error: FsError::NotFound }),
            Some(key) => {
                let path = self.cache_path(key.as_str());
                let probe = path.clone();
                (ReadState::Probing { key, path, offset, size }, ReadAction::Probe { path: probe })
            },
        }
    }

    /// Takes the outcome of the last action of a read, and says what the
    /// caller is to do next. The read is over once the action is a reply
    /// or a failure.
    pub fn read_step(&self, state: ReadState, event: ReadEvent) -> (next: (ReadState, ReadAction))
        ensures
            (next.0@, next.1@) == self@.read_step(state@, event@),
    {
        match (state, event) {
            (ReadState::Probing { key, path, offset, size }, ReadEvent::Probed { present, now }) => {
                if present {
                    (ReadState::Loading { offset, size }, ReadAction::Load { path })
                } else {
                    match self.r2_client.get_object(self.bucket.as_str(), key.as_str(), &now) {
                        Ok(request) => {
                            let target = path.clone();
                            (
                                ReadState::Fetching { path, offset, size },
                                ReadAction::Fetch { request, path: target },
                            )
                        },
                        Err(_) => (ReadState::Done, ReadAction::Fail { error: FsError::Io }),
                    }
                }
            },
            (ReadState::Fetching { path, offset, size }, ReadEvent::Fetched { outcome }) => {
                match outcome {
                    Ok(_) => (ReadState::Loading { offset, size }, ReadAction::Load { path }),
                    Err(_) => (ReadState::Done, ReadAction::Fail { error: FsError::Io }),
                }
            },
            (ReadState::Loading { offset, size }, ReadEvent::Loaded { content }) => {
                match content {
                    Some(bytes) => {
                        let data = read_range(bytes.as_slice(), offset, size);
                        (ReadState::Done, ReadAction::Reply { data })
                    },
                    None => (ReadState::Done, ReadAction::Fail { error: FsError::Io }),
                }
            },
            _ => (ReadState::Done, ReadAction::Fail { error: FsError::Io }),
        }
    }

    /// The name of the bucket that is shown.
    pub fn bucket(&self) -> (name: &str)
        ensures
            name@ == self@.bucket,
    {
        self.bucket.as_str()
    }

    /// The path of the local copy of the object `key`.
    pub fn cache_path(&self, key: &str) -> (path: String)
        ensures
            path@ == cache_path_of(self@.local_dir, key@),
    {
        let mut path = self.local_dir.clone();
        path.append(key);
        path
    }
}

} // verus!
