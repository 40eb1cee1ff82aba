use r2fs::dir::{collect_flat, DirEntry, FlatObject};
use r2fs::error::{FsError, ReplyCode};
use r2fs::fs::{AttrReply, EntryReply, R2FS, TTL_SECS};
use r2fs::inode::{file_attr, root_attr, FileType, ROOT_INO};
use r2fs::read::{read_range, ReadAction, ReadEvent, ReadState};
use r2fs::r2client::parsers::list_bucket_objects_parser::{Content, ListBucketObjectsResult};
use r2fs::r2client::parsers::list_buckets_parser::{
    Bucket, Buckets, ListAllMyBucketsResult, Owner,
};
use r2fs::r2client::ClientError;
use r2fs::utils::Timestamp;
use std::collections::HashMap;

const NEW_YEAR: &str = "2024-01-01T00:00:00Z";

fn at(secs: i64) -> Timestamp {
    Timestamp { secs, nanos: 0 }
}

fn new_fs() -> R2FS {
    R2FS::new("acct".to_string(), "test-access".to_string(), "test-secret".to_string())
}

fn buckets(list: &[(&str, &str)]) -> ListAllMyBucketsResult {
    ListAllMyBucketsResult {
        buckets: Buckets {
            bucket: list
                .iter()
                .map(|(name, created)| Bucket {
                    creation_date: created.to_string(),
                    name: name.to_string(),
                })
                .collect(),
        },
        owner: Owner { display_name: "owner".to_string(), id: "1".to_string() },
    }
}

fn object(key: &str, size: i64, modified: &str) -> Content {
    Content {
        key: key.to_string(),
        size,
        last_modified: modified.to_string(),
        etag: "\"etag\"".to_string(),
        storage_class: "STANDARD".to_string(),
    }
}

fn listing(contents: Vec<Content>) -> ListBucketObjectsResult {
    let count = contents.len() as i32;
    ListBucketObjectsResult {
        name: "demo".to_string(),
        contents,
        is_truncated: false,
        max_keys: 1000,
        key_count: count,
    }
}

fn demo_fs() -> R2FS {
    let mut fs = new_fs();
    fs.init_bucket_dirs(&buckets(&[("demo", "2023-05-17T12:34:56Z")])).unwrap();
    fs
}

fn demo_listing() -> ListBucketObjectsResult {
    listing(vec![object("a.txt", 12, NEW_YEAR), object("nested/b.txt", 5, NEW_YEAR)])
}

fn shape(entries: &[DirEntry]) -> Vec<(u64, i64, FileType, String)> {
    entries.iter().map(|e| (e.ino, e.offset, e.kind, e.name.clone())).collect()
}

fn dir(offset: i64, name: &str) -> (u64, i64, FileType, String) {
    (ROOT_INO, offset, FileType::Directory, name.to_string())
}

fn file(ino: u64, offset: i64, name: &str) -> (u64, i64, FileType, String) {
    (ino, offset, FileType::RegularFile, name.to_string())
}

#[test]
fn a_new_filesystem_shows_nothing() {
    let fs = new_fs();
    assert_eq!(fs.bucket(), "");
    assert_eq!(fs.getattr(ROOT_INO), Err(FsError::NotFound));
    assert_eq!(fs.lookup(ROOT_INO, "."), Err(FsError::NotFound));
    assert_eq!(fs.cache_path("a.txt"), "/tmp/r2fs_local/a.txt");
}

#[test]
fn startup_shows_the_first_bucket() {
    let mut fs = new_fs();
    let outcome = fs.init_bucket_dirs(&buckets(&[
        ("demo", "2023-05-17T12:34:56Z"),
        ("other", NEW_YEAR),
    ]));
    assert_eq!(outcome, Ok(()));
    assert_eq!(fs.bucket(), "demo");
    assert_eq!(
        fs.getattr(ROOT_INO),
        Ok(AttrReply { ttl_secs: 1, attr: root_attr(at(1684326896)) })
    );
}

#[test]
fn startup_without_a_bucket_is_a_parse_error() {
    let mut fs = new_fs();
    assert_eq!(fs.init_bucket_dirs(&buckets(&[])), Err(FsError::Parse));
    assert_eq!(fs.bucket(), "");
    assert_eq!(fs.getattr(ROOT_INO), Err(FsError::NotFound));
}

#[test]
fn startup_with_a_malformed_creation_time_is_a_parse_error() {
    let mut fs = new_fs();
    assert_eq!(
        fs.init_bucket_dirs(&buckets(&[("demo", "last week"), ("other", NEW_YEAR)])),
        Err(FsError::Parse)
    );
    assert_eq!(fs.bucket(), "");
    assert_eq!(fs.getattr(ROOT_INO), Err(FsError::NotFound));
}

#[test]
fn the_demo_bucket_lists_its_top_level_object() {
    let mut fs = demo_fs();
    let entries = fs.readdir(ROOT_INO, 0, &demo_listing()).unwrap();
    assert_eq!(shape(&entries), vec![dir(1, "."), dir(2, ".."), file(2, 3, "a.txt")]);
    assert_eq!(
        fs.getattr(2),
        Ok(AttrReply { ttl_secs: TTL_SECS, attr: file_attr(2, 12, at(1704067200)) })
    );
    assert_eq!(fs.getattr(3), Err(FsError::NotFound));
    assert_eq!(fs.lookup(ROOT_INO, "nested/b.txt"), Err(FsError::NotFound));
    assert_eq!(fs.lookup(ROOT_INO, "b.txt"), Err(FsError::NotFound));
}

#[test]
fn getattr_reports_the_kind_that_the_listing_gave() {
    let mut fs = demo_fs();
    let contents = vec![
        object("a.txt", 1, NEW_YEAR),
        object("dir/x", 2, NEW_YEAR),
        object("b.txt", 3, NEW_YEAR),
        object("c.txt", 4, NEW_YEAR),
    ];
    let entries = fs.readdir(ROOT_INO, 0, &listing(contents)).unwrap();
    assert_eq!(entries.len(), 5);
    for entry in &entries {
        assert_eq!(fs.getattr(entry.ino).unwrap().attr.kind, entry.kind);
        assert_eq!(fs.getattr(entry.ino).unwrap().attr.ino, entry.ino);
    }
    assert_eq!(fs.getattr(ROOT_INO).unwrap().attr.kind, FileType::Directory);
    assert_eq!(fs.getattr(4).unwrap().attr.kind, FileType::RegularFile);
    assert_eq!(fs.getattr(5), Err(FsError::NotFound));
}

#[test]
fn lookup_finds_exactly_the_names_of_the_index() {
    let mut fs = demo_fs();
    fs.readdir(ROOT_INO, 0, &demo_listing()).unwrap();
    assert_eq!(
        fs.lookup(ROOT_INO, "a.txt"),
        Ok(EntryReply { ttl_secs: 1, attr: file_attr(2, 12, at(1704067200)), generation: 0 })
    );
    assert_eq!(
        fs.lookup(ROOT_INO, "."),
        Ok(EntryReply { ttl_secs: 1, attr: root_attr(at(1684326896)), generation: 0 })
    );
    assert_eq!(fs.lookup(ROOT_INO, "..").unwrap().attr.ino, ROOT_INO);
    assert_eq!(fs.lookup(ROOT_INO, "A.TXT"), Err(FsError::NotFound));
    assert_eq!(fs.lookup(ROOT_INO, ""), Err(FsError::NotFound));
    assert_eq!(fs.lookup(ROOT_INO, "a.txt "), Err(FsError::NotFound));
}

#[test]
fn lookup_below_anything_but_the_root_finds_nothing() {
    let mut fs = demo_fs();
    fs.readdir(ROOT_INO, 0, &demo_listing()).unwrap();
    assert_eq!(fs.lookup(2, "a.txt"), Err(FsError::NotFound));
    assert_eq!(fs.lookup(0, "a.txt"), Err(FsError::NotFound));
    assert_eq!(fs.lookup(u64::MAX, "."), Err(FsError::NotFound));
}

#[test]
fn the_dot_names_are_unknown_before_the_first_listing() {
    let fs = demo_fs();
    assert_eq!(fs.lookup(ROOT_INO, "."), Err(FsError::NotFound));
    assert_eq!(fs.lookup(ROOT_INO, ".."), Err(FsError::NotFound));
}

#[test]
fn a_listing_from_the_start_begins_with_the_dot_entries() {
    let mut fs = demo_fs();
    let entries = fs.readdir(ROOT_INO, 0, &listing(vec![])).unwrap();
    assert_eq!(shape(&entries), vec![dir(1, "."), dir(2, "..")]);
    let entries = fs
        .readdir(ROOT_INO, 0, &listing(vec![object(".", 1, NEW_YEAR), object("x", 1, NEW_YEAR)]))
        .unwrap();
    assert_eq!(
        shape(&entries),
        vec![dir(1, "."), dir(2, ".."), file(2, 3, "."), file(3, 4, "x")]
    );
}

#[test]
fn a_listing_resumes_at_the_offset_of_an_entry() {
    let mut fs = demo_fs();
    let contents = || {
        listing(vec![
            object("a", 1, NEW_YEAR),
            object("b", 2, NEW_YEAR),
            object("c", 3, NEW_YEAR),
        ])
    };
    let all = shape(&fs.readdir(ROOT_INO, 0, &contents()).unwrap());
    assert_eq!(
        all,
        vec![dir(1, "."), dir(2, ".."), file(2, 3, "a"), file(3, 4, "b"), file(4, 5, "c")]
    );
    for cut in 0..=5usize {
        let rest = shape(&fs.readdir(ROOT_INO, cut as i64, &contents()).unwrap());
        assert_eq!(rest, all[cut..].to_vec());
        assert_eq!(fs.lookup(ROOT_INO, "a").unwrap().attr.ino, 2);
        assert_eq!(fs.lookup(ROOT_INO, "c").unwrap().attr.ino, 4);
    }
}

#[test]
fn a_listing_outside_the_directory_is_empty() {
    let mut fs = demo_fs();
    assert_eq!(shape(&fs.readdir(ROOT_INO, 3, &demo_listing()).unwrap()), vec![]);
    assert_eq!(shape(&fs.readdir(ROOT_INO, 4, &demo_listing()).unwrap()), vec![]);
    assert_eq!(shape(&fs.readdir(ROOT_INO, i64::MAX, &demo_listing()).unwrap()), vec![]);
    assert_eq!(shape(&fs.readdir(ROOT_INO, -1, &demo_listing()).unwrap()), vec![]);
    assert_eq!(shape(&fs.readdir(ROOT_INO, i64::MIN, &demo_listing()).unwrap()), vec![]);
    assert_eq!(fs.lookup(ROOT_INO, "a.txt").unwrap().attr.ino, 2);
}

#[test]
fn only_the_root_can_be_listed() {
    let mut fs = demo_fs();
    fs.readdir(ROOT_INO, 0, &demo_listing()).unwrap();
    let other = listing(vec![object("z.txt", 1, NEW_YEAR)]);
    assert_eq!(fs.readdir(2, 0, &other).err(), Some(FsError::NotFound));
    assert_eq!(fs.readdir(0, 0, &other).err(), Some(FsError::NotFound));
    assert_eq!(fs.lookup(ROOT_INO, "a.txt").unwrap().attr.ino, 2);
    assert_eq!(fs.lookup(ROOT_INO, "z.txt"), Err(FsError::NotFound));
}

#[test]
fn a_malformed_time_fails_the_listing_and_changes_nothing() {
    let mut fs = demo_fs();
    fs.readdir(ROOT_INO, 0, &demo_listing()).unwrap();
    let broken = listing(vec![object("z.txt", 1, NEW_YEAR), object("y.txt", 1, "never")]);
    assert_eq!(fs.readdir(ROOT_INO, 0, &broken).err(), Some(FsError::Parse));
    assert_eq!(fs.lookup(ROOT_INO, "a.txt").unwrap().attr.ino, 2);
    assert_eq!(fs.lookup(ROOT_INO, "z.txt"), Err(FsError::NotFound));
    assert_eq!(fs.getattr(3), Err(FsError::NotFound));
}

#[test]
fn a_malformed_time_below_the_top_level_does_not_matter() {
    let mut fs = demo_fs();
    let contents = listing(vec![object("deep/y.txt", 1, "never"), object("z.txt", 1, NEW_YEAR)]);
    let entries = fs.readdir(ROOT_INO, 0, &contents).unwrap();
    assert_eq!(shape(&entries), vec![dir(1, "."), dir(2, ".."), file(2, 3, "z.txt")]);
}

#[test]
fn each_listing_rebuilds_the_table() {
    let mut fs = demo_fs();
    let first = listing(vec![
        object("a", 1, NEW_YEAR),
        object("b", 2, NEW_YEAR),
        object("c", 3, NEW_YEAR),
    ]);
    fs.readdir(ROOT_INO, 0, &first).unwrap();
    assert_eq!(fs.lookup(ROOT_INO, "b").unwrap().attr.ino, 3);
    let second = listing(vec![object("b", 20, "2024-01-01T00:00:01Z")]);
    let entries = fs.readdir(ROOT_INO, 0, &second).unwrap();
    assert_eq!(shape(&entries), vec![dir(1, "."), dir(2, ".."), file(2, 3, "b")]);
    assert_eq!(fs.lookup(ROOT_INO, "b").unwrap().attr, file_attr(2, 20, at(1704067201)));
    assert_eq!(fs.lookup(ROOT_INO, "a"), Err(FsError::NotFound));
    assert_eq!(fs.lookup(ROOT_INO, "c"), Err(FsError::NotFound));
    assert_eq!(fs.getattr(3), Err(FsError::NotFound));
    assert_eq!(fs.getattr(4), Err(FsError::NotFound));
}

#[test]
fn the_root_keeps_its_record_across_listings() {
    let mut fs = demo_fs();
    fs.readdir(ROOT_INO, 0, &demo_listing()).unwrap();
    assert_eq!(fs.getattr(ROOT_INO).unwrap().attr, root_attr(at(1684326896)));
}

#[test]
fn a_listing_without_startup_gives_the_root_the_epoch() {
    let mut fs = new_fs();
    let entries = fs.readdir(ROOT_INO, 0, &demo_listing()).unwrap();
    assert_eq!(shape(&entries), vec![dir(1, "."), dir(2, ".."), file(2, 3, "a.txt")]);
    assert_eq!(fs.getattr(ROOT_INO).unwrap().attr, root_attr(Timestamp::epoch()));
}

#[test]
fn a_negative_size_wraps_around() {
    let mut fs = demo_fs();
    fs.readdir(ROOT_INO, 0, &listing(vec![object("odd", -1, NEW_YEAR)])).unwrap();
    assert_eq!(fs.getattr(2).unwrap().attr.size, u64::MAX);
}

#[test]
fn a_repeated_key_resolves_to_its_last_number() {
    let mut fs = demo_fs();
    let contents = listing(vec![object("a", 1, NEW_YEAR), object("a", 2, NEW_YEAR)]);
    let entries = fs.readdir(ROOT_INO, 0, &contents).unwrap();
    assert_eq!(
        shape(&entries),
        vec![dir(1, "."), dir(2, ".."), file(2, 3, "a"), file(3, 4, "a")]
    );
    assert_eq!(fs.lookup(ROOT_INO, "a").unwrap().attr, file_attr(3, 2, at(1704067200)));
    assert_eq!(fs.getattr(2).unwrap().attr.size, 1);
}

#[test]
fn the_listing_request_goes_to_the_bucket() {
    let fs = demo_fs();
    let request = fs.readdir_request(ROOT_INO, &at(1704067200)).unwrap();
    assert_eq!(request.url, "https://acct.r2.cloudflarestorage.com/demo?list-type=2");
    assert_eq!(request.headers.len(), 4);
    assert_eq!(request.headers[0].value, "20240101T000000Z");
    assert_eq!(fs.readdir_request(2, &at(1704067200)).err(), Some(FsError::NotFound));
    assert_eq!(fs.readdir_request(ROOT_INO, &at(i64::MAX)).err(), Some(FsError::Io));
}

#[test]
fn the_client_of_a_filesystem_signs_for_its_account() {
    let fs = demo_fs();
    assert_eq!(fs.client().host(), "acct.r2.cloudflarestorage.com");
    let request = fs.client().list_buckets(&at(1704067200)).unwrap();
    assert_eq!(request.url, "https://acct.r2.cloudflarestorage.com");
}

#[test]
fn errors_reach_the_kernel_as_two_codes() {
    assert_eq!(FsError::NotFound.reply_code(), ReplyCode::NoEntry);
    assert_eq!(FsError::Io.reply_code(), ReplyCode::IoError);
    assert_eq!(FsError::Parse.reply_code(), ReplyCode::IoError);
}

#[test]
fn failures_of_the_store_become_io_errors() {
    assert_eq!(FsError::from_client(ClientError::Storage(404)), FsError::Io);
    assert_eq!(FsError::from_client(ClientError::Io), FsError::Io);
    assert_eq!(
        FsError::from_client(ClientError::Sign(r2fs::r2client::sig::SignError::Request)),
        FsError::Io
    );
    assert_eq!(FsError::from_client(ClientError::Parse), FsError::Parse);
}

#[test]
fn a_read_returns_the_clamped_range() {
    let content = b"hello world!";
    assert_eq!(read_range(content, 0, 5), b"hello".to_vec());
    assert_eq!(read_range(content, 6, 5), b"world".to_vec());
    assert_eq!(read_range(content, 6, 6), b"world!".to_vec());
    assert_eq!(read_range(content, 6, 100), b"world!".to_vec());
    assert_eq!(read_range(content, 0, 12), content.to_vec());
    assert_eq!(read_range(content, 0, u32::MAX), content.to_vec());
    assert_eq!(read_range(content, 11, 1), b"!".to_vec());
    assert_eq!(read_range(content, 3, 0), Vec::<u8>::new());
}

#[test]
fn a_read_at_or_beyond_the_end_is_empty() {
    let content = b"hello world!";
    assert_eq!(read_range(content, 12, 1), Vec::<u8>::new());
    assert_eq!(read_range(content, 13, 4096), Vec::<u8>::new());
    assert_eq!(read_range(content, i64::MAX, u32::MAX), Vec::<u8>::new());
    assert_eq!(read_range(b"", 0, 10), Vec::<u8>::new());
}

#[test]
fn a_read_before_the_start_is_empty() {
    assert_eq!(read_range(b"hello", -1, 10), Vec::<u8>::new());
    assert_eq!(read_range(b"hello", i64::MIN, 10), Vec::<u8>::new());
}

#[test]
fn the_local_copy_lies_under_the_key_as_it_stands() {
    let fs = demo_fs();
    assert_eq!(fs.cache_path("a.txt"), "/tmp/r2fs_local/a.txt");
    assert_eq!(fs.cache_path("nested/b.txt"), "/tmp/r2fs_local/nested/b.txt");
    assert_eq!(fs.cache_path("a.txt"), fs.cache_path("a.txt"));
}

struct FakeWorld {
    disk: HashMap<String, Vec<u8>>,
    store: HashMap<String, Vec<u8>>,
    downloads: usize,
    probes: usize,
}

impl FakeWorld {
    fn with_object(url: &str, body: &[u8]) -> FakeWorld {
        let mut store = HashMap::new();
        store.insert(url.to_string(), body.to_vec());
        FakeWorld { disk: HashMap::new(), store, downloads: 0, probes: 0 }
    }

    fn serve(&mut self, fs: &R2FS, ino: u64, offset: i64, size: u32) -> Result<Vec<u8>, FsError> {
        let (mut state, mut action) = fs.read(ino, offset, size);
        loop {
            let event = match action {
                ReadAction::Reply { data } => return Ok(data),
                ReadAction::Fail { error } => return Err(error),
                ReadAction::Probe { path } => {
                    self.probes += 1;
                    ReadEvent::Probed { present: self.disk.contains_key(&path), now: at(1704067200) }
                }
                ReadAction::Fetch { request, path } => {
                    self.downloads += 1;
                    assert_eq!(request.headers.len(), 4);
                    match self.store.get(&request.url) {
                        Some(body) => {
                            self.disk.insert(path, body.clone());
                            ReadEvent::Fetched { outcome: Ok(()) }
                        }
                        None => ReadEvent::Fetched { outcome: Err(ClientError::Storage(404)) },
                    }
                }
                ReadAction::Load { path } => ReadEvent::Loaded { content: self.disk.get(&path).cloned() },
            };
            let next = fs.read_step(state, event);
            state = next.0;
            action = next.1;
        }
    }
}

fn listed_fs() -> R2FS {
    let mut fs = demo_fs();
    fs.readdir(ROOT_INO, 0, &demo_listing()).unwrap();
    fs
}

#[test]
fn two_reads_of_one_object_fetch_it_once() {
    let fs = listed_fs();
    let mut world =
        FakeWorld::with_object("https://acct.r2.cloudflarestorage.com/demo/a.txt", b"hello world!");
    assert_eq!(world.serve(&fs, 2, 0, 5), Ok(b"hello".to_vec()));
    assert_eq!(world.downloads, 1);
    assert_eq!(world.serve(&fs, 2, 6, 100), Ok(b"world!".to_vec()));
    assert_eq!(world.downloads, 1);
    assert_eq!(world.serve(&fs, 2, 12, 1), Ok(vec![]));
    assert_eq!(world.downloads, 1);
    assert_eq!(world.probes, 3);
    assert_eq!(world.disk.get("/tmp/r2fs_local/a.txt"), Some(&b"hello world!".to_vec()));
}

#[test]
fn a_read_of_a_cached_object_fetches_nothing() {
    let fs = listed_fs();
    let mut world = FakeWorld::with_object("unused", b"");
    world.disk.insert("/tmp/r2fs_local/a.txt".to_string(), b"from disk".to_vec());
    assert_eq!(world.serve(&fs, 2, 5, 4), Ok(b"disk".to_vec()));
    assert_eq!(world.downloads, 0);
}

#[test]
fn a_read_of_an_unknown_inode_is_not_found() {
    let fs = listed_fs();
    let mut world = FakeWorld::with_object("unused", b"");
    assert_eq!(world.serve(&fs, 3, 0, 5), Err(FsError::NotFound));
    assert_eq!(world.serve(&fs, 0, 0, 5), Err(FsError::NotFound));
    assert_eq!(world.probes, 0);
    assert_eq!(world.downloads, 0);
}

#[test]
fn a_read_that_the_store_refuses_is_an_io_error() {
    let fs = listed_fs();
    let mut world = FakeWorld::with_object("https://elsewhere/x", b"");
    assert_eq!(world.serve(&fs, 2, 0, 5), Err(FsError::Io));
    assert_eq!(world.downloads, 1);
    assert_eq!(world.serve(&fs, 2, 0, 5), Err(FsError::Io));
    assert_eq!(world.downloads, 2);
    assert!(world.disk.is_empty());
}

#[test]
fn a_read_of_the_root_probes_the_name_of_the_root() {
    let fs = listed_fs();
    let (state, action) = fs.read(ROOT_INO, 0, 16);
    assert!(matches!(action, ReadAction::Probe { ref path } if path == "/tmp/r2fs_local/."));
    assert!(matches!(
        state,
        ReadState::Probing { ref key, ref path, offset: 0, size: 16 }
            if key == "." && path == "/tmp/r2fs_local/."
    ));
}

#[test]
fn the_steps_of_a_read_that_misses_the_cache() {
    let fs = listed_fs();
    let (state, action) = fs.read(2, 6, 5);
    assert!(matches!(action, ReadAction::Probe { ref path } if path == "/tmp/r2fs_local/a.txt"));
    let (state, action) =
        fs.read_step(state, ReadEvent::Probed { present: false, now: at(1704067200) });
    match action {
        ReadAction::Fetch { request, path } => {
            assert_eq!(request.url, "https://acct.r2.cloudflarestorage.com/demo/a.txt");
            assert_eq!(path, "/tmp/r2fs_local/a.txt");
            assert_eq!(
                request.headers[3].value,
                "AWS4-HMAC-SHA256 Credential=test-access/20240101/auto/s3/aws4_request,\
                 SignedHeaders=host;x-amz-content-sha256;x-amz-date,\
                 Signature=7ee6a4745e869069a544e93646b56cdac051d0808239998b55645ce2a471b806"
            );
        }
        other => panic!("expected a fetch, got {:?}", other),
    }
    assert!(matches!(state, ReadState::Fetching { ref path, offset: 6, size: 5 }
        if path == "/tmp/r2fs_local/a.txt"));
    let (state, action) = fs.read_step(state, ReadEvent::Fetched { outcome: Ok(()) });
    assert!(matches!(action, ReadAction::Load { ref path } if path == "/tmp/r2fs_local/a.txt"));
    assert!(matches!(state, ReadState::Loading { offset: 6, size: 5 }));
    let (state, action) =
        fs.read_step(state, ReadEvent::Loaded { content: Some(b"hello world!".to_vec()) });
    assert!(matches!(action, ReadAction::Reply { ref data } if data == b"world"));
    assert!(matches!(state, ReadState::Done));
}

#[test]
fn the_ways_in_which_a_read_fails() {
    let fs = listed_fs();
    let probing = || fs.read(2, 0, 5).0;
    let (state, action) =
        fs.read_step(probing(), ReadEvent::Probed { present: false, now: at(i64::MAX) });
    assert!(matches!(action, ReadAction::Fail { error: FsError::Io }));
    assert!(matches!(state, ReadState::Done));
    let fetching = || ReadState::Fetching { path: "p".to_string(), offset: 0, size: 5 };
    for failure in [ClientError::Storage(500), ClientError::Io, ClientError::Parse] {
        let (state, action) =
            fs.read_step(fetching(), ReadEvent::Fetched { outcome: Err(failure) });
        assert!(matches!(action, ReadAction::Fail { error: FsError::Io }));
        assert!(matches!(state, ReadState::Done));
    }
    let (_, action) = fs.read_step(
        ReadState::Loading { offset: 0, size: 5 },
        ReadEvent::Loaded { content: None },
    );
    assert!(matches!(action, ReadAction::Fail { error: FsError::Io }));
}

#[test]
fn an_event_that_the_state_does_not_wait_for_ends_the_read() {
    let fs = listed_fs();
    let (_, action) = fs.read_step(fs.read(2, 0, 5).0, ReadEvent::Loaded { content: Some(vec![1]) });
    assert!(matches!(action, ReadAction::Fail { error: FsError::Io }));
    let (_, action) = fs.read_step(ReadState::Done, ReadEvent::Fetched { outcome: Ok(()) });
    assert!(matches!(action, ReadAction::Fail { error: FsError::Io }));
    let (_, action) = fs.read_step(
        ReadState::Loading { offset: 0, size: 1 },
        ReadEvent::Probed { present: true, now: at(0) },
    );
    assert!(matches!(action, ReadAction::Fail { error: FsError::Io }));
}

#[test]
fn nested_keys_are_told_from_top_level_keys() {
    assert!(object("nested/b.txt", 1, NEW_YEAR).nested());
    assert!(object("/", 1, NEW_YEAR).nested());
    assert!(object("trailing/", 1, NEW_YEAR).nested());
    assert!(!object("a.txt", 1, NEW_YEAR).nested());
    assert!(!object("", 1, NEW_YEAR).nested());
    assert!(!object("back\\slash", 1, NEW_YEAR).nested());
}

#[test]
fn the_times_of_the_top_level_objects_are_read() {
    let objects = collect_flat(&demo_listing().contents).unwrap();
    assert_eq!(objects.len(), 1);
    assert_eq!(objects[0].key, "a.txt");
    assert_eq!(objects[0].size, 12);
    assert_eq!(objects[0].modified, at(1704067200));
    let none = collect_flat(&vec![]).unwrap();
    assert!(none.is_empty());
}

#[test]
fn one_malformed_time_at_the_top_level_spoils_the_listing() {
    assert!(collect_flat(&vec![object("a", 1, NEW_YEAR), object("b", 1, "never")]).is_none());
    assert!(collect_flat(&vec![object("b", 1, ""), object("a", 1, NEW_YEAR)]).is_none());
    let passed_over = collect_flat(&vec![object("d/b", 1, "never")]).unwrap();
    assert!(passed_over.is_empty());
}

#[test]
fn an_enumeration_of_given_objects() {
    let mut fs = new_fs();
    fs.choose_bucket("demo".to_string(), at(7));
    assert_eq!(fs.bucket(), "demo");
    let objects = vec![
        FlatObject { key: "a.txt".to_string(), size: 12, modified: at(100) },
        FlatObject { key: "b.txt".to_string(), size: 34, modified: at(200) },
    ];
    let entries = fs.enumerate(0, &objects);
    assert_eq!(
        shape(&entries),
        vec![dir(1, "."), dir(2, ".."), file(2, 3, "a.txt"), file(3, 4, "b.txt")]
    );
    assert_eq!(shape(&fs.enumerate(3, &objects)), vec![file(3, 4, "b.txt")]);
    assert_eq!(fs.getattr(ROOT_INO).unwrap().attr, root_attr(at(7)));
    assert_eq!(fs.getattr(2).unwrap().attr, file_attr(2, 12, at(100)));
    assert_eq!(fs.lookup(ROOT_INO, "b.txt").unwrap().attr, file_attr(3, 34, at(200)));
    assert_eq!(fs.getattr(4), Err(FsError::NotFound));
}
