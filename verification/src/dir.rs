//! The listing of the root directory, and the enumeration that rebuilds
//! the inode table from a listing of the bucket.

use crate::inode::{
    file_attr, root_attr, spec_file_attr, spec_root_attr, FileAttr, FileType, InodeTable, TableView,
    FIRST_INO, ROOT_INO,
};
use crate::r2client::parsers::list_bucket_objects_parser::{is_nested, Content};
use crate::utils::{instant_of, parse_system_time, Timestamp};
use vstd::prelude::*;

verus! {

/// One entry of a directory listing.
#[derive(Debug)]
pub struct DirEntry {
    /// The inode number of the entry.
    pub ino: u64,
    /// The position after this entry: the offset at which a later call
    /// resumes with the entry that follows.
    pub offset: i64,
    /// The kind of the entry.
    pub kind: FileType,
    /// The name of the entry.
    pub name: String,
}

/// An entry of a directory listing as a mathematical value.
pub ghost struct DirEntryView {
    pub ino: u64,
    pub offset: i64,
    pub kind: FileType,
    pub name: Seq<char>,
}

impl View for DirEntry {
    type V = DirEntryView;

    open spec fn view(&self) -> DirEntryView {
        DirEntryView { ino: self.ino, offset: self.offset, kind: self.kind, name: self.name@ }
    }
}

/// The entries of a list as mathematical values.
pub open spec fn entry_views(entries: Seq<DirEntry>) -> Seq<DirEntryView> {
    Seq::new(entries.len(), |i: int| entries[i]@)
}

/// A top-level object of the bucket, with its time of last modification
/// read.
#[derive(Debug)]
pub struct FlatObject {
    pub key: String,
    pub size: u64,
    pub modified: Timestamp,
}

/// A top-level object as a mathematical value.
pub ghost struct FlatObjectView {
    pub key: Seq<char>,
    pub size: u64,
    pub modified: Timestamp,
}

impl View for FlatObject {
    type V = FlatObjectView;

    open spec fn view(&self) -> FlatObjectView {
        FlatObjectView { key: self.key@, size: self.size, modified: self.modified }
    }
}

/// The objects of a list as mathematical values.
pub open spec fn object_views(objects: Seq<FlatObject>) -> Seq<FlatObjectView> {
    Seq::new(objects.len(), |i: int| objects[i]@)
}

/// Whether an object lies at the top level of the bucket.
pub open spec fn is_flat(object: Content) -> bool {
    !is_nested(object.key@)
}

/// The test for objects at the top level of the bucket.
pub open spec fn flat_test() -> spec_fn(Content) -> bool {
    |object: Content| is_flat(object)
}

/// The objects of a listing that lie at the top level of the bucket, in
/// the order of the listing.
pub open spec fn flat_contents(contents: Seq<Content>) -> Seq<Content> {
    contents.filter(flat_test())
}

/// Whether every top-level object of a listing carries a well-formed time
/// of last modification.
pub open spec fn all_dated(contents: Seq<Content>) -> bool {
    forall|i: int|
        0 <= i < contents.len() && is_flat(#[trigger] contents[i]) ==> instant_of(
            contents[i].last_modified@,
        ) is Some
}

/// An object of a listing with its time read. A size below zero is taken
/// as the unsigned number with the same bits.
pub open spec fn dated(object: Content) -> FlatObjectView {
    FlatObjectView {
        key: object.key@,
        size: object.size as u64,
        modified: instant_of(object.last_modified@)->0,
    }
}

/// The top-level objects of a listing with their times read, in the order
/// of the listing; `None` where one of them carries a malformed time.
pub open spec fn flat_objects(contents: Seq<Content>) -> Option<Seq<FlatObjectView>> {
    if all_dated(contents) {
        Some(
            Seq::new(
                flat_contents(contents).len(),
                |i: int| dated(flat_contents(contents)[i]),
            ),
        )
    } else {
        None
    }
}

/// Takes the top-level objects out of a listing and reads the time of
/// each; fails where one of them carries a malformed time. Objects below
/// the top level are passed over unread.
pub fn collect_flat(contents: &Vec<Content>) -> (outcome: Option<Vec<FlatObject>>)
    ensures
        match outcome {
            Some(objects) => {
                &&& flat_objects(contents@) == Some(object_views(objects@))
                &&& objects@.len() <= contents@.len()
            },
            None => flat_objects(contents@) is None,
        },
{
    let mut objects: Vec<FlatObject> = Vec::new();
    let mut i: usize = 0;
    while i < contents.len()
        invariant
            i <= contents@.len(),
            all_dated(contents@.take(i as int)),
            objects@.len() == flat_contents(contents@.take(i as int)).len(),
            objects@.len() <= i,
            forall|j: int|
                0 <= j < objects@.len() ==> (#[trigger] objects@[j])@ == dated(
                    flat_contents(contents@.take(i as int))[j],
                ),
        decreases contents@.len() - i,
    {
        let object = &contents[i];
        proof {
            assert(contents@.take(i + 1) =~= contents@.take(i as int).push(contents@[i as int]));
            contents@.take(i as int).lemma_filter_push(contents@[i as int], flat_test());
        }
        if !object.nested() {
            let modified = match parse_system_time(object.last_modified.as_str()) {
                Some(modified) => modified,
                None => {
                    proof {
                        assert(is_flat(contents@[i as int]));
                    }
                    return None;
                },
            };
            let size: u64 = #[verifier::truncate] (object.size as u64);
            objects.push(FlatObject { key: object.key.clone(), size, modified });
        }
        proof {
            assert forall|j: int|
                0 <= j < i + 1 && is_flat(#[trigger] contents@.take(i + 1)[j]) implies instant_of(
                contents@.take(i + 1)[j].last_modified@,
            ) is Some by {
                if j < i {
                    assert(contents@.take(i as int)[j] == contents@.take(i + 1)[j]);
                }
            }
        }
        i = i + 1;
    }
    proof {
        assert(contents@.take(i as int) =~= contents@);
        assert(object_views(objects@) =~= flat_objects(contents@)->0);
    }
    Some(objects)
}

/// The record of an object under the inode number `ino`: its size, and its
/// time of last modification for all four times.
pub open spec fn record_of(ino: u64, object: FlatObjectView) -> FileAttr {
    spec_file_attr(ino, object.size, object.modified)
}

/// The table after an enumeration of the top-level objects `objects` that
/// started from the root record `root`: the objects are registered in
/// their order, each under its key.
pub open spec fn enumerated(root: FileAttr, objects: Seq<FlatObjectView>) -> TableView
    decreases objects.len(),
{
    if objects.len() == 0 {
        TableView::reset(root)
    } else {
        let before = enumerated(root, objects.drop_last());
        before.assign(objects.last().key, record_of(before.next, objects.last()))
    }
}

/// The root record that an enumeration starts from: the record that the
/// table holds for the root or, where it holds none, a root with all its
/// times at the epoch.
pub open spec fn root_or_default(table: TableView) -> FileAttr {
    if table.attrs.contains_key(ROOT_INO) {
        table.attrs[ROOT_INO]
    } else {
        spec_root_attr(Timestamp::spec_epoch())
    }
}

/// The entry at position `p` of the listing of the root: `.` and `..`
/// first, both the root itself, then the top-level objects in their order.
/// The object at position `p` has the inode number `p`, and every entry
/// carries the position that follows it.
pub open spec fn dir_entry_at(objects: Seq<FlatObjectView>, p: int) -> DirEntryView {
    if p == 0 {
        DirEntryView { ino: ROOT_INO, offset: 1, kind: FileType::Directory, name: "."@ }
    } else if p == 1 {
        DirEntryView { ino: ROOT_INO, offset: 2, kind: FileType::Directory, name: ".."@ }
    } else {
        DirEntryView {
            ino: p as u64,
            offset: (p + 1) as i64,
            kind: FileType::RegularFile,
            name: objects[p - 2].key,
        }
    }
}

/// The whole listing of the root.
pub open spec fn dir_entries(objects: Seq<FlatObjectView>) -> Seq<DirEntryView> {
    Seq::new(objects.len() + 2, |p: int| dir_entry_at(objects, p))
}

/// The part of a listing that a call at `offset` delivers: the entries from
/// that position on; nothing where the offset lies outside the listing.
pub open spec fn page(entries: Seq<DirEntryView>, offset: i64) -> Seq<DirEntryView> {
    if 0 <= offset <= entries.len() {
        entries.skip(offset as int)
    } else {
        Seq::empty()
    }
}

/// Rebuilds the table from the top-level objects of the bucket, and returns
/// the part of the root's listing that a call at `offset` delivers.
///
/// The root keeps its record (or gets one with its times at the epoch where
/// it had none); every other record and every name is dropped, and the
/// objects are registered in their order, from the first free number.
pub fn refresh(table: &mut InodeTable, objects: &Vec<FlatObject>, offset: i64) -> (entries: Vec<
    DirEntry,
>)
    requires
        old(table).wf(),
        objects@.len() + 3 <= i64::MAX,
    ensures
        final(table).wf(),
        final(table)@ == enumerated(root_or_default(old(table)@), object_views(objects@)),
        entry_views(entries@) == page(dir_entries(object_views(objects@)), offset),
{
    let ghost flat = object_views(objects@);
    let root = match table.attributes_of(ROOT_INO) {
        Some(root) => {
            proof {
                table.lemma_view_wf();
            }
            root
        },
        None => root_attr(Timestamp::epoch()),
    };
    table.reset(root);
    let mut i: usize = 0;
    while i < objects.len()
        invariant
            i <= objects@.len(),
            objects@.len() + 3 <= i64::MAX,
            flat == object_views(objects@),
            table.wf(),
            table@ == enumerated(root, flat.take(i as int)),
            table@.next == FIRST_INO + i,
        decreases objects@.len() - i,
    {
        proof {
            assert(flat.take(i + 1).drop_last() =~= flat.take(i as int));
            assert(flat.take(i + 1).last() == flat[i as int]);
        }
        let ino: u64 = FIRST_INO + i as u64;
        let object = &objects[i];
        table.assign(object.key.clone(), file_attr(ino, object.size, object.modified));
        i = i + 1;
    }
    proof {
        assert(flat.take(i as int) =~= flat);
    }
    let total: u64 = objects.len() as u64 + 2;
    let mut entries: Vec<DirEntry> = Vec::new();
    if offset < 0 || offset as u64 > total {
        proof {
            assert(entry_views(entries@) =~= page(dir_entries(flat), offset));
        }
        return entries;
    }
    let first: u64 = offset as u64;
    let mut p: u64 = first;
    while p < total
        invariant
            first <= p <= total,
            total == objects@.len() + 2,
            objects@.len() + 3 <= i64::MAX,
            objects@.len() <= usize::MAX,
            flat == object_views(objects@),
            entries@.len() == p - first,
            forall|j: int|
                0 <= j < entries@.len() ==> (#[trigger] entries@[j])@ == dir_entry_at(flat, first + j),
        decreases total - p,
    {
        let entry = if p == 0 {
            DirEntry { ino: ROOT_INO, offset: 1, kind: FileType::Directory, name: String::from_str(".") }
        } else if p == 1 {
            DirEntry { ino: ROOT_INO, offset: 2, kind: FileType::Directory, name: String::from_str("..") }
        } else {
            let at: usize = (p - 2) as usize;
            proof {
                assert(flat[at as int] == objects@[at as int]@);
            }
            DirEntry {
                ino: p,
                offset: (p + 1) as i64,
                kind: FileType::RegularFile,
                name: objects[at].key.clone(),
            }
        };
        entries.push(entry);
        p = p + 1;
    }
    proof {
        assert(entry_views(entries@) =~= page(dir_entries(flat), offset));
    }
    entries
}

/// After an enumeration the index holds the names `.` and `..` and the keys
/// of the top-level objects, and no other name.
pub proof fn lemma_enumerated_names(root: FileAttr, flat: Seq<FlatObjectView>)
    ensures
        forall|k: Seq<char>|
            enumerated(root, flat).ids.contains_key(k) <==> (k == "."@ || k == ".."@ || exists|
                i: int,
            |
                0 <= i < flat.len() && (#[trigger] flat[i]).key == k),
    decreases flat.len(),
{
    let t = enumerated(root, flat);
    if flat.len() > 0 {
        let rest = flat.drop_last();
        let before = enumerated(root, rest);
        lemma_enumerated_names(root, rest);
        assert forall|k: Seq<char>|
            t.ids.contains_key(k) <==> (k == "."@ || k == ".."@ || exists|i: int|
                0 <= i < flat.len() && (#[trigger] flat[i]).key == k) by {
            if t.ids.contains_key(k) && k != "."@ && k != ".."@ {
                if k == flat.last().key {
                    assert(flat[flat.len() - 1].key == k);
                } else {
                    assert(before.ids.contains_key(k));
                    let i = choose|i: int| 0 <= i < rest.len() && (#[trigger] rest[i]).key == k;
                    assert(flat[i].key == k);
                }
            }
            if k == "."@ || k == ".."@ {
                assert(before.ids.contains_key(k));
            }
            if exists|i: int| 0 <= i < flat.len() && (#[trigger] flat[i]).key == k {
                let i = choose|i: int| 0 <= i < flat.len() && (#[trigger] flat[i]).key == k;
                if i < rest.len() {
                    assert(rest[i].key == k);
                    assert(before.ids.contains_key(k));
                }
            }
        }
    }
}

/// The keys of the objects `flat` differ from one another and from the
/// names `.` and `..`.
pub open spec fn keys_distinct(flat: Seq<FlatObjectView>) -> bool {
    &&& forall|i: int, j: int|
        0 <= i < flat.len() && 0 <= j < flat.len() && i != j ==> flat[i].key != flat[j].key
    &&& forall|i: int| 0 <= i < flat.len() ==> flat[i].key != "."@ && flat[i].key != ".."@
}

/// The table after an enumeration is well formed. It holds the root's
/// record unchanged and, for the object at position `i`, the object's
/// record under the number `2 + i`; it holds no other record.
pub proof fn lemma_enumerated(root: FileAttr, flat: Seq<FlatObjectView>)
    requires
        root.ino == ROOT_INO,
        root.kind == FileType::Directory,
        FIRST_INO + flat.len() <= u64::MAX,
    ensures
        enumerated(root, flat).wf(),
        enumerated(root, flat).next == FIRST_INO + flat.len(),
        forall|id: u64|
            enumerated(root, flat).attrs.contains_key(id) <==> (id == ROOT_INO || FIRST_INO <= id
                < FIRST_INO + flat.len()),
        enumerated(root, flat).attrs[ROOT_INO] == root,
        forall|i: int|
            0 <= i < flat.len() ==> enumerated(root, flat).attrs[(FIRST_INO + i) as u64]
                == record_of((FIRST_INO + i) as u64, #[trigger] flat[i]),
    decreases flat.len(),
{
    if flat.len() == 0 {
        TableView::lemma_reset_wf(root);
    } else {
        let before = enumerated(root, flat.drop_last());
        lemma_enumerated(root, flat.drop_last());
        before.lemma_assign_wf(flat.last().key, record_of(before.next, flat.last()));
        assert forall|i: int| 0 <= i < flat.len() implies enumerated(root, flat).attrs[(FIRST_INO
            + i) as u64] == record_of((FIRST_INO + i) as u64, #[trigger] flat[i]) by {
            if i < flat.len() - 1 {
                assert(flat.drop_last()[i] == flat[i]);
            }
        }
    }
}

/// A listing of the root from its start begins with `.` and `..`, both
/// directories with the root's own number; the objects follow.
pub proof fn lemma_listing_starts_with_dots(flat: Seq<FlatObjectView>)
    ensures
        page(dir_entries(flat), 0).len() == flat.len() + 2,
        page(dir_entries(flat), 0)[0] == (DirEntryView {
            ino: ROOT_INO,
            offset: 1,
            kind: FileType::Directory,
            name: "."@,
        }),
        page(dir_entries(flat), 0)[1] == (DirEntryView {
            ino: ROOT_INO,
            offset: 2,
            kind: FileType::Directory,
            name: ".."@,
        }),
        forall|p: int|
            2 <= p < flat.len() + 2 ==> (#[trigger] page(dir_entries(flat), 0)[p]).kind
                == FileType::RegularFile,
{
}

/// A listing that resumes at the offset that an entry carries goes on with
/// the entry that follows it: the pages at the offsets `0` and `offset`
/// differ by the first `offset` entries.
pub proof fn lemma_listing_resumes(flat: Seq<FlatObjectView>, offset: i64)
    requires
        0 <= offset <= flat.len() + 2,
        flat.len() + 3 <= i64::MAX,
    ensures
        page(dir_entries(flat), 0) == dir_entries(flat).take(offset as int) + page(
            dir_entries(flat),
            offset,
        ),
        forall|p: int|
            0 <= p < dir_entries(flat).len() ==> (#[trigger] dir_entries(flat)[p]).offset == p + 1,
{
    assert(page(dir_entries(flat), 0) =~= dir_entries(flat).take(offset as int) + page(
        dir_entries(flat),
        offset,
    ));
}

/// Where the keys of the objects differ from one another and from `.` and
/// `..`, an enumeration pairs numbers and keys one to one: the object at
/// position `i` is found under its key with the number `2 + i`, and that
/// number leads back to its key. The names `.` and `..` resolve to the
/// root, and the root leads back to `.`.
pub proof fn lemma_enumerated_one_to_one(root: FileAttr, flat: Seq<FlatObjectView>)
    requires
        root.ino == ROOT_INO,
        root.kind == FileType::Directory,
        FIRST_INO + flat.len() <= u64::MAX,
        keys_distinct(flat),
    ensures
        enumerated(root, flat).order == seq!["."@, ".."@] + Seq::new(
            flat.len(),
            |i: int| flat[i].key,
        ),
        enumerated(root, flat).id_of("."@) == Some(ROOT_INO),
        enumerated(root, flat).id_of(".."@) == Some(ROOT_INO),
        enumerated(root, flat).key_of(ROOT_INO) == Some("."@),
        forall|i: int|
            0 <= i < flat.len() ==> {
                &&& enumerated(root, flat).id_of((#[trigger] flat[i]).key) == Some(
                    (FIRST_INO + i) as u64,
                )
                &&& enumerated(root, flat).key_of((FIRST_INO + i) as u64) == Some(flat[i].key)
            },
    decreases flat.len(),
{
    let t = enumerated(root, flat);
    let keys = Seq::new(flat.len(), |i: int| flat[i].key);
    lemma_enumerated(root, flat);
    lemma_enumerated_ids(root, flat);
    assert(t.order =~= seq!["."@, ".."@] + keys);
    reveal_strlit(".");
    reveal_strlit("..");
    assert("."@.len() != ".."@.len());
    assert(t.is_first_key(ROOT_INO, 0));
    let c = choose|c: int| t.is_first_key(ROOT_INO, c);
    assert(t.is_first_key(ROOT_INO, c));
    assert(c == 0) by {
        if c > 0 {
            assert(t.ids[t.order[0]] != ROOT_INO);
        }
    }
    assert forall|i: int| 0 <= i < flat.len() implies t.key_of((FIRST_INO + i) as u64) == Some(
        (#[trigger] flat[i]).key,
    ) by {
        let id = (FIRST_INO + i) as u64;
        assert(t.order[i + 2] == flat[i].key);
        assert forall|j: int| 0 <= j < i + 2 implies t.ids[#[trigger] t.order[j]] != id by {
            if j >= 2 {
                assert(t.order[j] == flat[j - 2].key);
            }
        }
        assert(t.is_first_key(id, i + 2));
        let d = choose|d: int| t.is_first_key(id, d);
        assert(t.is_first_key(id, d));
        if d < i + 2 {
            assert(t.ids[t.order[d]] != id);
        } else if d > i + 2 {
            assert(t.ids[t.order[i + 2]] != id);
        }
    }
}

/// The names that an enumeration of distinct keys leaves in the index, and
/// the order in which they stand.
proof fn lemma_enumerated_ids(root: FileAttr, flat: Seq<FlatObjectView>)
    requires
        root.ino == ROOT_INO,
        root.kind == FileType::Directory,
        FIRST_INO + flat.len() <= u64::MAX,
        keys_distinct(flat),
    ensures
        enumerated(root, flat).order =~= seq!["."@, ".."@] + Seq::new(
            flat.len(),
            |i: int| flat[i].key,
        ),
        enumerated(root, flat).ids.contains_key("."@),
        enumerated(root, flat).ids.contains_key(".."@),
        enumerated(root, flat).ids["."@] == ROOT_INO,
        enumerated(root, flat).ids[".."@] == ROOT_INO,
        forall|i: int|
            0 <= i < flat.len() ==> {
                &&& enumerated(root, flat).ids.contains_key((#[trigger] flat[i]).key)
                &&& enumerated(root, flat).ids[flat[i].key] == FIRST_INO + i
            },
    decreases flat.len(),
{
    let t = enumerated(root, flat);
    if flat.len() == 0 {
        assert(t.order =~= seq!["."@, ".."@] + Seq::new(flat.len(), |i: int| flat[i].key));
    } else {
        let rest = flat.drop_last();
        let before = enumerated(root, rest);
        let last = flat.last();
        assert forall|i: int| 0 <= i < rest.len() implies (#[trigger] rest[i]) == flat[i] by {}
        assert(keys_distinct(rest));
        lemma_enumerated(root, rest);
        lemma_enumerated_ids(root, rest);
        lemma_enumerated_names(root, rest);
        assert(!before.ids.contains_key(last.key)) by {
            if before.ids.contains_key(last.key) {
                let i = choose|i: int| 0 <= i < rest.len() && (#[trigger] rest[i]).key == last.key;
                assert(flat[i].key == flat[flat.len() - 1].key);
            }
        }
        assert(t.order =~= seq!["."@, ".."@] + Seq::new(flat.len(), |i: int| flat[i].key));
        assert forall|i: int| 0 <= i < flat.len() implies {
            &&& t.ids.contains_key((#[trigger] flat[i]).key)
            &&& t.ids[flat[i].key] == FIRST_INO + i
        } by {
            if i < rest.len() {
                assert(rest[i] == flat[i]);
            }
        }
    }
}

} // verus!
