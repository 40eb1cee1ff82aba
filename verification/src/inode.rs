//! The inode table: attribute records by inode number, and the index of
//! names that resolves a name to its inode number and back.

use crate::utils::{opt_text, Timestamp};
use std::collections::HashMap;
use vstd::prelude::*;

verus! {

broadcast use vstd::std_specs::hash::group_hash_axioms;

/// The inode number that is reserved for the bucket's root directory.
pub const ROOT_INO: u64 = 1;

/// The first inode number that an enumeration hands out.
pub const FIRST_INO: u64 = 2;

/// The kinds of file that the filesystem shows.
#[derive(Clone, Copy, Debug, PartialEq, Eq, Structural)]
pub enum FileType {
    Directory,
    RegularFile,
}

/// The attributes of one inode.
#[derive(Clone, Copy, Debug, PartialEq, Eq, Structural)]
pub struct FileAttr {
    /// Inode number.
    pub ino: u64,
    /// Size in bytes.
    pub size: u64,
    /// Size in blocks.
    pub blocks: u64,
    /// Time of last access.
    pub atime: Timestamp,
    /// Time of last modification.
    pub mtime: Timestamp,
    /// Time of last change.
    pub ctime: Timestamp,
    /// Time of creation.
    pub crtime: Timestamp,
    /// Kind of file.
    pub kind: FileType,
    /// Permission bits.
    pub perm: u16,
    /// Number of hard links.
    pub nlink: u32,
    /// Owning user.
    pub uid: u32,
    /// Owning group.
    pub gid: u32,
    /// Device number.
    pub rdev: u32,
    /// Flags.
    pub flags: u32,
    /// Block size.
    pub blksize: u32,
}

/// The kind that belongs to an inode number: the root is a directory, every
/// other inode a regular file.
pub open spec fn kind_of(ino: u64) -> FileType {
    if ino == ROOT_INO {
        FileType::Directory
    } else {
        FileType::RegularFile
    }
}

/// The attributes of the root directory with all its times at `t`.
pub open spec fn spec_root_attr(t: Timestamp) -> FileAttr {
    FileAttr {
        ino: ROOT_INO,
        size: 0,
        blocks: 0,
        atime: t,
        mtime: t,
        ctime: t,
        crtime: t,
        kind: FileType::Directory,
        perm: 0o755,
        nlink: 2,
        uid: 501,
        gid: 20,
        rdev: 0,
        flags: 0,
        blksize: 512,
    }
}

/// The attributes of the root directory with all its times at `t`.
#[verifier::when_used_as_spec(spec_root_attr)]
pub fn root_attr(t: Timestamp) -> (attr: FileAttr)
    ensures
        attr == spec_root_attr(t),
{
    FileAttr {
        ino: ROOT_INO,
        size: 0,
        blocks: 0,
        atime: t,
        mtime: t,
        ctime: t,
        crtime: t,
        kind: FileType::Directory,
        perm: 0o755,
        nlink: 2,
        uid: 501,
        gid: 20,
        rdev: 0,
        flags: 0,
        blksize: 512,
    }
}

/// The attributes of an object of `size` bytes that was last modified at
/// `t`, under the inode number `ino`.
pub open spec fn spec_file_attr(ino: u64, size: u64, t: Timestamp) -> FileAttr {
    FileAttr {
        ino,
        size,
        blocks: 0,
        atime: t,
        mtime: t,
        ctime: t,
        crtime: t,
        kind: FileType::RegularFile,
        perm: 0o644,
        nlink: 1,
        uid: 501,
        gid: 20,
        rdev: 0,
        flags: 0,
        blksize: 512,
    }
}

/// The attributes of an object of `size` bytes that was last modified at
/// `t`, under the inode number `ino`.
#[verifier::when_used_as_spec(spec_file_attr)]
pub fn file_attr(ino: u64, size: u64, t: Timestamp) -> (attr: FileAttr)
    ensures
        attr == spec_file_attr(ino, size, t),
{
    FileAttr {
        ino,
        size,
        blocks: 0,
        atime: t,
        mtime: t,
        ctime: t,
        crtime: t,
        kind: FileType::RegularFile,
        perm: 0o644,
        nlink: 1,
        uid: 501,
        gid: 20,
        rdev: 0,
        flags: 0,
        blksize: 512,
    }
}

/// The table as a mathematical value.
pub ghost struct TableView {
    /// The attribute record of each inode number in the table.
    pub attrs: Map<u64, FileAttr>,
    /// The inode number of each name in the index.
    pub ids: Map<Seq<char>, u64>,
    /// The names of the index, in the order in which they first entered it.
    pub order: Seq<Seq<char>>,
    /// The inode number that the next assignment hands out.
    pub next: u64,
}

impl TableView {
    /// What holds of every table: the index and its order name the same
    /// keys, each once; every name resolves to a record; every record
    /// carries its own number and the kind that belongs to it; every number
    /// but the root's was handed out by the current enumeration; and no two
    /// names share a number other than the root's.
    pub open spec fn wf(self) -> bool {
        &&& self.next >= FIRST_INO
        &&& self.order.no_duplicates()
        &&& forall|k: Seq<char>| self.ids.contains_key(k) <==> self.order.contains(k)
        &&& forall|k: Seq<char>| #[trigger]
            self.ids.contains_key(k) ==> self.attrs.contains_key(self.ids[k])
        &&& forall|id: u64| #[trigger]
            self.attrs.contains_key(id) ==> {
                &&& self.attrs[id].ino == id
                &&& self.attrs[id].kind == kind_of(id)
                &&& (id == ROOT_INO || FIRST_INO <= id < self.next)
            }
        &&& forall|k1: Seq<char>, k2: Seq<char>|
            #![trigger self.ids[k1], self.ids[k2]]
            self.ids.contains_key(k1) && self.ids.contains_key(k2) && self.ids[k1] == self.ids[k2]
                && self.ids[k1] != ROOT_INO ==> k1 == k2
    }

    /// The table without records or names.
    pub open spec fn empty() -> TableView {
        TableView { attrs: Map::empty(), ids: Map::empty(), order: Seq::empty(), next: FIRST_INO }
    }

    /// The table at the start of an enumeration: the root's record alone,
    /// under the names `.` and `..`.
    pub open spec fn reset(root: FileAttr) -> TableView {
        TableView {
            attrs: Map::empty().insert(ROOT_INO, root),
            ids: Map::empty().insert("."@, ROOT_INO).insert(".."@, ROOT_INO),
            order: seq!["."@, ".."@],
            next: FIRST_INO,
        }
    }

    /// The table with the root's record set to `root`.
    pub open spec fn with_root(self, root: FileAttr) -> TableView {
        TableView { attrs: self.attrs.insert(ROOT_INO, root), ..self }
    }

    /// The table after `key` was registered with the attributes `attr`: the
    /// next number is handed out, the record is stored under it with that
    /// number, and the name resolves to it. A name that was in the index
    /// keeps its place in the order.
    pub open spec fn assign(self, key: Seq<char>, attr: FileAttr) -> TableView {
        TableView {
            attrs: self.attrs.insert(self.next, FileAttr { ino: self.next, ..attr }),
            ids: self.ids.insert(key, self.next),
            order: if self.ids.contains_key(key) {
                self.order
            } else {
                self.order.push(key)
            },
            next: (self.next + 1) as u64,
        }
    }

    /// Whether the name at position `i` of the order is the first that
    /// resolves to `id`.
    pub open spec fn is_first_key(self, id: u64, i: int) -> bool {
        &&& 0 <= i < self.order.len()
        &&& self.ids[self.order[i]] == id
        &&& forall|j: int| 0 <= j < i ==> self.ids[#[trigger] self.order[j]] != id
    }

    /// The name of an inode number: the first name of the order that
    /// resolves to it.
    pub open spec fn key_of(self, id: u64) -> Option<Seq<char>> {
        if exists|i: int| self.is_first_key(id, i) {
            Some(self.order[choose|i: int| self.is_first_key(id, i)])
        } else {
            None
        }
    }

    /// The inode number of a name.
    pub open spec fn id_of(self, key: Seq<char>) -> Option<u64> {
        if self.ids.contains_key(key) {
            Some(self.ids[key])
        } else {
            None
        }
    }

    /// The attributes of an inode number.
    pub open spec fn attributes_of(self, id: u64) -> Option<FileAttr> {
        if self.attrs.contains_key(id) {
            Some(self.attrs[id])
        } else {
            None
        }
    }
}

/// One name of the index and the inode number it resolves to.
struct NameEntry {
    name: String,
    ino: u64,
}

/// The inode table.
pub struct InodeTable {
    attrs: HashMap<u64, FileAttr>,
    names: Vec<NameEntry>,
    next_ino: u64,
}

impl View for InodeTable {
    type V = TableView;

    closed spec fn view(&self) -> TableView {
        TableView {
            attrs: self.attrs@,
            ids: Map::new(
                |k: Seq<char>| exists|i: int| self.names_entry(i, k),
                |k: Seq<char>| self.names@[choose|i: int| self.names_entry(i, k)].ino,
            ),
            order: Seq::new(self.names@.len(), |i: int| self.names@[i].name@),
            next: self.next_ino,
        }
    }
}

impl InodeTable {
    /// Whether the entry at position `i` of the index carries the name `k`.
    closed spec fn names_entry(&self, i: int, k: Seq<char>) -> bool {
        0 <= i < self.names@.len() && self.names@[i].name@ == k
    }

    /// Whether no name stands twice in the index.
    closed spec fn names_distinct(&self) -> bool {
        forall|i: int, j: int|
            0 <= i < self.names@.len() && 0 <= j < self.names@.len() && i != j
                ==> self.names@[i].name@ != self.names@[j].name@
    }

    /// The invariant of the table.
    pub closed spec fn wf(&self) -> bool {
        &&& self.names_distinct()
        &&& self@.wf()
    }

    /// A well-formed table has a well-formed view.
    pub proof fn lemma_view_wf(&self)
        requires
            self.wf(),
        ensures
            self@.wf(),
    {
    }

    /// In a table without repeated names, the entry at position `i`
    /// resolves its own name.
    proof fn lemma_entry_resolves(&self, i: int)
        requires
            self.names_distinct(),
            0 <= i < self.names@.len(),
        ensures
            self@.ids.contains_key(self.names@[i].name@),
            self@.ids[self.names@[i].name@] == self.names@[i].ino,
            self@.order[i] == self.names@[i].name@,
    {
        let k = self.names@[i].name@;
        assert(self.names_entry(i, k));
        let c = choose|c: int| self.names_entry(c, k);
        assert(self.names_entry(c, k));
        assert(c == i);
    }

    /// A table without records or names.
    pub fn new() -> (table: InodeTable)
        ensures
            table.wf(),
            table@ == TableView::empty(),
    {
        let table = InodeTable { attrs: HashMap::new(), names: Vec::new(), next_ino: 2 };
        assert(table@.ids =~= Map::empty());
        assert(table@.order =~= Seq::empty());
        table
    }

    /// The position of `key` in the index, where it stands there.
    fn position(&self, key: &str) -> (found: Option<usize>)
        ensures
            match found {
                Some(i) => self.names_entry(i as int, key@),
                None => forall|i: int| !self.names_entry(i, key@),
            },
    {
        let wanted = String::from_str(key);
        let mut i: usize = 0;
        while i < self.names.len()
            invariant
                i <= self.names@.len(),
                wanted@ == key@,
                forall|j: int| 0 <= j < i ==> self.names@[j].name@ != key@,
            decreases self.names@.len() - i,
        {
            if self.names[i].name == wanted {
                return Some(i);
            }
            i = i + 1;
        }
        None
    }

    /// Sets the record of the root directory.
    pub fn set_root(&mut self, root: FileAttr)
        requires
            old(self).wf(),
            root.ino == ROOT_INO,
            root.kind == FileType::Directory,
        ensures
            final(self).wf(),
            final(self)@ == old(self)@.with_root(root),
    {
        self.attrs.insert(ROOT_INO, root);
        proof {
            assert(forall|i: int, k: Seq<char>| self.names_entry(i, k) == old(self).names_entry(i, k));
            assert(self@.ids =~= old(self)@.ids);
            assert(self@.order =~= old(self)@.order);
            assert(self@ == old(self)@.with_root(root));
        }
    }

    /// Starts an enumeration: all records and names are dropped, and the
    /// table holds the root's record alone, under the names `.` and `..`.
    pub fn reset(&mut self, root: FileAttr)
        requires
            root.ino == ROOT_INO,
            root.kind == FileType::Directory,
        ensures
            final(self).wf(),
            final(self)@ == TableView::reset(root),
    {
        let mut attrs: HashMap<u64, FileAttr> = HashMap::new();
        attrs.insert(ROOT_INO, root);
        let mut names: Vec<NameEntry> = Vec::new();
        names.push(NameEntry { name: String::from_str("."), ino: ROOT_INO });
        names.push(NameEntry { name: String::from_str(".."), ino: ROOT_INO });
        self.attrs = attrs;
        self.names = names;
        self.next_ino = FIRST_INO;
        proof {
            reveal_strlit(".");
            reveal_strlit("..");
            assert("."@.len() != ".."@.len());
            assert(self.names_distinct());
            self.lemma_entry_resolves(0);
            self.lemma_entry_resolves(1);
            let target = TableView::reset(root);
            assert forall|k: Seq<char>| self@.ids.contains_key(k) implies target.ids.contains_key(
                k,
            ) by {
                let i = choose|i: int| self.names_entry(i, k);
                assert(self.names_entry(i, k));
            }
            assert(self@.ids =~= target.ids);
            assert(self@.order =~= target.order);
            assert(self@.attrs =~= target.attrs);
            assert(self@ == target);
            TableView::lemma_reset_wf(root);
        }
    }

    /// Registers `key` with the attributes `attr` and returns the inode
    /// number that was handed out to it: the next in sequence. The record
    /// is stored with that number. A key that was registered before
    /// resolves to the new number from now on, at its old place in the
    /// index.
    pub fn assign(&mut self, key: String, attr: FileAttr) -> (id: u64)
        requires
            old(self).wf(),
            attr.kind == FileType::RegularFile,
            old(self)@.next < u64::MAX,
        ensures
            final(self).wf(),
            final(self)@ == old(self)@.assign(key@, attr),
            id == old(self)@.next,
            id != ROOT_INO,
    {
        let id: u64 = self.next_ino;
        let record = FileAttr { ino: id, ..attr };
        let found = self.position(key.as_str());
        let ghost name = key@;
        self.attrs.insert(id, record);
        match found {
            Some(i) => {
                self.names.set(i, NameEntry { name: key, ino: id });
            },
            None => {
                self.names.push(NameEntry { name: key, ino: id });
            },
        }
        self.next_ino = id + 1;
        proof {
            let before = old(self);
            let target = before@.assign(name, attr);
            assert(forall|j: int|
                0 <= j < before.names@.len() ==> self.names@[j].name@ == before.names@[j].name@);
            assert(before.names_distinct());
            assert forall|i: int, j: int|
                0 <= i < self.names@.len() && 0 <= j < self.names@.len() && i != j implies self.names@[i].name@
                != self.names@[j].name@ by {
                let n = before.names@.len() as int;
                if i < n && j < n {
                    assert(before.names@[i].name@ != before.names@[j].name@);
                } else if i < n {
                    assert(!before.names_entry(i, name));
                } else {
                    assert(!before.names_entry(j, name));
                }
            }
            assert(self.names_distinct());
            let at: int = match found {
                Some(i) => i as int,
                None => before.names@.len() as int,
            };
            assert(self.names_entry(at, name));
            self.lemma_entry_resolves(at);
            assert forall|k: Seq<char>| #[trigger]
                target.ids.contains_key(k) implies self@.ids.contains_key(k) && self@.ids[k]
                == target.ids[k] by {
                if k == name {
                } else {
                    let j = choose|j: int| before.names_entry(j, k);
                    assert(before.names_entry(j, k));
                    before.lemma_entry_resolves(j);
                    assert(self.names_entry(j, k));
                    self.lemma_entry_resolves(j);
                }
            }
            assert forall|k: Seq<char>| #[trigger]
                self@.ids.contains_key(k) implies target.ids.contains_key(k) by {
                let j = choose|j: int| self.names_entry(j, k);
                assert(self.names_entry(j, k));
                if k != name {
                    assert(before.names_entry(j, k));
                }
            }
            assert(self@.ids =~= target.ids);
            assert(before@.ids.contains_key(name) <==> found is Some) by {
                if found is Some {
                    assert(before.names_entry(at, name));
                }
            }
            assert(self@.order =~= target.order);
            assert(self@ == target);
            before@.lemma_assign_wf(name, attr);
        }
        proof {
            old(self).lemma_view_wf();
        }
        id
    }

    /// The attributes of an inode number, where the table has a record
    /// for it.
    pub fn attributes_of(&self, id: u64) -> (found: Option<FileAttr>)
        ensures
            found == self@.attributes_of(id),
    {
        match self.attrs.get(&id) {
            Some(attr) => Some(*attr),
            None => None,
        }
    }

    /// The inode number of a name, where the index holds the name.
    pub fn id_of(&self, key: &str) -> (found: Option<u64>)
        requires
            self.wf(),
        ensures
            found == self@.id_of(key@),
    {
        match self.position(key) {
            Some(i) => {
                proof {
                    self.lemma_entry_resolves(i as int);
                }
                Some(self.names[i].ino)
            },
            None => None,
        }
    }

    /// The name of an inode number: the first name of the index that
    /// resolves to it, where there is one.
    pub fn key_of(&self, id: u64) -> (found: Option<String>)
        requires
            self.wf(),
        ensures
            opt_text(found) == self@.key_of(id),
    {
        let mut i: usize = 0;
        while i < self.names.len()
            invariant
                self.wf(),
                i <= self.names@.len(),
                forall|j: int| 0 <= j < i ==> self.names@[j].ino != id,
            decreases self.names@.len() - i,
        {
            if self.names[i].ino == id {
                proof {
                    assert forall|j: int| 0 <= j <= i implies self@.ids[#[trigger] self@.order[j]]
                        == self.names@[j].ino by {
                        self.lemma_entry_resolves(j);
                    }
                    assert(self@.is_first_key(id, i as int));
                    let c = choose|c: int| self@.is_first_key(id, c);
                    assert(self@.is_first_key(id, c));
                    assert(c == i);
                }
                return Some(self.names[i].name.clone());
            }
            i = i + 1;
        }
        proof {
            assert forall|c: int| !self@.is_first_key(id, c) by {
                if 0 <= c < self.names@.len() {
                    self.lemma_entry_resolves(c);
                }
            }
        }
        None
    }
}

impl TableView {
    /// What the table answers after `key` was registered: the key resolves
    /// to the number that was handed out, and that number to the record
    /// that was passed in; every other name and every other number answers
    /// as before.
    pub proof fn lemma_assign_answers(self, key: Seq<char>, attr: FileAttr)
        ensures
            self.assign(key, attr).id_of(key) == Some(self.next),
            self.assign(key, attr).attributes_of(self.next) == Some(
                FileAttr { ino: self.next, ..attr },
            ),
            forall|k: Seq<char>| k != key ==> self.assign(key, attr).id_of(k) == self.id_of(k),
            forall|id: u64|
                id != self.next ==> self.assign(key, attr).attributes_of(id) == self.attributes_of(
                    id,
                ),
    {
    }

    /// In a well-formed table names and numbers lead to one another: the
    /// name that a number leads to resolves to that number, and a name that
    /// resolves to a number other than the root's is the name that the
    /// number leads to.
    pub proof fn lemma_names_round_trip(self, id: u64, key: Seq<char>)
        requires
            self.wf(),
        ensures
            self.key_of(id) == Some(key) ==> self.id_of(key) == Some(id),
            self.id_of(key) == Some(id) && id != ROOT_INO ==> self.key_of(id) == Some(key),
            self.id_of(key) == Some(id) ==> self.key_of(id) is Some && self.attributes_of(id) is Some,
    {
        if self.key_of(id) == Some(key) {
            let i = choose|i: int| self.is_first_key(id, i);
            assert(self.is_first_key(id, i));
            assert(self.order.contains(self.order[i]));
        }
        if self.id_of(key) == Some(id) {
            assert(self.order.contains(key));
            let j = choose|j: int| 0 <= j < self.order.len() && self.order[j] == key;
            self.lemma_first_key_exists(id, j);
            if id != ROOT_INO {
                let c = choose|c: int| self.is_first_key(id, c);
                assert(self.is_first_key(id, c));
                assert(self.order.contains(self.order[c]));
                assert(self.ids[self.order[c]] == self.ids[key]);
            }
        }
    }

    /// Where some name of the order up to position `j` resolves to `id`,
    /// there is a first such name.
    proof fn lemma_first_key_exists(self, id: u64, j: int)
        requires
            0 <= j < self.order.len(),
            self.ids[self.order[j]] == id,
        ensures
            exists|i: int| self.is_first_key(id, i),
        decreases j,
    {
        if forall|i: int| 0 <= i < j ==> self.ids[#[trigger] self.order[i]] != id {
            assert(self.is_first_key(id, j));
        } else {
            let i = choose|i: int| 0 <= i < j && self.ids[#[trigger] self.order[i]] == id;
            self.lemma_first_key_exists(id, i);
        }
    }

    /// The table at the start of an enumeration is well formed.
    pub proof fn lemma_reset_wf(root: FileAttr)
        requires
            root.ino == ROOT_INO,
            root.kind == FileType::Directory,
        ensures
            TableView::reset(root).wf(),
    {
        reveal_strlit(".");
        reveal_strlit("..");
        let t = TableView::reset(root);
        assert("."@.len() != ".."@.len());
        assert(t.order[0] == "."@ && t.order[1] == ".."@);
        assert forall|k: Seq<char>| t.ids.contains_key(k) <==> t.order.contains(k) by {
            if t.ids.contains_key(k) {
                if k == "."@ {
                    assert(t.order[0] == k);
                } else {
                    assert(t.order[1] == k);
                }
            }
        }
    }

    /// Registering a key keeps the table well formed.
    pub proof fn lemma_assign_wf(self, key: Seq<char>, attr: FileAttr)
        requires
            self.wf(),
            attr.kind == FileType::RegularFile,
            self.next < u64::MAX,
        ensures
            self.assign(key, attr).wf(),
    {
        let t = self.assign(key, attr);
        assert(forall|k: Seq<char>| #[trigger]
            self.ids.contains_key(k) ==> self.attrs.contains_key(self.ids[k]) && self.ids[k]
                != self.next);
        if !self.ids.contains_key(key) {
            assert(!self.order.contains(key));
            assert(t.order.last() == key);
            assert forall|i: int, j: int|
                0 <= i < t.order.len() && 0 <= j < t.order.len() && i != j implies t.order[i]
                != t.order[j] by {
                if i < self.order.len() {
                    assert(self.order.contains(self.order[i]));
                }
                if j < self.order.len() {
                    assert(self.order.contains(self.order[j]));
                }
            }
        }
        assert forall|k: Seq<char>| t.ids.contains_key(k) <==> t.order.contains(k) by {
            if t.ids.contains_key(k) {
                if self.ids.contains_key(k) {
                    assert(self.order.contains(k));
                    let i = choose|i: int| 0 <= i < self.order.len() && self.order[i] == k;
                    assert(t.order[i] == k);
                } else {
                    assert(k == key);
                    assert(t.order[t.order.len() - 1] == k);
                }
            }
            if t.order.contains(k) {
                let i = choose|i: int| 0 <= i < t.order.len() && t.order[i] == k;
                if i < self.order.len() {
                    assert(self.order.contains(self.order[i]));
                }
            }
        }
    }
}

} // verus!
