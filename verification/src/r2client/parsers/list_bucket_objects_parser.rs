//! One page of the object listing of a bucket.

use vstd::prelude::*;

verus! {

/// The decoded answer to an object listing request: one page of entries and
/// the paging data that came with it.
#[derive(Debug)]
pub struct ListBucketObjectsResult {
    /// The bucket's name.
    pub name: String,
    pub contents: Vec<Content>,
    pub is_truncated: bool,
    pub max_keys: i32,
    pub key_count: i32,
}

/// A single object of the bucket.
#[derive(Debug)]
pub struct Content {
    pub key: String,
    pub size: i64,
    /// RFC 3339 text of the last modification.
    pub last_modified: String,
    pub etag: String,
    pub storage_class: String,
}

/// The character that separates the levels of a key's hierarchy.
pub open spec fn separator() -> char {
    '/'
}

/// Whether a key lies below the top level of the bucket.
pub open spec fn is_nested(key: Seq<char>) -> bool {
    key.contains(separator())
}

impl Content {
    /// Whether the object lies below the top level of the bucket, that is,
    /// whether its key holds a separator.
    pub fn nested(&self) -> (r: bool)
        ensures
            r == is_nested(self.key@),
    {
        let key: &str = self.key.as_str();
        let mut found: bool = false;
        for c in it: key.chars()
            invariant
                it.seq() == key@,
                found == exists|j: int| 0 <= j < it.index() && #[trigger] key@[j] == '/',
        {
            if c == '/' {
                found = true;
            }
        }
        found
    }
}

} // verus!
