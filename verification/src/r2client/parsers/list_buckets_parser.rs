//! The bucket listing of an account.

use vstd::prelude::*;

verus! {

/// The decoded answer to a bucket listing request.
#[derive(Debug)]
pub struct ListAllMyBucketsResult {
    pub buckets: Buckets,
    pub owner: Owner,
}

/// The buckets of the account, in the order the store reported them.
#[derive(Debug)]
pub struct Buckets {
    pub bucket: Vec<Bucket>,
}

/// One bucket: its name and the RFC 3339 text of its creation time.
#[derive(Debug)]
pub struct Bucket {
    pub creation_date: String,
    pub name: String,
}

/// The account that owns the buckets.
#[derive(Debug)]
pub struct Owner {
    pub display_name: String,
    pub id: String,
}

impl ListAllMyBucketsResult {
    /// Whether the listing names at least one bucket, as the schema demands.
    pub open spec fn has_bucket(&self) -> bool {
        self.buckets.bucket@.len() > 0
    }

    /// The bucket that the listing names first.
    pub open spec fn first_bucket(&self) -> Bucket
        recommends
            self.has_bucket(),
    {
        self.buckets.bucket@[0]
    }
}

} // verus!
