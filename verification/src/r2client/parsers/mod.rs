//! The typed records that the two listing responses decode into.

pub mod list_bucket_objects_parser;
pub mod list_buckets_parser;
