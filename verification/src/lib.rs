//! A read-only view of an object-storage bucket as a flat directory.

pub mod dir;
pub mod error;
pub mod fs;
pub mod inode;
pub mod r2client;
pub mod read;
pub mod utils;
