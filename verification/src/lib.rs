//! Index data model of a content-addressed, deduplicating repository.
//!
//! An index revision records which blobs live in which packs, at which byte
//! offset, and which earlier revisions it replaces. Nothing here reads or
//! writes storage: the types are plain values, and every function carries a
//! contract over their mathematical views.

pub mod blob;
pub mod file;
pub mod id;
pub mod pack;

pub use blob::{sort_blobs, BlobType, IndexBlob};
pub use file::{FileType, IndexFile, IndexRecord};
pub use id::Id;
pub use pack::IndexPack;
