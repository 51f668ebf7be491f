//! An engine for ZIP archives: it gathers entries from source paths, writes
//! them into new or existing archives under a compression policy, lists
//! archives, and takes entries out of them without leaving the destination
//! directory.
//!
//! The library works on plain values. Archives are byte vectors, paths are
//! strings, and what the file system holds is reported by the caller; nothing
//! here opens a file.

pub mod append;
pub mod cli;
pub mod codec;
pub mod compression;
pub mod error;
pub mod extraction;
pub mod gather;
pub mod listing;
pub mod names;
pub mod paths;
pub mod session;
pub mod settings;
pub mod text;

pub use crate::append::LoadedEntry;
pub use crate::error::RzError;
pub use crate::extraction::ExtractedEntry;
pub use crate::gather::{OsFileEntry, SourceScan, WalkedEntry};
pub use crate::listing::RzEntry;
pub use crate::session::Rz;
pub use crate::settings::{CompressionMethod, RzSettings};
