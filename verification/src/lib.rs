//! Selective extraction of whitelisted entries from zip, rar and 7z archives.
//!
//! The caller hands over raw archive bytes together with a format tag; the
//! library returns a mapping from in-archive entry name to entry bytes,
//! restricted to names that end with one of a fixed set of wanted suffixes.

pub mod archive;
pub mod file_map;
pub mod filter;
pub mod plan;
pub mod rar_driver;
pub mod select;
pub mod sevenz_driver;
pub mod zip_driver;
