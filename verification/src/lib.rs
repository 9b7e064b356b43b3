//! Batches per-source data files into count-bounded ZIP archives and reverses
//! the process. The core is the batching engine: it partitions an ordered list
//! of files (or of grouped subfolders) into archives bounded by an entry-count
//! threshold, names each archive from its content range, and extracts archives
//! back into file lists. Catalog access, CLI parsing and all disk traffic live
//! outside the library and hand it plain values.

pub mod cli_reader;
pub mod config_reader;
pub mod err;
pub mod error_defs;
pub mod log_helper;
pub mod setup;
pub mod strutil;
pub mod unzipper;
pub mod zipfile;
pub mod zipper;

use vstd::prelude::*;

verus! {

/// One catalogued data source: its identifier, the database name that doubles
/// as the per-source subfolder name, a path hint, whether its files are
/// grouped into subfolders, and the optional power-of-ten grouping range used
/// on extraction.
pub struct SourceDetails {
    pub id: i32,
    pub database_name: String,
    pub local_folder: String,
    pub local_files_grouped: bool,
    pub grouping_range_by_id: Option<i32>,
}

} // verus!
