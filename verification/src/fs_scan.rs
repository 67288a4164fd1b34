//! File-listing results.
//!
//! The shell walks directories and reads metadata; the shaping of what it
//! found into the listing the UI consumes happens here.

use vstd::prelude::*;

use crate::source::{EnumeratedFile, FileSource, FileSourceMetadata};

verus! {

/// One file found under a scanned path.
#[derive(Debug)]
pub struct FileEntry {
    /// Absolute path.
    pub path: String,
    /// File name.
    pub name: String,
    /// File size in bytes.
    pub size: u64,
}

/// The result of listing a path.
#[derive(Debug)]
pub struct ListFilesResult {
    /// Whether the listed path was a directory.
    pub is_directory: bool,
    /// Every file found (no directories).
    pub entries: Vec<FileEntry>,
    /// How many files were found.
    pub total_count: usize,
    /// Their sizes summed, saturating at the maximum.
    pub total_size: u64,
}

/// One prepared file as reported to the UI.
#[derive(Debug, Clone)]
pub struct TransferFileResult {
    pub file_id: u32,
    pub name: String,
    pub relative_path: String,
    pub size: u64,
    pub is_directory: bool,
}

/// The scan result of one source: its files, flattened, with their total.
#[derive(Debug)]
pub struct ScannedSourceResult {
    /// Whether the source was a directory.
    pub is_directory: bool,
    /// The files found, each carrying its source for the later hashing.
    pub files: Vec<EnumeratedFile>,
    /// Their sizes summed, saturating at the maximum.
    pub total_size: u64,
}

/// Sum of the listed sizes, saturating at `u64::MAX`.
pub open spec fn sum_entry_sizes_sat(s: Seq<FileEntry>) -> int
    decreases s.len(),
{
    if s.len() == 0 {
        0
    } else if sum_entry_sizes_sat(s.drop_last()) + s.last().size > u64::MAX {
        u64::MAX as int
    } else {
        sum_entry_sizes_sat(s.drop_last()) + s.last().size
    }
}

/// Sum of the enumerated sizes, saturating at `u64::MAX`.
pub open spec fn sum_enumerated_sizes_sat(s: Seq<EnumeratedFile>) -> int
    decreases s.len(),
{
    if s.len() == 0 {
        0
    } else if sum_enumerated_sizes_sat(s.drop_last()) + s.last().size > u64::MAX {
        u64::MAX as int
    } else {
        sum_enumerated_sizes_sat(s.drop_last()) + s.last().size
    }
}

/// Shape the files the shell found into a listing.
pub fn summarize_entries(is_directory: bool, entries: Vec<FileEntry>) -> (r: ListFilesResult)
    ensures
        r.is_directory == is_directory,
        r.entries@ == entries@,
        r.total_count == entries@.len(),
        r.total_size == sum_entry_sizes_sat(entries@),
{
    let mut total: u64 = 0;
    let mut k: usize = 0;
    while k < entries.len()
        invariant
            k <= entries@.len(),
            total == sum_entry_sizes_sat(entries@.take(k as int)),
        decreases entries@.len() - k,
    {
        proof {
            assert(entries@.take(k + 1).drop_last() =~= entries@.take(k as int));
            assert(entries@.take(k + 1).last() == entries@[k as int]);
        }
        let size = entries[k].size;
        if total > u64::MAX - size {
            total = u64::MAX;
        } else {
            total = total + size;
        }
        k = k + 1;
    }
    proof {
        assert(entries@.take(entries@.len() as int) =~= entries@);
    }
    let total_count = entries.len();
    ListFilesResult { is_directory, entries, total_count, total_size: total }
}

/// Shape an enumerated directory into a scan result.
pub fn scanned_dir_result(files: Vec<EnumeratedFile>) -> (r: ScannedSourceResult)
    ensures
        r.is_directory,
        r.files@ == files@,
        r.total_size == sum_enumerated_sizes_sat(files@),
{
    let mut total: u64 = 0;
    let mut k: usize = 0;
    while k < files.len()
        invariant
            k <= files@.len(),
            total == sum_enumerated_sizes_sat(files@.take(k as int)),
        decreases files@.len() - k,
    {
        proof {
            assert(files@.take(k + 1).drop_last() =~= files@.take(k as int));
            assert(files@.take(k + 1).last() == files@[k as int]);
        }
        let size = files[k].size;
        if total > u64::MAX - size {
            total = u64::MAX;
        } else {
            total = total + size;
        }
        k = k + 1;
    }
    proof {
        assert(files@.take(files@.len() as int) =~= files@);
    }
    ScannedSourceResult { is_directory: true, files, total_size: total }
}

/// Shape a single scanned file into a scan result: one entry whose relative
/// path is its own name.
pub fn scanned_file_result(meta: FileSourceMetadata, source: FileSource) -> (r:
    ScannedSourceResult)
    ensures
        !r.is_directory,
        r.total_size == meta.size,
        r.files@.len() == 1,
        r.files@[0].name@ == meta.name@,
        r.files@[0].relative_path@ == meta.name@,
        r.files@[0].size == meta.size,
{
    let mut files: Vec<EnumeratedFile> = Vec::new();
    files.push(
        EnumeratedFile {
            name: meta.name.clone(),
            relative_path: meta.name.clone(),
            source,
            size: meta.size,
        },
    );
    ScannedSourceResult { is_directory: false, files, total_size: meta.size }
}

} // verus!
