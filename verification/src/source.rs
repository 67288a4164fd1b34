//! File sources and chunk arithmetic.
//!
//! A file travels as a sequence of fixed-size chunks (the final chunk may be
//! short); an empty file still occupies exactly one empty chunk.  This module
//! holds the chunk arithmetic and the description of where a file's bytes
//! come from; the actual disk reads are performed by the I/O shell.

use vstd::prelude::*;
use vstd::string::*;

use crate::errors::{AppError, AppResult};

verus! {

/// Size of one plaintext chunk: 256 KiB.
pub const CHUNK_SIZE: u64 = 262144;

/// Largest file size whose chunk count still fits in a `u32`.
pub const MAX_FILE_SIZE: u64 = 0xFFFF_FFFF * 262144;

/// Chunk count of a file of `n` bytes: `ceil(n / CHUNK_SIZE)`, except that an
/// empty file has one chunk.
pub open spec fn spec_total_chunks(n: int) -> int {
    if n == 0 {
        1
    } else {
        (n + CHUNK_SIZE - 1) / CHUNK_SIZE as int
    }
}

/// Byte offset at which chunk `i` starts.
pub open spec fn spec_chunk_offset(i: int) -> int {
    i * CHUNK_SIZE
}

/// Plaintext length of chunk `i` of a file of `n` bytes.
pub open spec fn spec_chunk_len(n: int, i: int) -> int {
    if n == 0 {
        0
    } else if n - spec_chunk_offset(i) < CHUNK_SIZE {
        n - spec_chunk_offset(i)
    } else {
        CHUNK_SIZE as int
    }
}

/// Number of chunks a file of `file_size` bytes is carried in.
pub fn calc_total_chunks(file_size: u64) -> (r: u32)
    requires
        file_size <= MAX_FILE_SIZE,
    ensures
        r as int == spec_total_chunks(file_size as int),
        r >= 1,
        file_size == 0 ==> r == 1,
{
    if file_size == 0 {
        1
    } else {
        let q = file_size / CHUNK_SIZE;
        let rem = file_size % CHUNK_SIZE;
        let total: u64 = if rem == 0 {
            q
        } else {
            q + 1
        };
        proof {
            lemma_div_ceil(file_size as int, CHUNK_SIZE as int);
        }
        total as u32
    }
}

/// For positive `n` and `c`, `(n + c - 1) / c` equals `n / c`, plus one when
/// `c` does not divide `n`.
proof fn lemma_div_ceil(n: int, c: int)
    requires
        n > 0,
        c > 0,
    ensures
        (n + c - 1) / c == n / c + if n % c == 0 {
            0int
        } else {
            1int
        },
{
    let q = n / c;
    let r = n % c;
    vstd::arithmetic::div_mod::lemma_fundamental_div_mod(n, c);
    vstd::arithmetic::div_mod::lemma_mod_bound(n, c);
    if r == 0 {
        assert((n + c - 1) == q * c + (c - 1));
        vstd::arithmetic::div_mod::lemma_div_multiples_vanish_fancy(q, c - 1, c);
    } else {
        assert((n + c - 1) == (q + 1) * c + (r - 1)) by (nonlinear_arith)
            requires
                n == q * c + r,
        ;
        vstd::arithmetic::div_mod::lemma_div_multiples_vanish_fancy(q + 1, r - 1, c);
    }
}

/// Where a file's bytes come from.  A platform that addresses files through
/// content URIs rather than native paths carries the URI in the same string.
#[derive(Debug, Clone)]
pub enum FileSource {
    /// A native file-system path.
    Path { path: String },
}

/// Metadata of a file or directory as the I/O shell reports it.
#[derive(Debug, Clone)]
pub struct FileSourceMetadata {
    /// File or directory name.
    pub name: String,
    /// File size in bytes; zero for a directory.
    pub size: u64,
    /// Whether the entry is a directory.
    pub is_dir: bool,
}

/// One file found by enumerating a source, with its transfer-relative path.
#[derive(Debug, Clone)]
pub struct EnumeratedFile {
    /// File name.
    pub name: String,
    /// Forward-slash relative path within the transfer.
    pub relative_path: String,
    /// Where the file's bytes come from.
    pub source: FileSource,
    /// File size in bytes.
    pub size: u64,
}

/// The byte range a chunk read must cover: `(offset, length)`.
///
/// Mirrors the positioned read discipline: an empty file reads an empty
/// chunk, an offset at or past the end of a non-empty file is rejected, and
/// the final chunk is short.
pub fn chunk_span(file_size: u64, chunk_index: u32) -> (r: AppResult<(u64, u64)>)
    requires
        file_size <= MAX_FILE_SIZE,
    ensures
        file_size == 0 ==> (r matches Ok(s) && s == (0u64, 0u64)),
        file_size > 0 && spec_chunk_offset(chunk_index as int) >= file_size ==> (r
            matches Err(e) && e is Transfer),
        file_size > 0 && spec_chunk_offset(chunk_index as int) < file_size ==> (r matches Ok(s)
            && s.0 == spec_chunk_offset(chunk_index as int) && s.1 == spec_chunk_len(
            file_size as int,
            chunk_index as int,
        )),
{
    if file_size == 0 {
        return Ok((0, 0));
    }
    proof {
        assert((chunk_index as int) * (CHUNK_SIZE as int) <= 0xFFFF_FFFF * 262144int)
            by (nonlinear_arith)
            requires
                chunk_index <= 0xFFFF_FFFFu32,
        ;
    }
    let offset: u64 = (chunk_index as u64) * CHUNK_SIZE;
    if offset >= file_size {
        return Err(AppError::Transfer(String::from_str("chunk index out of range")));
    }
    let remaining = file_size - offset;
    let len = if remaining < CHUNK_SIZE {
        remaining
    } else {
        CHUNK_SIZE
    };
    Ok((offset, len))
}

} // verus!
