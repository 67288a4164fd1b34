//! The file sink: where received files are written.
//!
//! A file is received into a pre-allocated part target named after the final
//! path with `.part` appended.  Chunks land at their own offsets — positioned
//! writes on disjoint chunk indices commute, so any arrival order yields the
//! same bytes.  Once every chunk has landed the content is checksummed; only
//! on a match does the part target become the final file, otherwise it is
//! removed.  [`PartBuffer`] is the verified write model; the I/O shell mirrors
//! each of its steps onto the disk file addressed by a [`PartFile`].

use vstd::prelude::*;
use vstd::string::*;

use crate::checksum::{blake3_hex, blake3_hex_of};
use crate::errors::{AppError, AppResult};
use crate::source::{spec_chunk_offset, CHUNK_SIZE};

verus! {

/// Append `.part` to a final path to obtain its part-file path.
pub fn compute_part_path(final_path: &str) -> (r: String)
    ensures
        r@ == final_path@ + ".part"@,
{
    let mut s = final_path.to_owned();
    s.append(".part");
    s
}

/// Join a directory and a forward-slash relative path.
pub fn join_path(dir: &str, relative_path: &str) -> (r: String)
    ensures
        r@ == dir@ + "/"@ + relative_path@,
{
    let mut s = dir.to_owned();
    s.append("/");
    s.append(relative_path);
    proof {
        assert(s@ =~= dir@ + "/"@ + relative_path@);
    }
    s
}

/// Where received files are saved.
pub enum FileSink {
    /// A local directory, addressed by its native path.
    Path { save_dir: String },
}

/// The addressing of one part target: its temporary and final paths and its
/// declared size.  The bytes themselves live in a [`PartBuffer`] (or, in the
/// I/O shell, in the disk file at `part_path`).
#[derive(Debug)]
pub struct PartFile {
    /// Path of the temporary part target.
    pub part_path: String,
    /// Path the file moves to once its checksum verifies.
    pub final_path: String,
    /// Declared file size, fixed at creation.
    pub size: u64,
}

impl Clone for PartFile {
    fn clone(&self) -> (r: Self)
        ensures
            r == *self,
    {
        PartFile {
            part_path: self.part_path.clone(),
            final_path: self.final_path.clone(),
            size: self.size,
        }
    }
}

impl PartFile {
    /// Path of the temporary part target.
    pub fn part_path(&self) -> (r: &str)
        ensures
            r@ == self.part_path@,
    {
        self.part_path.as_str()
    }

    /// Path the file moves to once its checksum verifies.
    pub fn final_path(&self) -> (r: &str)
        ensures
            r@ == self.final_path@,
    {
        self.final_path.as_str()
    }

    /// Declared file size.
    pub fn size(&self) -> (r: u64)
        ensures
            r == self.size,
    {
        self.size
    }
}

impl FileSink {
    /// The sink's save directory, for contracts.
    pub open spec fn spec_save_dir(&self) -> Seq<char> {
        match self {
            FileSink::Path { save_dir } => save_dir@,
        }
    }

    /// Compute the part addressing of `relative_path` under this sink,
    /// without touching any file.
    pub fn build_part_file(&self, relative_path: &str, size: u64) -> (r: PartFile)
        ensures
            r.final_path@ == self.spec_save_dir() + "/"@ + relative_path@,
            r.part_path@ == self.spec_save_dir() + "/"@ + relative_path@ + ".part"@,
            r.size == size,
    {
        match self {
            FileSink::Path { save_dir } => {
                let final_path = join_path(save_dir.as_str(), relative_path);
                let part_path = compute_part_path(final_path.as_str());
                PartFile { part_path, final_path, size }
            },
        }
    }

    /// The directory shown to the user when a transfer completes.
    pub fn save_dir_display(&self) -> (r: &str)
        ensures
            r@ == self.spec_save_dir(),
    {
        match self {
            FileSink::Path { save_dir } => save_dir.as_str(),
        }
    }

    /// Ask for write permission.  A local-directory sink needs none.
    pub fn ensure_permission(&self) -> (r: AppResult<()>)
        ensures
            r is Ok,
    {
        match self {
            FileSink::Path { .. } => Ok(()),
        }
    }
}

/// The life of a part target.
pub enum PartState {
    /// Created and writable.
    Open,
    /// Write handle closed; content fixed but not yet verified.
    Closed,
    /// Checksum verified; the content stands at the final path.
    Finalized,
    /// Removed (cleanup, or checksum mismatch); nothing remains.
    Removed,
}

/// The bytes of `f` after a positioned write of `d` at offset `off`: bytes
/// `[off, off + d.len())` are replaced, every other byte is untouched, and
/// the length never changes.
pub open spec fn spec_write_at(f: Seq<u8>, off: int, d: Seq<u8>) -> Seq<u8> {
    Seq::new(
        f.len(),
        |i: int|
            if off <= i < off + d.len() {
                d[i - off]
            } else {
                f[i]
            },
    )
}

/// The verified model of one part target: a pre-allocated byte buffer written
/// by positioned chunk writes and finalized through a checksum gate.
pub struct PartBuffer {
    size: u64,
    data: Vec<u8>,
    state: PartState,
}

impl PartBuffer {
    /// The buffer's bytes, for contracts.
    pub closed spec fn contents(&self) -> Seq<u8> {
        self.data@
    }

    /// The buffer's declared size, for contracts.
    pub closed spec fn spec_size(&self) -> u64 {
        self.size
    }

    /// The buffer's state, for contracts.
    pub closed spec fn spec_state(&self) -> PartState {
        self.state
    }

    /// A part buffer always holds exactly its declared size in bytes.
    pub open spec fn wf(&self) -> bool {
        self.contents().len() == self.spec_size()
    }

    /// The bytes written so far.
    pub fn contents_bytes(&self) -> (r: &Vec<u8>)
        ensures
            r@ == self.contents(),
    {
        &self.data
    }

    /// Whether the part target has been finalized.
    pub fn is_finalized(&self) -> (r: bool)
        ensures
            r == (self.spec_state() is Finalized),
    {
        match self.state {
            PartState::Finalized => true,
            _ => false,
        }
    }

    /// Whether the part target has been removed.
    pub fn is_removed(&self) -> (r: bool)
        ensures
            r == (self.spec_state() is Removed),
    {
        match self.state {
            PartState::Removed => true,
            _ => false,
        }
    }

    /// Create a part target of exactly `size` bytes, zero-filled, open for
    /// writing.  Pre-allocation is not best-effort: a real sink that cannot
    /// allocate `size` bytes fails creation instead.
    pub fn create(size: u64) -> (r: Self)
        requires
            size <= usize::MAX,
        ensures
            r.wf(),
            r.spec_size() == size,
            r.spec_state() is Open,
            r.contents() == Seq::new(size as nat, |i: int| 0u8),
    {
        let n = size as usize;
        let mut data: Vec<u8> = Vec::new();
        while data.len() < n
            invariant
                data@.len() <= n,
                data@ == Seq::new(data@.len(), |i: int| 0u8),
            decreases n - data@.len(),
        {
            data.push(0);
            proof {
                assert(data@ =~= Seq::new(data@.len(), |i: int| 0u8));
            }
        }
        proof {
            assert(data@ =~= Seq::new(size as nat, |i: int| 0u8));
        }
        PartBuffer { size, data, state: PartState::Open }
    }

    /// Positioned write of one chunk at `chunk_index · CHUNK_SIZE`.  Touches
    /// only the bytes `[offset, offset + data.len())`; never moves a shared
    /// cursor, so writes to distinct chunk indices commute.  Fails on a
    /// closed target and on a write past the declared size.
    pub fn write_chunk(&mut self, chunk_index: u32, data: &[u8]) -> (r: AppResult<()>)
        requires
            old(self).wf(),
        ensures
            final(self).wf(),
            ({
                let off = spec_chunk_offset(chunk_index as int);
                &&& (old(self).spec_state() is Open && off + data@.len() <= old(self).spec_size())
                    ==> (r is Ok && final(self).contents() == spec_write_at(
                    old(self).contents(),
                    off,
                    data@,
                ))
                &&& !(old(self).spec_state() is Open) ==> (r matches Err(e) && e is Transfer)
                &&& (old(self).spec_state() is Open && off + data@.len() > old(self).spec_size())
                    ==> (r matches Err(e) && e is Transfer)
                &&& r is Err ==> final(self).contents() == old(self).contents()
                &&& final(self).spec_size() == old(self).spec_size()
                &&& final(self).spec_state() == old(self).spec_state()
            }),
    {
        match self.state {
            PartState::Open => {},
            _ => {
                return Err(AppError::Transfer(String::from_str("write handle closed")));
            },
        }
        proof {
            assert((chunk_index as int) * (CHUNK_SIZE as int) <= 0xFFFF_FFFF * 262144int)
                by (nonlinear_arith)
                requires
                    chunk_index <= 0xFFFF_FFFFu32,
            ;
        }
        let offset: u64 = (chunk_index as u64) * CHUNK_SIZE;
        if self.data.len() < data.len() || (offset > (self.data.len() - data.len()) as u64) {
            return Err(AppError::Transfer(String::from_str("write past declared size")));
        }
        let off: usize = offset as usize;
        let mut j: usize = 0;
        while j < data.len()
            invariant
                off + data@.len() <= self.data.len(),
                j <= data@.len(),
                self.data@.len() == old(self).data@.len(),
                self.size == old(self).size,
                self.state == old(self).state,
                forall|k: int|
                    0 <= k < self.data@.len() ==> self.data@[k] == if off <= k < off + j {
                        data@[k - off]
                    } else {
                        old(self).data@[k]
                    },
            decreases data@.len() - j,
        {
            self.data[off + j] = data[j];
            j = j + 1;
        }
        proof {
            assert(self.data@ =~= spec_write_at(
                old(self).data@,
                spec_chunk_offset(chunk_index as int),
                data@,
            ));
        }
        Ok(())
    }

    /// Close the write handle.  Idempotent; after it no chunk write is
    /// accepted any more.
    pub fn close_write_handle(&mut self)
        ensures
            final(self).contents() == old(self).contents(),
            final(self).spec_size() == old(self).spec_size(),
            (old(self).spec_state() is Open || old(self).spec_state() is Closed) ==> final(self).spec_state() is Closed,
            !(old(self).spec_state() is Open || old(self).spec_state() is Closed) ==> final(self).spec_state() == old(self).spec_state(),
    {
        match self.state {
            PartState::Open | PartState::Closed => {
                self.state = PartState::Closed;
            },
            _ => {},
        }
    }

    /// The checksum gate: recompute the BLAKE3 hex of the written content and
    /// compare it, case-sensitively, with `expected_hex`.  On a match the
    /// part target becomes the final file; on a mismatch it is removed and a
    /// checksum-mismatch error is returned.
    pub fn verify_and_finalize(&mut self, expected_hex: &str) -> (r: AppResult<()>)
        ensures
            (old(self).spec_state() is Open || old(self).spec_state() is Closed) ==> {
                &&& blake3_hex_of(old(self).contents()) == expected_hex@ ==> (r is Ok && final(self).spec_state() is Finalized)
                &&& blake3_hex_of(old(self).contents()) != expected_hex@ ==> (r matches Err(e)
                    && e is Transfer && final(self).spec_state() is Removed)
            },
            !(old(self).spec_state() is Open || old(self).spec_state() is Closed) ==> (r
                matches Err(e) && e is Transfer && final(self).spec_state() == old(self).spec_state()),
            final(self).contents() == old(self).contents(),
            final(self).spec_size() == old(self).spec_size(),
    {
        match self.state {
            PartState::Open | PartState::Closed => {},
            _ => {
                return Err(AppError::Transfer(String::from_str("part target already settled")));
            },
        }
        self.state = PartState::Closed;
        let actual = blake3_hex(self.data.as_slice());
        let expected = expected_hex.to_owned();
        if actual == expected {
            self.state = PartState::Finalized;
            Ok(())
        } else {
            self.state = PartState::Removed;
            Err(AppError::Transfer(String::from_str("checksum mismatch")))
        }
    }

    /// Remove the part target unless it has already been finalized.
    /// Idempotent and silent: used on cancel and on failure.
    pub fn cleanup(&mut self)
        ensures
            final(self).contents() == old(self).contents(),
            final(self).spec_size() == old(self).spec_size(),
            old(self).spec_state() is Finalized ==> final(self).spec_state() is Finalized,
            !(old(self).spec_state() is Finalized) ==> final(self).spec_state() is Removed,
    {
        match self.state {
            PartState::Finalized => {},
            _ => {
                self.state = PartState::Removed;
            },
        }
    }
}

/// Positioned writes on disjoint chunk indices commute: over any byte
/// string, writing chunk `i` then chunk `j` leaves the same bytes as writing
/// chunk `j` then chunk `i`, so any interleaving of chunk writes equals any
/// serial order.
pub proof fn lemma_write_chunk_commutes(f: Seq<u8>, i: int, j: int, di: Seq<u8>, dj: Seq<u8>)
    requires
        i != j,
        0 <= i,
        0 <= j,
        di.len() <= CHUNK_SIZE,
        dj.len() <= CHUNK_SIZE,
    ensures
        spec_write_at(spec_write_at(f, spec_chunk_offset(i), di), spec_chunk_offset(j), dj)
            =~= spec_write_at(spec_write_at(f, spec_chunk_offset(j), dj), spec_chunk_offset(i), di),
{
    let oi = spec_chunk_offset(i);
    let oj = spec_chunk_offset(j);
    assert(oi + CHUNK_SIZE <= oj || oj + CHUNK_SIZE <= oi) by {
        if i < j {
            assert((i + 1) * (CHUNK_SIZE as int) <= j * (CHUNK_SIZE as int)) by (nonlinear_arith)
                requires
                    i + 1 <= j,
            ;
        } else {
            assert((j + 1) * (CHUNK_SIZE as int) <= i * (CHUNK_SIZE as int)) by (nonlinear_arith)
                requires
                    j + 1 <= i,
            ;
        }
    }
}

} // verus!
