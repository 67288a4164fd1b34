//! The sender session.
//!
//! One per outgoing transfer.  It serves chunk requests: locate the file,
//! plan the positioned read, encrypt what was read, account progress, and
//! answer with the chunk — or fail fast once cancelled.  The disk read
//! between planning and finishing is performed by the I/O shell.

use vstd::prelude::*;
use vstd::string::*;

use crate::crypto::{seal_of, spec_nonce, TransferCrypto};
use crate::errors::{AppError, AppResult};
use crate::progress::{
    FileDesc, ProgressTracker, TransferDirection, TransferProgressEvent,
};
use crate::protocol::TransferResponse;
use crate::source::{
    calc_total_chunks, chunk_span, spec_chunk_len, spec_chunk_offset, spec_total_chunks,
    FileSource, MAX_FILE_SIZE,
};

verus! {

/// One file of a prepared transfer, with its source and checksum.
#[derive(Debug)]
pub struct PreparedFile {
    /// Dense identifier, assigned from zero.
    pub file_id: u32,
    /// File name.
    pub name: String,
    /// Forward-slash relative path.
    pub relative_path: String,
    /// Where the file's bytes come from.
    pub source: FileSource,
    /// File size in bytes.
    pub size: u64,
    /// BLAKE3 checksum of the whole file, in hex.
    pub checksum: String,
}

impl Clone for PreparedFile {
    fn clone(&self) -> (r: Self)
        ensures
            r == *self,
    {
        PreparedFile {
            file_id: self.file_id,
            name: self.name.clone(),
            relative_path: self.relative_path.clone(),
            source: match &self.source {
                FileSource::Path { path } => FileSource::Path { path: path.clone() },
            },
            size: self.size,
            checksum: self.checksum.clone(),
        }
    }
}

/// Sum of the sizes of a prepared file list.
pub open spec fn sum_prepared_sizes(s: Seq<PreparedFile>) -> int
    decreases s.len(),
{
    if s.len() == 0 {
        0
    } else {
        sum_prepared_sizes(s.drop_last()) + s.last().size
    }
}

/// Every prepared file is within the size limit.
pub open spec fn prepared_sizes_ok(s: Seq<PreparedFile>) -> bool {
    &&& forall|i: int| 0 <= i < s.len() ==> (#[trigger] s[i]).size <= MAX_FILE_SIZE
    &&& sum_prepared_sizes(s) <= u64::MAX
}

/// First position of `file_id` among the prepared files, or the length.
pub open spec fn find_prepared(s: Seq<PreparedFile>, file_id: u32) -> int
    decreases s.len(),
{
    if s.len() == 0 {
        0
    } else if s.first().file_id == file_id {
        0
    } else {
        1 + find_prepared(s.drop_first(), file_id)
    }
}

/// `find_prepared` names the first entry carrying the id, if any.
pub proof fn lemma_find_prepared(s: Seq<PreparedFile>, file_id: u32)
    ensures
        0 <= find_prepared(s, file_id) <= s.len(),
        find_prepared(s, file_id) < s.len() ==> s[find_prepared(s, file_id)].file_id == file_id,
        (exists|i: int| 0 <= i < s.len() && (#[trigger] s[i]).file_id == file_id)
            ==> find_prepared(s, file_id) < s.len(),
    decreases s.len(),
{
    if s.len() > 0 && s.first().file_id != file_id {
        lemma_find_prepared(s.drop_first(), file_id);
        if exists|i: int| 0 <= i < s.len() && (#[trigger] s[i]).file_id == file_id {
            let i = choose|i: int| 0 <= i < s.len() && (#[trigger] s[i]).file_id == file_id;
            assert(s.drop_first()[i - 1].file_id == file_id);
        }
    }
}

/// What the I/O shell must read to serve one chunk request.
#[derive(Debug)]
pub struct ChunkReadPlan {
    /// Where the file's bytes come from.
    pub source: FileSource,
    /// Byte offset of the chunk.
    pub offset: u64,
    /// Exact number of bytes to read.
    pub len: u64,
}

/// A sender session: the prepared files it serves, the session cipher, the
/// cancel flag and the progress tracker.
pub struct SendSession {
    session_id: u128,
    files: Vec<PreparedFile>,
    crypto: TransferCrypto,
    cancelled: bool,
    started_at_ms: u64,
    progress: ProgressTracker,
}

impl SendSession {
    /// The session identifier, for contracts.
    pub closed spec fn spec_session_id(&self) -> u128 {
        self.session_id
    }

    /// The served files, for contracts.
    pub closed spec fn spec_files(&self) -> Seq<PreparedFile> {
        self.files@
    }

    /// The session key, for contracts.
    pub closed spec fn spec_key(&self) -> Seq<u8> {
        self.crypto.spec_key()
    }

    /// Whether the session has been cancelled, for contracts.
    pub closed spec fn spec_cancelled(&self) -> bool {
        self.cancelled
    }

    /// The progress tracker, for contracts.
    pub closed spec fn spec_progress(&self) -> ProgressTracker {
        self.progress
    }

    /// The session invariant.
    pub open spec fn wf(&self) -> bool {
        &&& self.spec_progress().wf()
        &&& prepared_sizes_ok(self.spec_files())
    }

    /// A fresh sender session over the selected prepared files, keyed with
    /// the session key the receiver generated.
    pub fn new(
        session_id: u128,
        files: Vec<PreparedFile>,
        key: &[u8; 32],
        now_ms: u64,
    ) -> (r: Self)
        requires
            prepared_sizes_ok(files@),
        ensures
            r.wf(),
            r.spec_session_id() == session_id,
            r.spec_files() == files@,
            r.spec_key() == key@,
            !r.spec_cancelled(),
    {
        let mut descs: Vec<FileDesc> = Vec::new();
        let mut k: usize = 0;
        while k < files.len()
            invariant
                k <= files@.len(),
                descs@.len() == k,
                prepared_sizes_ok(files@),
                forall|i: int|
                    0 <= i < k ==> {
                        let d = #[trigger] descs@[i];
                        &&& d.file_id == files@[i].file_id
                        &&& d.size == files@[i].size
                    },
                crate::progress::sum_desc_sizes(descs@) == sum_prepared_sizes(
                    files@.take(k as int),
                ),
            decreases files@.len() - k,
        {
            let f = &files[k];
            let ghost before = descs@;
            descs.push(FileDesc { file_id: f.file_id, name: f.name.clone(), size: f.size });
            proof {
                assert(descs@.drop_last() =~= before);
                assert(files@.take(k + 1).drop_last() =~= files@.take(k as int));
                assert(files@.take(k + 1).last() == files@[k as int]);
            }
            k = k + 1;
        }
        proof {
            assert(files@.take(files@.len() as int) =~= files@);
            lemma_sum_prepared_take_le(files@, files@.len() as int);
        }
        let total = files.len();
        let mut progress = ProgressTracker::new(
            session_id,
            TransferDirection::Send,
            0,
            total,
            now_ms,
        );
        progress.init_files(&descs);
        SendSession {
            session_id,
            files,
            crypto: TransferCrypto::new(key),
            cancelled: false,
            started_at_ms: now_ms,
            progress,
        }
    }

    /// Plan the positioned read for a chunk request: fail once cancelled,
    /// on an unknown file id, and on a chunk index past the end; otherwise
    /// name the exact byte range the shell must read.
    pub fn plan_chunk(&self, file_id: u32, chunk_index: u32) -> (r: AppResult<ChunkReadPlan>)
        requires
            self.wf(),
        ensures
            self.spec_cancelled() ==> (r matches Err(e) && e is Transfer),
            ({
                let i = find_prepared(self.spec_files(), file_id);
                &&& (!self.spec_cancelled() && i == self.spec_files().len()) ==> (r matches Err(e)
                    && e is Transfer)
                &&& (!self.spec_cancelled() && i < self.spec_files().len()) ==> {
                    let f = self.spec_files()[i];
                    &&& (f.size > 0 && spec_chunk_offset(chunk_index as int) >= f.size) ==> (r
                        matches Err(e) && e is Transfer)
                    &&& (f.size == 0 ==> (r matches Ok(p) && p.offset == 0 && p.len == 0))
                    &&& ((f.size > 0 && spec_chunk_offset(chunk_index as int) < f.size) ==> (r
                        matches Ok(p) && p.offset == spec_chunk_offset(chunk_index as int)
                        && p.len == spec_chunk_len(f.size as int, chunk_index as int)))
                }
            }),
    {
        if self.cancelled {
            return Err(AppError::Transfer(String::from_str("transfer cancelled")));
        }
        let mut k: usize = 0;
        let n = self.files.len();
        while k < n
            invariant
                self.wf(),
                !self.spec_cancelled(),
                n == self.spec_files().len(),
                k <= n,
                forall|i: int| 0 <= i < k ==> (#[trigger] self.spec_files()[i]).file_id != file_id,
            decreases n - k,
        {
            if self.files[k].file_id == file_id {
                proof {
                    lemma_find_prepared_prefix(self.spec_files(), file_id, k as int);
                    assert(self.spec_files()[k as int].size <= MAX_FILE_SIZE);
                }
                let f = &self.files[k];
                let (offset, len) = match chunk_span(f.size, chunk_index) {
                    Ok(span) => span,
                    Err(e) => {
                        return Err(e);
                    },
                };
                let source = match &f.source {
                    FileSource::Path { path } => FileSource::Path { path: path.clone() },
                };
                return Ok(ChunkReadPlan { source, offset, len });
            }
            k = k + 1;
        }
        proof {
            lemma_find_prepared(self.spec_files(), file_id);
            assert(find_prepared(self.spec_files(), file_id) == self.spec_files().len());
        }
        Err(AppError::Transfer(String::from_str("unknown file id")))
    }

    /// Turn the plaintext the shell read into the chunk response: encrypt
    /// under the nonce of `(session, file, chunk)`, account progress, and
    /// mark the final chunk of the file.
    pub fn finish_chunk(
        &mut self,
        file_id: u32,
        chunk_index: u32,
        plaintext: &[u8],
        now_ms: u64,
    ) -> (r: AppResult<(TransferResponse, Option<TransferProgressEvent>)>)
        requires
            old(self).wf(),
            plaintext@.len() <= crate::source::CHUNK_SIZE,
        ensures
            final(self).wf(),
            final(self).spec_session_id() == old(self).spec_session_id(),
            final(self).spec_files() == old(self).spec_files(),
            final(self).spec_key() == old(self).spec_key(),
            final(self).spec_cancelled() == old(self).spec_cancelled(),
            final(self).spec_progress().spec_transferred() >= old(
                self,
            ).spec_progress().spec_transferred(),
            r is Ok ==> final(self).spec_progress().spec_transferred() == old(
                self,
            ).spec_progress().spec_transferred() + crate::progress::spec_chunk_gain(
                old(self).spec_progress().spec_files(),
                file_id,
                plaintext@.len() as u64,
            ),
            r is Err ==> final(self).spec_progress().spec_transferred() == old(
                self,
            ).spec_progress().spec_transferred(),
            old(self).spec_cancelled() ==> (r matches Err(e) && e is Transfer),
            ({
                let i = find_prepared(old(self).spec_files(), file_id);
                &&& (!old(self).spec_cancelled() && i == old(self).spec_files().len()) ==> (r
                    matches Err(e) && e is Transfer)
                &&& (!old(self).spec_cancelled() && i < old(self).spec_files().len()) ==> (r
                    matches Ok(out) && out.0 matches TransferResponse::Chunk {
                        session_id,
                        file_id: fid,
                        chunk_index: cidx,
                        data,
                        is_last,
                    } && session_id == old(self).spec_session_id() && fid == file_id && cidx
                    == chunk_index && data@ == seal_of(
                    old(self).spec_key(),
                    spec_nonce(old(self).spec_session_id(), file_id, chunk_index),
                    plaintext@,
                ) && is_last == (chunk_index + 1 >= spec_total_chunks(
                    old(self).spec_files()[i].size as int,
                )))
            }),
    {
        if self.cancelled {
            return Err(AppError::Transfer(String::from_str("transfer cancelled")));
        }
        let mut k: usize = 0;
        let n = self.files.len();
        while k < n
            invariant
                self == old(self),
                old(self).wf(),
                !old(self).spec_cancelled(),
                plaintext@.len() <= crate::source::CHUNK_SIZE,
                n == self.spec_files().len(),
                k <= n,
                forall|i: int| 0 <= i < k ==> (#[trigger] self.spec_files()[i]).file_id != file_id,
            decreases n - k,
        {
            if self.files[k].file_id == file_id {
                proof {
                    lemma_find_prepared_prefix(self.spec_files(), file_id, k as int);
                    assert(self.spec_files()[k as int].size <= MAX_FILE_SIZE);
                }
                let size = self.files[k].size;
                let data = match self.crypto.encrypt_chunk(
                    self.session_id,
                    file_id,
                    chunk_index,
                    plaintext,
                ) {
                    Ok(d) => d,
                    Err(e) => {
                        return Err(e);
                    },
                };
                let plaintext_len = plaintext.len() as u64;
                self.progress.update_file_chunk(file_id, plaintext_len);
                let event = self.progress.emit_progress(now_ms);
                let total_chunks = calc_total_chunks(size);
                let is_last = chunk_index >= total_chunks - 1;
                let response = TransferResponse::Chunk {
                    session_id: self.session_id,
                    file_id,
                    chunk_index,
                    data,
                    is_last,
                };
                return Ok((response, event));
            }
            k = k + 1;
        }
        proof {
            lemma_find_prepared(self.spec_files(), file_id);
        }
        Err(AppError::Transfer(String::from_str("unknown file id")))
    }

    /// Total bytes served so far.
    pub fn total_bytes_sent(&self) -> (r: u64)
        ensures
            r == self.spec_progress().spec_transferred(),
    {
        self.progress.transferred_bytes()
    }

    /// Milliseconds since the session started, given the time now.
    pub fn elapsed_ms(&self, now_ms: u64) -> (r: u64)
        ensures
            r <= now_ms,
    {
        if now_ms >= self.started_at_ms {
            now_ms - self.started_at_ms
        } else {
            0
        }
    }

    /// The peer finished pulling; nothing to do but let the manager drop
    /// the session.
    pub fn handle_complete(&self) {
    }

    /// The peer cancelled: refuse all further chunk requests.
    pub fn handle_cancel(&mut self)
        ensures
            final(self).spec_cancelled(),
            final(self).spec_files() == old(self).spec_files(),
            final(self).spec_session_id() == old(self).spec_session_id(),
            old(self).wf() ==> final(self).wf(),
    {
        self.cancelled = true;
    }

    /// Cancel from this side: refuse all further chunk requests.
    pub fn cancel(&mut self)
        ensures
            final(self).spec_cancelled(),
            final(self).spec_files() == old(self).spec_files(),
            final(self).spec_session_id() == old(self).spec_session_id(),
            old(self).wf() ==> final(self).wf(),
    {
        self.cancelled = true;
    }
}

/// A prefix sum of prepared sizes never exceeds the whole sum.
pub proof fn lemma_sum_prepared_take_le(s: Seq<PreparedFile>, k: int)
    requires
        0 <= k <= s.len(),
    ensures
        sum_prepared_sizes(s.take(k)) <= sum_prepared_sizes(s),
        sum_prepared_sizes(s.take(k)) >= 0,
    decreases s.len() - k,
{
    if k == s.len() {
        assert(s.take(k) =~= s);
        lemma_sum_prepared_nonneg(s);
    } else {
        lemma_sum_prepared_take_le(s, k + 1);
        assert(s.take(k + 1).drop_last() =~= s.take(k));
        assert(sum_prepared_sizes(s.take(k + 1)) == sum_prepared_sizes(s.take(k)) + s[k].size);
        lemma_sum_prepared_nonneg(s.take(k));
    }
}

/// Prepared-size sums are non-negative.
pub proof fn lemma_sum_prepared_nonneg(s: Seq<PreparedFile>)
    ensures
        sum_prepared_sizes(s) >= 0,
    decreases s.len(),
{
    if s.len() > 0 {
        lemma_sum_prepared_nonneg(s.drop_last());
    }
}

/// When no entry of the first `k` positions carries the id and position `k`
/// does, the first position carrying the id is `k`.
proof fn lemma_find_prepared_prefix(s: Seq<PreparedFile>, file_id: u32, k: int)
    requires
        0 <= k < s.len(),
        s[k].file_id == file_id,
        forall|i: int| 0 <= i < k ==> (#[trigger] s[i]).file_id != file_id,
    ensures
        find_prepared(s, file_id) == k,
    decreases k,
{
    if k > 0 {
        lemma_find_prepared_prefix(s.drop_first(), file_id, k - 1);
    }
}

} // verus!
