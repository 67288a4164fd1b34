//! The receiver session.
//!
//! One per incoming transfer.  The pull loop — issue chunk requests with
//! bounded concurrency, retry with capped exponential backoff, decrypt,
//! write at the chunk's offset, verify, finalize — is driven by the shell;
//! every decision along the way is a verified step here: what to request,
//! what a response means, where its plaintext lands, when a file may become
//! visible, and what cancellation tears down.

use vstd::prelude::*;
use vstd::string::*;

use crate::crypto::{seal_of, spec_nonce, unseal_of, TransferCrypto};
use crate::errors::{AppError, AppResult};
use crate::progress::{
    FileDesc, ProgressTracker, TransferDirection, TransferFailedEvent, TransferProgressEvent,
};
use crate::protocol::{AppRequest, FileInfo, TransferRequest};
use crate::sink::{FileSink, PartBuffer, PartFile, spec_write_at};
use crate::source::{calc_total_chunks, spec_chunk_offset, spec_total_chunks, CHUNK_SIZE,
    MAX_FILE_SIZE};

verus! {

/// Chunk requests in flight per receive session.
pub const MAX_CONCURRENT_CHUNKS: usize = 8;

/// Attempts per chunk before the session fails.
pub const MAX_CHUNK_RETRIES: u32 = 3;

/// Base backoff before a retry, in milliseconds.
pub const RETRY_DELAY_BASE_MS: u64 = 500;

/// Cap on the backoff, in milliseconds.
pub const RETRY_DELAY_CAP_MS: u64 = 2000;

/// The backoff before attempt `attempt` (the first retry is attempt 1):
/// `500 · 2^(attempt-1)` ms, capped at 2000 ms.
pub open spec fn spec_retry_delay(attempt: u32) -> int {
    let raw = RETRY_DELAY_BASE_MS * vstd::arithmetic::power2::pow2((attempt - 1) as nat);
    if raw > RETRY_DELAY_CAP_MS {
        RETRY_DELAY_CAP_MS as int
    } else {
        raw
    }
}

/// The backoff to sleep before retry `attempt`.
pub fn retry_delay_ms(attempt: u32) -> (r: u64)
    requires
        1 <= attempt,
    ensures
        r == spec_retry_delay(attempt),
{
    proof {
        vstd::arithmetic::power2::lemma2_to64();
        if attempt >= 3 {
            assert(vstd::arithmetic::power2::pow2(2) <= vstd::arithmetic::power2::pow2(
                (attempt - 1) as nat,
            )) by {
                if attempt > 3 {
                    vstd::arithmetic::power2::lemma_pow2_strictly_increases(
                        2,
                        (attempt - 1) as nat,
                    );
                }
            }
        }
    }
    if attempt == 1 {
        500
    } else if attempt == 2 {
        1000
    } else {
        2000
    }
}

/// Every offered file is within the size limit and their sizes sum to the
/// declared total.
pub open spec fn offer_sizes_ok(files: Seq<FileInfo>, total_size: u64) -> bool {
    &&& forall|i: int| 0 <= i < files.len() ==> (#[trigger] files[i]).size <= MAX_FILE_SIZE
    &&& sum_file_sizes(files) == total_size
}

/// Sum of the sizes of an offered file list.
pub open spec fn sum_file_sizes(s: Seq<FileInfo>) -> int
    decreases s.len(),
{
    if s.len() == 0 {
        0
    } else {
        sum_file_sizes(s.drop_last()) + s.last().size
    }
}

/// A prefix sum of offered sizes never exceeds the whole sum.
pub proof fn lemma_sum_file_take_le(s: Seq<FileInfo>, k: int)
    requires
        0 <= k <= s.len(),
    ensures
        sum_file_sizes(s.take(k)) <= sum_file_sizes(s),
        sum_file_sizes(s.take(k)) >= 0,
    decreases s.len() - k,
{
    if k == s.len() {
        assert(s.take(k) =~= s);
        lemma_sum_file_nonneg(s);
    } else {
        lemma_sum_file_take_le(s, k + 1);
        assert(s.take(k + 1).drop_last() =~= s.take(k));
        assert(sum_file_sizes(s.take(k + 1)) == sum_file_sizes(s.take(k)) + s[k].size);
        lemma_sum_file_nonneg(s.take(k));
    }
}

/// Offered-size sums are non-negative.
pub proof fn lemma_sum_file_nonneg(s: Seq<FileInfo>)
    ensures
        sum_file_sizes(s) >= 0,
    decreases s.len(),
{
    if s.len() > 0 {
        lemma_sum_file_nonneg(s.drop_last());
    }
}

/// A receiver session: the offered files, the sink, the session cipher, the
/// cancel flag, the part files created so far and the progress tracker.
pub struct ReceiveSession {
    session_id: u128,
    peer_id: String,
    files: Vec<FileInfo>,
    total_size: u64,
    sink: FileSink,
    crypto: TransferCrypto,
    cancelled: bool,
    created_parts: Vec<PartFile>,
    progress: ProgressTracker,
}

impl ReceiveSession {
    /// The session identifier, for contracts.
    pub closed spec fn spec_session_id(&self) -> u128 {
        self.session_id
    }

    /// The sending peer, for contracts.
    pub closed spec fn spec_peer_id(&self) -> Seq<char> {
        self.peer_id@
    }

    /// The offered files, for contracts.
    pub closed spec fn spec_files(&self) -> Seq<FileInfo> {
        self.files@
    }

    /// The session key, for contracts.
    pub closed spec fn spec_key(&self) -> Seq<u8> {
        self.crypto.spec_key()
    }

    /// Whether the session has been cancelled, for contracts.
    pub closed spec fn spec_cancelled(&self) -> bool {
        self.cancelled
    }

    /// The part files created so far, for contracts.
    pub closed spec fn spec_created_parts(&self) -> Seq<PartFile> {
        self.created_parts@
    }

    /// The progress tracker, for contracts.
    pub closed spec fn spec_progress(&self) -> ProgressTracker {
        self.progress
    }

    /// The session invariant.
    pub open spec fn wf(&self) -> bool {
        &&& self.spec_progress().wf()
        &&& self.spec_progress().spec_session_id() == self.spec_session_id()
        &&& offer_sizes_ok(self.spec_files(), self.spec_total_size())
    }

    /// The declared total, for contracts.
    pub closed spec fn spec_total_size(&self) -> u64 {
        self.total_size
    }

    /// A fresh receiver session over an admitted offer, keyed with the key
    /// this node just generated.
    pub fn new(
        session_id: u128,
        peer_id: String,
        files: Vec<FileInfo>,
        total_size: u64,
        sink: FileSink,
        key: &[u8; 32],
        now_ms: u64,
    ) -> (r: Self)
        requires
            offer_sizes_ok(files@, total_size),
        ensures
            r.wf(),
            r.spec_session_id() == session_id,
            r.spec_peer_id() == peer_id@,
            r.spec_files() == files@,
            r.spec_key() == key@,
            !r.spec_cancelled(),
            r.spec_created_parts().len() == 0,
    {
        let mut descs: Vec<FileDesc> = Vec::new();
        let mut k: usize = 0;
        while k < files.len()
            invariant
                k <= files@.len(),
                descs@.len() == k,
                offer_sizes_ok(files@, total_size),
                forall|i: int|
                    0 <= i < k ==> {
                        let d = #[trigger] descs@[i];
                        &&& d.file_id == files@[i].file_id
                        &&& d.size == files@[i].size
                    },
                crate::progress::sum_desc_sizes(descs@) == sum_file_sizes(files@.take(k as int)),
            decreases files@.len() - k,
        {
            let f = &files[k];
            let ghost before = descs@;
            descs.push(FileDesc { file_id: f.file_id, name: f.name.clone(), size: f.size });
            proof {
                assert(descs@.drop_last() =~= before);
                assert(files@.take(k + 1).drop_last() =~= files@.take(k as int));
                assert(files@.take(k + 1).last() == files@[k as int]);
            }
            k = k + 1;
        }
        proof {
            assert(files@.take(files@.len() as int) =~= files@);
            lemma_sum_file_take_le(files@, files@.len() as int);
        }
        let total = files.len();
        let mut progress = ProgressTracker::new(
            session_id,
            TransferDirection::Receive,
            0,
            total,
            now_ms,
        );
        progress.init_files(&descs);
        ReceiveSession {
            session_id,
            peer_id,
            files,
            total_size,
            sink,
            crypto: TransferCrypto::new(key),
            cancelled: false,
            created_parts: Vec::new(),
            progress,
        }
    }

    /// How many files the session receives.
    pub fn file_count(&self) -> (r: usize)
        ensures
            r == self.spec_files().len(),
    {
        self.files.len()
    }

    /// The file at `file_index`.
    pub fn file_at(&self, file_index: usize) -> (r: &FileInfo)
        requires
            file_index < self.spec_files().len(),
        ensures
            *r == self.spec_files()[file_index as int],
    {
        &self.files[file_index]
    }

    /// The chunk count of the file at `file_index`.
    pub fn chunk_count(&self, file_index: usize) -> (r: u32)
        requires
            self.wf(),
            file_index < self.spec_files().len(),
        ensures
            r == spec_total_chunks(self.spec_files()[file_index as int].size as int),
            r >= 1,
    {
        proof {
            assert(self.spec_files()[file_index as int].size <= MAX_FILE_SIZE);
        }
        calc_total_chunks(self.files[file_index].size)
    }

    /// Begin one file: mark it transferring, compute its part addressing,
    /// create its write buffer, and remember the part for cleanup.
    pub fn start_file(&mut self, file_index: usize, now_ms: u64) -> (r: AppResult<
        (PartFile, PartBuffer, Option<TransferProgressEvent>),
    >)
        requires
            old(self).wf(),
            file_index < old(self).spec_files().len(),
            old(self).spec_files()[file_index as int].size <= usize::MAX,
        ensures
            final(self).wf(),
            final(self).spec_session_id() == old(self).spec_session_id(),
            final(self).spec_files() == old(self).spec_files(),
            final(self).spec_cancelled() == old(self).spec_cancelled(),
            old(self).spec_cancelled() ==> (r matches Err(e) && e is Transfer
                && final(self).spec_created_parts() == old(self).spec_created_parts()),
            !old(self).spec_cancelled() ==> (r matches Ok(out) && {
                let f = old(self).spec_files()[file_index as int];
                &&& out.0.size == f.size
                &&& out.1.wf()
                &&& out.1.spec_size() == f.size
                &&& out.1.spec_state() is Open
                &&& final(self).spec_created_parts() == old(self).spec_created_parts().push(out.0)
            }),
    {
        if self.cancelled {
            return Err(AppError::Transfer(String::from_str("transfer cancelled")));
        }
        let f = &self.files[file_index];
        let part = self.sink.build_part_file(f.relative_path.as_str(), f.size);
        let buf = PartBuffer::create(f.size);
        let file_id = f.file_id;
        self.created_parts.push(part.clone());
        self.progress.set_file_transferring(file_id);
        let event = self.progress.emit_progress(now_ms);
        Ok((part, buf, event))
    }

    /// The chunk request the shell must send for chunk `chunk_index` of the
    /// file at `file_index`.
    pub fn chunk_request(&self, file_index: usize, chunk_index: u32) -> (r: AppRequest)
        requires
            file_index < self.spec_files().len(),
        ensures
            r matches AppRequest::Transfer(t) && t matches TransferRequest::ChunkRequest {
                session_id,
                file_id,
                chunk_index: c,
            } && session_id == self.spec_session_id() && file_id
                == self.spec_files()[file_index as int].file_id && c == chunk_index,
    {
        AppRequest::Transfer(
            TransferRequest::ChunkRequest {
                session_id: self.session_id,
                file_id: self.files[file_index].file_id,
                chunk_index,
            },
        )
    }

    /// Decrypt one chunk response and land its plaintext at the chunk's
    /// offset in the file's write buffer.  Succeeds exactly on the genuine
    /// ciphertext of this `(session, file, chunk)` under the session key —
    /// a tampered or mismatched chunk fails with a `Crypto` error and leaves
    /// the buffer untouched, and the shell then re-requests the chunk.
    pub fn handle_chunk_data(
        &mut self,
        file_index: usize,
        chunk_index: u32,
        ciphertext: &[u8],
        buf: &mut PartBuffer,
        now_ms: u64,
    ) -> (r: AppResult<(usize, Option<TransferProgressEvent>)>)
        requires
            old(self).wf(),
            file_index < old(self).spec_files().len(),
            old(buf).wf(),
            old(buf).spec_size() == old(self).spec_files()[file_index as int].size,
        ensures
            final(self).wf(),
            final(buf).wf(),
            final(self).spec_session_id() == old(self).spec_session_id(),
            final(self).spec_files() == old(self).spec_files(),
            final(self).spec_cancelled() == old(self).spec_cancelled(),
            final(self).spec_created_parts() == old(self).spec_created_parts(),
            final(buf).spec_size() == old(buf).spec_size(),
            final(buf).spec_state() == old(buf).spec_state(),
            old(self).spec_cancelled() ==> (r matches Err(e) && e is Transfer && *final(buf)
                == *old(buf)),
            ({
                let f = old(self).spec_files()[file_index as int];
                let nonce = spec_nonce(old(self).spec_session_id(), f.file_id, chunk_index);
                &&& (!old(self).spec_cancelled() && ciphertext@.len() > CHUNK_SIZE + 16) ==> (r
                    matches Err(e) && e is Transfer && *final(buf) == *old(buf))
                &&& (!old(self).spec_cancelled() && ciphertext@.len() <= CHUNK_SIZE + 16
                    && unseal_of(old(self).spec_key(), nonce, ciphertext@) is None) ==> (r
                    matches Err(e) && e is Crypto && *final(buf) == *old(buf))
                &&& (!old(self).spec_cancelled() && ciphertext@.len() <= CHUNK_SIZE + 16
                    && unseal_of(old(self).spec_key(), nonce, ciphertext@) is Some && old(
                    buf,
                ).spec_state() is Open && spec_chunk_offset(chunk_index as int) + unseal_of(
                    old(self).spec_key(),
                    nonce,
                    ciphertext@,
                ).unwrap().len() <= old(buf).spec_size()) ==> r is Ok
                &&& r matches Ok(out) ==> {
                    exists|p: Seq<u8>|
                        {
                            &&& ciphertext@ == #[trigger] seal_of(old(self).spec_key(), nonce, p)
                            &&& out.0 == p.len()
                            &&& (old(buf).spec_state() is Open && spec_chunk_offset(
                                chunk_index as int,
                            ) + p.len() <= old(buf).spec_size()) ==> final(buf).contents()
                                == spec_write_at(
                                old(buf).contents(),
                                spec_chunk_offset(chunk_index as int),
                                p,
                            )
                        }
                }
            }),
    {
        if self.cancelled {
            return Err(AppError::Transfer(String::from_str("transfer cancelled")));
        }
        if ciphertext.len() > (CHUNK_SIZE as usize) + 16 {
            return Err(AppError::Transfer(String::from_str("chunk beyond protocol size")));
        }
        let file_id = self.files[file_index].file_id;
        let plaintext = match self.crypto.decrypt_chunk(
            self.session_id,
            file_id,
            chunk_index,
            ciphertext,
        ) {
            Ok(p) => p,
            Err(e) => {
                return Err(e);
            },
        };
        let chunk_len = plaintext.len();
        match buf.write_chunk(chunk_index, plaintext.as_slice()) {
            Ok(()) => {},
            Err(e) => {
                return Err(e);
            },
        }
        self.progress.update_file_chunk(file_id, chunk_len as u64);
        let event = self.progress.emit_progress(now_ms);
        Ok((chunk_len, event))
    }

    /// Close and checksum one finished file: it becomes visible at its
    /// final path exactly when the recomputed BLAKE3 hex equals the offered
    /// checksum; otherwise the part is removed and the session fails with a
    /// checksum mismatch.
    pub fn finalize_file(&self, file_index: usize, buf: &mut PartBuffer) -> (r: AppResult<()>)
        requires
            self.wf(),
            file_index < self.spec_files().len(),
            old(buf).spec_state() is Open || old(buf).spec_state() is Closed,
        ensures
            ({
                let f = self.spec_files()[file_index as int];
                &&& crate::checksum::blake3_hex_of(old(buf).contents()) == f.checksum@ ==> (r
                    is Ok && final(buf).spec_state() is Finalized)
                &&& crate::checksum::blake3_hex_of(old(buf).contents()) != f.checksum@ ==> (r
                    matches Err(e) && e is Transfer && final(buf).spec_state() is Removed)
            }),
            final(buf).contents() == old(buf).contents(),
            final(buf).spec_size() == old(buf).spec_size(),
    {
        buf.close_write_handle();
        buf.verify_and_finalize(self.files[file_index].checksum.as_str())
    }

    /// Mark one file complete in the tracker.
    pub fn complete_file(&mut self, now_ms: u64) -> (r: Option<TransferProgressEvent>)
        requires
            old(self).wf(),
        ensures
            final(self).wf(),
            final(self).spec_progress().spec_transferred() == old(
                self,
            ).spec_progress().spec_transferred(),
            final(self).spec_files() == old(self).spec_files(),
            final(self).spec_session_id() == old(self).spec_session_id(),
            final(self).spec_cancelled() == old(self).spec_cancelled(),
            final(self).spec_created_parts() == old(self).spec_created_parts(),
    {
        self.progress.emit_progress(now_ms)
    }

    /// The `Complete` frame to send once every file is finalized.
    pub fn complete_request(&self) -> (r: AppRequest)
        ensures
            r matches AppRequest::Transfer(t) && t matches TransferRequest::Complete {
                session_id,
            } && session_id == self.spec_session_id(),
    {
        AppRequest::Transfer(TransferRequest::Complete { session_id: self.session_id })
    }

    /// The `Cancel` frame telling the sender this session stops.
    pub fn cancel_request(&self) -> (r: AppRequest)
        ensures
            r matches AppRequest::Transfer(t) && t matches TransferRequest::Cancel {
                session_id,
                reason,
            } && session_id == self.spec_session_id() && reason@ == "user-cancelled"@,
    {
        AppRequest::Transfer(
            TransferRequest::Cancel {
                session_id: self.session_id,
                reason: String::from_str("user-cancelled"),
            },
        )
    }

    /// Cancel this session: no further chunk is requested or accepted.
    pub fn cancel(&mut self)
        ensures
            final(self).spec_cancelled(),
            final(self).spec_files() == old(self).spec_files(),
            final(self).spec_session_id() == old(self).spec_session_id(),
            final(self).spec_created_parts() == old(self).spec_created_parts(),
            old(self).wf() ==> final(self).wf(),
    {
        self.cancelled = true;
    }

    /// The parts to delete on cancel or failure: every part created so far.
    pub fn cleanup_parts(&self) -> (r: &Vec<PartFile>)
        ensures
            r@ == self.spec_created_parts(),
    {
        &self.created_parts
    }

    /// The failure event for this session.
    pub fn failed_event(&self, error: String) -> (r: TransferFailedEvent)
        requires
            self.wf(),
        ensures
            r.session_id == self.spec_session_id(),
            r.error == error,
    {
        self.progress.emit_failed(error)
    }

    /// The completion event for this session.
    pub fn complete_event(&self, now_ms: u64) -> (r: crate::progress::TransferCompleteEvent)
        requires
            self.wf(),
        ensures
            r.session_id == self.spec_session_id(),
            r.total_bytes == self.spec_progress().spec_transferred(),
    {
        let save_path = self.sink.save_dir_display().to_owned();
        self.progress.emit_complete(now_ms, Some(save_path))
    }
}

} // verus!
