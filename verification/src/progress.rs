//! Per-session progress tracking and throttled progress events.
//!
//! One tracker lives inside each session.  It keeps the per-file counters,
//! the running byte total — which never decreases and never exceeds the
//! session total — and the emission throttle: at most one progress event per
//! 200 ms, with the completion event always allowed through.
//!
//! Time enters as plain millisecond counts supplied by the caller; byte
//! speeds and ETA estimates are floating-point derived views left to the
//! shell.

use vstd::prelude::*;

use crate::source::{calc_total_chunks, MAX_FILE_SIZE};

verus! {

/// Minimum gap between two progress events of one session, in milliseconds.
pub const THROTTLE_INTERVAL_MS: u64 = 200;

/// Which way a session moves bytes.
#[derive(Debug, Clone, Copy, PartialEq, Eq, Structural)]
pub enum TransferDirection {
    Send,
    Receive,
    Unknown,
}

/// The life of one file within a session.
#[derive(Debug, Clone, Copy, PartialEq, Eq, Structural)]
pub enum FileTransferStatus {
    Pending,
    Transferring,
    Completed,
}

/// Progress of one file.
#[derive(Debug)]
pub struct FileProgressInfo {
    pub file_id: u32,
    pub name: String,
    pub size: u64,
    pub transferred: u64,
    pub status: FileTransferStatus,
    /// Chunks landed so far.
    pub chunks_done: u32,
    /// Chunks the file is carried in.
    pub total_chunks: u32,
}

impl Clone for FileProgressInfo {
    fn clone(&self) -> (r: Self)
        ensures
            r == *self,
    {
        FileProgressInfo {
            file_id: self.file_id,
            name: self.name.clone(),
            size: self.size,
            transferred: self.transferred,
            status: self.status,
            chunks_done: self.chunks_done,
            total_chunks: self.total_chunks,
        }
    }
}

/// Element-wise copy of a file-progress list.
fn clone_files(v: &Vec<FileProgressInfo>) -> (r: Vec<FileProgressInfo>)
    ensures
        r@ == v@,
{
    let mut out: Vec<FileProgressInfo> = Vec::new();
    let mut k: usize = 0;
    while k < v.len()
        invariant
            k <= v@.len(),
            out@ == v@.take(k as int),
        decreases v@.len() - k,
    {
        out.push(v[k].clone());
        proof {
            assert(out@ =~= v@.take(k + 1));
        }
        k = k + 1;
    }
    proof {
        assert(v@.take(v@.len() as int) =~= v@);
    }
    out
}

/// What a tracker needs to know of a file up front.
pub struct FileDesc {
    pub file_id: u32,
    pub name: String,
    pub size: u64,
}

/// Sum of the declared sizes over a list of file descriptions.
pub open spec fn sum_desc_sizes(s: Seq<FileDesc>) -> int
    decreases s.len(),
{
    if s.len() == 0 {
        0
    } else {
        sum_desc_sizes(s.drop_last()) + s.last().size
    }
}

/// A prefix sum of sizes never exceeds the whole sum.
proof fn lemma_sum_desc_take_le(s: Seq<FileDesc>, k: int)
    requires
        0 <= k <= s.len(),
    ensures
        sum_desc_sizes(s.take(k)) <= sum_desc_sizes(s),
        sum_desc_sizes(s.take(k)) >= 0,
    decreases s.len() - k,
{
    if k == s.len() {
        assert(s.take(k) =~= s);
        lemma_sum_desc_nonneg(s);
    } else {
        lemma_sum_desc_take_le(s, k + 1);
        assert(s.take(k + 1).drop_last() =~= s.take(k));
        assert(sum_desc_sizes(s.take(k + 1)) == sum_desc_sizes(s.take(k)) + s[k].size);
        lemma_sum_desc_nonneg(s.take(k));
    }
}

/// Size sums are non-negative.
proof fn lemma_sum_desc_nonneg(s: Seq<FileDesc>)
    ensures
        sum_desc_sizes(s) >= 0,
    decreases s.len(),
{
    if s.len() > 0 {
        lemma_sum_desc_nonneg(s.drop_last());
    }
}

/// Payload of a progress event.
#[derive(Debug, Clone)]
pub struct TransferProgressEvent {
    pub session_id: u128,
    pub direction: TransferDirection,
    pub total_files: usize,
    pub completed_files: usize,
    pub total_bytes: u64,
    pub transferred_bytes: u64,
    pub files: Vec<FileProgressInfo>,
}

/// Payload of a completion event.
#[derive(Debug, Clone)]
pub struct TransferCompleteEvent {
    pub session_id: u128,
    pub direction: TransferDirection,
    pub total_bytes: u64,
    pub elapsed_ms: u64,
    pub save_path: Option<String>,
}

/// Payload of a failure event.
#[derive(Debug, Clone)]
pub struct TransferFailedEvent {
    pub session_id: u128,
    pub direction: TransferDirection,
    pub error: String,
}

/// Sum of the transferred bytes over a file list.
pub open spec fn sum_transferred(s: Seq<FileProgressInfo>) -> int
    decreases s.len(),
{
    if s.len() == 0 {
        0
    } else {
        sum_transferred(s.drop_last()) + s.last().transferred
    }
}

/// Sum of the declared sizes over a file list.
pub open spec fn sum_sizes(s: Seq<FileProgressInfo>) -> int
    decreases s.len(),
{
    if s.len() == 0 {
        0
    } else {
        sum_sizes(s.drop_last()) + s.last().size
    }
}

/// How many files of the list are completed.
pub open spec fn count_completed(s: Seq<FileProgressInfo>) -> int
    decreases s.len(),
{
    if s.len() == 0 {
        0
    } else {
        count_completed(s.drop_last()) + if s.last().status is Completed {
            1int
        } else {
            0int
        }
    }
}

/// The invariant of one file entry: counters within bounds, and `Completed`
/// exactly when every chunk has landed.
pub open spec fn file_entry_wf(f: FileProgressInfo) -> bool {
    &&& f.transferred <= f.size
    &&& f.size <= MAX_FILE_SIZE
    &&& f.chunks_done <= f.total_chunks
    &&& f.total_chunks >= 1
    &&& (f.status is Completed <==> f.chunks_done == f.total_chunks)
    &&& (f.status is Completed ==> f.transferred == f.size)
}

/// How many bytes one landed chunk of `bytes` bytes adds to the session
/// total: nothing for an unknown or completed file; the remainder of the
/// file when the chunk completes it or overshoots; else `bytes`.
pub open spec fn spec_chunk_gain(s: Seq<FileProgressInfo>, file_id: u32, bytes: u64) -> int {
    let i = find_file(s, file_id);
    if i == s.len() || s[i].status is Completed {
        0
    } else {
        let f = s[i];
        if f.chunks_done + 1 == f.total_chunks || bytes > f.size - f.transferred {
            f.size - f.transferred
        } else {
            bytes as int
        }
    }
}

/// First position of `file_id` in the list, or the length when absent.
pub open spec fn find_file(s: Seq<FileProgressInfo>, file_id: u32) -> int
    decreases s.len(),
{
    if s.len() == 0 {
        0
    } else if s.first().file_id == file_id {
        0
    } else {
        1 + find_file(s.drop_first(), file_id)
    }
}

/// Updating one entry moves the transferred sum by the entry's difference.
proof fn lemma_sum_transferred_update(s: Seq<FileProgressInfo>, i: int, f: FileProgressInfo)
    requires
        0 <= i < s.len(),
    ensures
        sum_transferred(s.update(i, f)) == sum_transferred(s) - s[i].transferred + f.transferred,
    decreases s.len(),
{
    if i == s.len() - 1 {
        assert(s.update(i, f).drop_last() =~= s.drop_last());
    } else {
        assert(s.update(i, f).drop_last() =~= s.drop_last().update(i, f));
        lemma_sum_transferred_update(s.drop_last(), i, f);
    }
}

/// Updating one entry moves the size sum by the entry's difference.
proof fn lemma_sum_sizes_update(s: Seq<FileProgressInfo>, i: int, f: FileProgressInfo)
    requires
        0 <= i < s.len(),
    ensures
        sum_sizes(s.update(i, f)) == sum_sizes(s) - s[i].size + f.size,
    decreases s.len(),
{
    if i == s.len() - 1 {
        assert(s.update(i, f).drop_last() =~= s.drop_last());
    } else {
        assert(s.update(i, f).drop_last() =~= s.drop_last().update(i, f));
        lemma_sum_sizes_update(s.drop_last(), i, f);
    }
}

/// Updating one entry moves the completed count by the entry's difference.
proof fn lemma_count_completed_update(s: Seq<FileProgressInfo>, i: int, f: FileProgressInfo)
    requires
        0 <= i < s.len(),
    ensures
        count_completed(s.update(i, f)) == count_completed(s) - (if s[i].status is Completed {
            1int
        } else {
            0int
        }) + (if f.status is Completed {
            1int
        } else {
            0int
        }),
    decreases s.len(),
{
    if i == s.len() - 1 {
        assert(s.update(i, f).drop_last() =~= s.drop_last());
    } else {
        assert(s.update(i, f).drop_last() =~= s.drop_last().update(i, f));
        lemma_count_completed_update(s.drop_last(), i, f);
    }
}

/// With every entry within its size, the transferred sum stays within the
/// size sum.
proof fn lemma_sum_transferred_le_sizes(s: Seq<FileProgressInfo>)
    requires
        forall|i: int| 0 <= i < s.len() ==> #[trigger] s[i].transferred <= s[i].size,
    ensures
        sum_transferred(s) <= sum_sizes(s),
    decreases s.len(),
{
    if s.len() > 0 {
        lemma_sum_transferred_le_sizes(s.drop_last());
    }
}

/// Sums and counts are non-negative.
proof fn lemma_sums_nonneg(s: Seq<FileProgressInfo>)
    ensures
        sum_transferred(s) >= 0,
        sum_sizes(s) >= 0,
        count_completed(s) >= 0,
        count_completed(s) <= s.len(),
    decreases s.len(),
{
    if s.len() > 0 {
        lemma_sums_nonneg(s.drop_last());
    }
}

/// When present, `find_file` names the first entry carrying the id.
proof fn lemma_find_file(s: Seq<FileProgressInfo>, file_id: u32)
    ensures
        0 <= find_file(s, file_id) <= s.len(),
        find_file(s, file_id) < s.len() ==> s[find_file(s, file_id)].file_id == file_id,
        (exists|i: int| 0 <= i < s.len() && #[trigger] s[i].file_id == file_id) ==> find_file(
            s,
            file_id,
        ) < s.len(),
    decreases s.len(),
{
    if s.len() > 0 && s.first().file_id != file_id {
        lemma_find_file(s.drop_first(), file_id);
        if exists|i: int| 0 <= i < s.len() && #[trigger] s[i].file_id == file_id {
            let i = choose|i: int| 0 <= i < s.len() && #[trigger] s[i].file_id == file_id;
            assert(s.drop_first()[i - 1].file_id == file_id);
        }
    }
}

/// The progress tracker of one session.
pub struct ProgressTracker {
    session_id: u128,
    direction: TransferDirection,
    total_bytes: u64,
    transferred_bytes: u64,
    total_files: usize,
    completed_files: usize,
    files: Vec<FileProgressInfo>,
    started_at_ms: u64,
    last_emit_ms: Option<u64>,
}

impl ProgressTracker {
    /// The per-file entries, for contracts.
    pub closed spec fn spec_files(&self) -> Seq<FileProgressInfo> {
        self.files@
    }

    /// The running byte total, for contracts.
    pub closed spec fn spec_transferred(&self) -> u64 {
        self.transferred_bytes
    }

    /// The declared byte total, for contracts.
    pub closed spec fn spec_total_bytes(&self) -> u64 {
        self.total_bytes
    }

    /// The completed-file count, for contracts.
    pub closed spec fn spec_completed_files(&self) -> usize {
        self.completed_files
    }

    /// The declared file count, for contracts.
    pub closed spec fn spec_total_files(&self) -> usize {
        self.total_files
    }

    /// The session this tracker belongs to, for contracts.
    pub closed spec fn spec_session_id(&self) -> u128 {
        self.session_id
    }

    /// When the last progress event left, for contracts.
    pub closed spec fn spec_last_emit(&self) -> Option<u64> {
        self.last_emit_ms
    }

    /// The tracker invariant: the running total is the sum over the files,
    /// bounded by the declared total; the completed count is the number of
    /// completed entries; every entry is within its own bounds.
    pub open spec fn wf(&self) -> bool {
        &&& self.spec_transferred() == sum_transferred(self.spec_files())
        &&& self.spec_completed_files() == count_completed(self.spec_files())
        &&& self.spec_files().len() > 0 ==> self.spec_files().len() == self.spec_total_files()
        &&& self.spec_files().len() > 0 ==> self.spec_total_bytes() == sum_sizes(self.spec_files())
        &&& self.spec_files().len() == 0 ==> self.spec_transferred() == 0
        &&& forall|i: int|
            0 <= i < self.spec_files().len() ==> file_entry_wf(#[trigger] self.spec_files()[i])
    }

    /// A fresh tracker: nothing transferred, nothing emitted.
    pub fn new(
        session_id: u128,
        direction: TransferDirection,
        total_bytes: u64,
        total_files: usize,
        now_ms: u64,
    ) -> (r: Self)
        ensures
            r.wf(),
            r.spec_transferred() == 0,
            r.spec_files().len() == 0,
            r.spec_session_id() == session_id,
            r.spec_last_emit() is None,
            r.spec_total_files() == total_files,
    {
        ProgressTracker {
            session_id,
            direction,
            total_bytes,
            transferred_bytes: 0,
            total_files,
            completed_files: 0,
            files: Vec::new(),
            started_at_ms: now_ms,
            last_emit_ms: None,
        }
    }

    /// Initialize the per-file entries, all pending.  The declared totals are
    /// re-derived from the descriptions so that the invariant ties them to
    /// the entries.
    pub fn init_files(&mut self, file_descs: &Vec<FileDesc>)
        requires
            old(self).spec_transferred() == 0,
            old(self).spec_files().len() == 0,
            old(self).wf(),
            forall|i: int|
                0 <= i < file_descs@.len() ==> #[trigger] file_descs@[i].size <= MAX_FILE_SIZE,
            sum_desc_sizes(file_descs@) <= u64::MAX,
            file_descs@.len() == old(self).spec_total_files(),
        ensures
            final(self).wf(),
            final(self).spec_files().len() == file_descs@.len(),
            final(self).spec_transferred() == 0,
            final(self).spec_session_id() == old(self).spec_session_id(),
            final(self).spec_last_emit() == old(self).spec_last_emit(),
            final(self).spec_total_files() == old(self).spec_total_files(),
            forall|i: int|
                0 <= i < file_descs@.len() ==> {
                    let f = #[trigger] final(self).spec_files()[i];
                    &&& f.file_id == file_descs@[i].file_id
                    &&& f.name@ == file_descs@[i].name@
                    &&& f.size == file_descs@[i].size
                    &&& f.transferred == 0
                    &&& f.status is Pending
                    &&& f.chunks_done == 0
                },
    {
        let mut files: Vec<FileProgressInfo> = Vec::new();
        let mut total: u64 = 0;
        let mut k: usize = 0;
        while k < file_descs.len()
            invariant
                k <= file_descs@.len(),
                files@.len() == k,
                total == sum_sizes(files@),
                sum_sizes(files@) == sum_desc_sizes(file_descs@.take(k as int)),
                sum_desc_sizes(file_descs@) <= u64::MAX,
                sum_transferred(files@) == 0,
                count_completed(files@) == 0,
                forall|i: int|
                    0 <= i < file_descs@.len() ==> #[trigger] file_descs@[i].size <= MAX_FILE_SIZE,
                forall|i: int| 0 <= i < k ==> file_entry_wf(#[trigger] files@[i]),
                forall|i: int|
                    0 <= i < k ==> {
                        let f = #[trigger] files@[i];
                        &&& f.file_id == file_descs@[i].file_id
                        &&& f.name@ == file_descs@[i].name@
                        &&& f.size == file_descs@[i].size
                        &&& f.transferred == 0
                        &&& f.status is Pending
                        &&& f.chunks_done == 0
                    },
            decreases file_descs@.len() - k,
        {
            proof {
                assert(file_descs@[k as int].size <= MAX_FILE_SIZE);
                lemma_sum_desc_take_le(file_descs@, k + 1);
                assert(file_descs@.take(k + 1).drop_last() =~= file_descs@.take(k as int));
                assert(sum_desc_sizes(file_descs@.take(k + 1)) == sum_desc_sizes(
                    file_descs@.take(k as int),
                ) + file_descs@[k as int].size);
            }
            let desc = &file_descs[k];
            let entry = FileProgressInfo {
                file_id: desc.file_id,
                name: desc.name.clone(),
                size: desc.size,
                transferred: 0,
                status: FileTransferStatus::Pending,
                chunks_done: 0,
                total_chunks: calc_total_chunks(desc.size),
            };
            let ghost before = files@;
            total = total + desc.size;
            files.push(entry);
            proof {
                assert(files@.drop_last() =~= before);
            }
            k = k + 1;
        }
        proof {
            assert(file_descs@.take(file_descs@.len() as int) =~= file_descs@);
        }
        self.files = files;
        self.total_bytes = total;
        self.transferred_bytes = 0;
        self.completed_files = 0;
    }

    /// The running byte total of the session.
    pub fn transferred_bytes(&self) -> (r: u64)
        ensures
            r == self.spec_transferred(),
    {
        self.transferred_bytes
    }

    /// Milliseconds since the tracker was created, given the time now.
    pub fn elapsed_ms(&self, now_ms: u64) -> (r: u64)
        ensures
            r <= now_ms,
    {
        if now_ms >= self.started_at_ms {
            now_ms - self.started_at_ms
        } else {
            0
        }
    }

    /// Mark one file as transferring if it is still pending.
    pub fn set_file_transferring(&mut self, file_id: u32)
        requires
            old(self).wf(),
        ensures
            final(self).wf(),
            final(self).spec_transferred() == old(self).spec_transferred(),
            final(self).spec_total_bytes() == old(self).spec_total_bytes(),
            final(self).spec_completed_files() == old(self).spec_completed_files(),
            final(self).spec_last_emit() == old(self).spec_last_emit(),
            final(self).spec_session_id() == old(self).spec_session_id(),
            final(self).spec_files().len() == old(self).spec_files().len(),
    {
        let mut k: usize = 0;
        let n = self.files.len();
        while k < n
            invariant
                n == self.files@.len(),
                k <= n,
                self.wf(),
                self.transferred_bytes == old(self).transferred_bytes,
                self.total_bytes == old(self).total_bytes,
                self.completed_files == old(self).completed_files,
                self.last_emit_ms == old(self).last_emit_ms,
                self.session_id == old(self).session_id,
                self.files@.len() == old(self).files@.len(),
            decreases n - k,
        {
            if self.files[k].file_id == file_id {
                let ghost before = self.files@;
                if matches!(self.files[k].status, FileTransferStatus::Pending) {
                    let entry = &mut self.files[k];
                    entry.status = FileTransferStatus::Transferring;
                    proof {
                        lemma_sum_transferred_update(before, k as int, self.files@[k as int]);
                        lemma_sum_sizes_update(before, k as int, self.files@[k as int]);
                        lemma_count_completed_update(before, k as int, self.files@[k as int]);
                        assert(self.files@ =~= before.update(k as int, self.files@[k as int]));
                    }
                }
                return ;
            }
            k = k + 1;
        }
    }

    /// Account one landed chunk of `chunk_bytes` bytes to `file_id`: the
    /// file's counters advance, a pending file starts transferring, and the
    /// file completes exactly when its last chunk lands — the transferred
    /// figure then equals the declared size.  The session total never
    /// decreases and never exceeds the declared total.  A file that is
    /// already complete, or an unknown id, changes nothing.
    pub fn update_file_chunk(&mut self, file_id: u32, chunk_bytes: u64)
        requires
            old(self).wf(),
        ensures
            final(self).wf(),
            final(self).spec_transferred() >= old(self).spec_transferred(),
            final(self).spec_transferred() == old(self).spec_transferred() + spec_chunk_gain(
                old(self).spec_files(),
                file_id,
                chunk_bytes,
            ),
            final(self).spec_transferred() <= final(self).spec_total_bytes(),
            final(self).spec_total_bytes() == old(self).spec_total_bytes(),
            final(self).spec_last_emit() == old(self).spec_last_emit(),
            final(self).spec_session_id() == old(self).spec_session_id(),
            final(self).spec_total_files() == old(self).spec_total_files(),
            final(self).spec_files().len() == old(self).spec_files().len(),
            final(self).spec_completed_files() >= old(self).spec_completed_files(),
            final(self).spec_completed_files() <= final(self).spec_total_files() || final(self).spec_files().len() == 0,
            ({
                let i = find_file(old(self).spec_files(), file_id);
                &&& (i == old(self).spec_files().len() || old(self).spec_files()[i].status
                    is Completed) ==> final(self).spec_files() == old(self).spec_files()
                &&& (i < old(self).spec_files().len() && !(old(self).spec_files()[i].status
                    is Completed)) ==> {
                    let f = old(self).spec_files()[i];
                    let done = (f.chunks_done + 1 == f.total_chunks);
                    let advanced = if chunk_bytes > f.size - f.transferred {
                        f.size
                    } else {
                        (f.transferred + chunk_bytes) as u64
                    };
                    final(self).spec_files() == old(self).spec_files().update(
                        i,
                        FileProgressInfo {
                            transferred: if done {
                                f.size
                            } else {
                                advanced
                            },
                            status: if done {
                                FileTransferStatus::Completed
                            } else {
                                FileTransferStatus::Transferring
                            },
                            chunks_done: (f.chunks_done + 1) as u32,
                            ..f
                        },
                    )
                }
            }),
    {
        let mut k: usize = 0;
        let n = self.files.len();
        proof {
            lemma_find_file(self.files@, file_id);
            lemma_sums_nonneg(self.files@);
            assert forall|i: int|
                0 <= i < self.files@.len() implies #[trigger] self.files@[i].transferred
                <= self.files@[i].size by {
                assert(file_entry_wf(old(self).spec_files()[i]));
            }
            lemma_sum_transferred_le_sizes(self.files@);
        }
        while k < n
            invariant
                n == self.files@.len(),
                k <= n,
                self == old(self),
                old(self).wf(),
                forall|i: int| 0 <= i < k ==> (#[trigger] self.files@[i]).file_id != file_id,
            decreases n - k,
        {
            if self.files[k].file_id == file_id {
                proof {
                    assert(find_file(self.files@, file_id) == k) by {
                        lemma_find_file_prefix(self.files@, file_id, k as int);
                    }
                    assert(file_entry_wf(old(self).spec_files()[k as int]));
                }
                let ghost before = self.files@;
                if matches!(self.files[k].status, FileTransferStatus::Completed) {
                    proof {
                        lemma_sums_nonneg(self.files@);
                        assert forall|i: int|
                            0 <= i < self.files@.len() implies #[trigger] self.files@[i].transferred
                            <= self.files@[i].size by {
                            assert(file_entry_wf(old(self).spec_files()[i]));
                        }
                        lemma_sum_transferred_le_sizes(self.files@);
                    }
                    return ;
                }
                let size = self.files[k].size;
                let transferred = self.files[k].transferred;
                let room = size - transferred;
                let add = if chunk_bytes > room {
                    room
                } else {
                    chunk_bytes
                };
                let done = self.files[k].chunks_done + 1 == self.files[k].total_chunks;
                {
                    let entry = &mut self.files[k];
                    entry.chunks_done = entry.chunks_done + 1;
                    if done {
                        entry.status = FileTransferStatus::Completed;
                        entry.transferred = entry.size;
                    } else {
                        entry.status = FileTransferStatus::Transferring;
                        entry.transferred = entry.transferred + add;
                    }
                }
                let ghost new_entry = self.files@[k as int];
                let gained = if done {
                    size - transferred
                } else {
                    add
                };
                proof {
                    assert(self.files@ =~= before.update(k as int, new_entry));
                    lemma_sum_transferred_update(before, k as int, new_entry);
                    lemma_sum_sizes_update(before, k as int, new_entry);
                    lemma_count_completed_update(before, k as int, new_entry);
                    assert(file_entry_wf(new_entry));
                    assert forall|i: int|
                        0 <= i < self.files@.len() implies #[trigger] self.files@[i].transferred
                        <= self.files@[i].size by {
                        if i != k as int {
                            assert(self.files@[i] == before[i]);
                            assert(file_entry_wf(old(self).spec_files()[i]));
                        }
                    }
                    lemma_sum_transferred_le_sizes(self.files@);
                    lemma_sums_nonneg(self.files@);
                    assert(sum_transferred(self.files@) == old(self).spec_transferred() + gained);
                    assert(sum_sizes(self.files@) == sum_sizes(before));
                }
                self.transferred_bytes = self.transferred_bytes + gained;
                if done {
                    self.completed_files = self.completed_files + 1;
                }
                proof {
                    assert forall|i: int|
                        0 <= i < self.files@.len() implies file_entry_wf(
                        #[trigger] self.spec_files()[i],
                    ) by {
                        if i != k as int {
                            assert(self.files@[i] == before[i]);
                            assert(file_entry_wf(old(self).spec_files()[i]));
                        }
                    }
                }
                return ;
            }
            k = k + 1;
        }
        proof {
            lemma_find_file(self.files@, file_id);
            assert(find_file(self.files@, file_id) == self.files@.len());
            lemma_sums_nonneg(self.files@);
            assert forall|i: int|
                0 <= i < self.files@.len() implies #[trigger] self.files@[i].transferred
                <= self.files@[i].size by {
                assert(file_entry_wf(old(self).spec_files()[i]));
            }
            lemma_sum_transferred_le_sizes(self.files@);
        }
    }

    /// Whether a progress event may leave now: the first emission always
    /// may; afterwards only once the throttle interval has passed since the
    /// previous one.  When it may, the emission time is recorded.
    pub fn try_mark_emit(&mut self, now_ms: u64) -> (r: bool)
        ensures
            r == (match old(self).spec_last_emit() {
                Option::None => true,
                Option::Some(last) => now_ms >= last + THROTTLE_INTERVAL_MS,
            }),
            r ==> final(self).spec_last_emit() == Some(now_ms),
            !r ==> final(self).spec_last_emit() == old(self).spec_last_emit(),
            final(self).spec_files() == old(self).spec_files(),
            final(self).spec_transferred() == old(self).spec_transferred(),
            final(self).spec_total_bytes() == old(self).spec_total_bytes(),
            final(self).spec_completed_files() == old(self).spec_completed_files(),
            final(self).spec_session_id() == old(self).spec_session_id(),
            final(self).spec_total_files() == old(self).spec_total_files(),
            old(self).wf() ==> final(self).wf(),
    {
        let allowed = match self.last_emit_ms {
            None => true,
            Some(last) => now_ms >= last && now_ms - last >= THROTTLE_INTERVAL_MS,
        };
        if allowed {
            self.last_emit_ms = Some(now_ms);
        }
        allowed
    }

    /// The progress event as of now, throttled: `Some` at most once per
    /// throttle interval per session.
    pub fn emit_progress(&mut self, now_ms: u64) -> (r: Option<TransferProgressEvent>)
        requires
            old(self).wf(),
        ensures
            final(self).wf(),
            r is Some <==> (match old(self).spec_last_emit() {
                Option::None => true,
                Option::Some(last) => now_ms >= last + THROTTLE_INTERVAL_MS,
            }),
            r matches Some(e) ==> {
                &&& e.session_id == old(self).spec_session_id()
                &&& e.transferred_bytes == old(self).spec_transferred()
                &&& e.total_bytes == old(self).spec_total_bytes()
                &&& e.completed_files == old(self).spec_completed_files()
                &&& e.total_files == old(self).spec_total_files()
                &&& e.files@ == old(self).spec_files()
                &&& final(self).spec_last_emit() == Some(now_ms)
            },
            r is None ==> final(self).spec_last_emit() == old(self).spec_last_emit(),
            final(self).spec_files() == old(self).spec_files(),
            final(self).spec_transferred() == old(self).spec_transferred(),
            final(self).spec_total_bytes() == old(self).spec_total_bytes(),
            final(self).spec_completed_files() == old(self).spec_completed_files(),
            final(self).spec_session_id() == old(self).spec_session_id(),
            final(self).spec_total_files() == old(self).spec_total_files(),
    {
        if self.try_mark_emit(now_ms) {
            Some(
                TransferProgressEvent {
                    session_id: self.session_id,
                    direction: self.direction,
                    total_files: self.total_files,
                    completed_files: self.completed_files,
                    total_bytes: self.total_bytes,
                    transferred_bytes: self.transferred_bytes,
                    files: clone_files(&self.files),
                },
            )
        } else {
            None
        }
    }

    /// The completion event: always emitted, bypassing the throttle.
    pub fn emit_complete(&self, now_ms: u64, save_path: Option<String>) -> (r:
        TransferCompleteEvent)
        ensures
            r.session_id == self.spec_session_id(),
            r.total_bytes == self.spec_transferred(),
    {
        TransferCompleteEvent {
            session_id: self.session_id,
            direction: self.direction,
            total_bytes: self.transferred_bytes,
            elapsed_ms: self.elapsed_ms(now_ms),
            save_path,
        }
    }

    /// The failure event: always emitted, bypassing the throttle.
    pub fn emit_failed(&self, error: String) -> (r: TransferFailedEvent)
        ensures
            r.session_id == self.spec_session_id(),
            r.error == error,
    {
        TransferFailedEvent {
            session_id: self.session_id,
            direction: self.direction,
            error,
        }
    }
}

/// When no entry of the first `k` positions carries the id and position `k`
/// does, the first position carrying the id is `k`.
proof fn lemma_find_file_prefix(s: Seq<FileProgressInfo>, file_id: u32, k: int)
    requires
        0 <= k < s.len(),
        s[k].file_id == file_id,
        forall|i: int| 0 <= i < k ==> (#[trigger] s[i]).file_id != file_id,
    ensures
        find_file(s, file_id) == k,
    decreases k,
{
    if k > 0 {
        lemma_find_file_prefix(s.drop_first(), file_id, k - 1);
    }
}

} // verus!
