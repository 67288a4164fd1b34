//! The transfer manager.
//!
//! It owns the four registries of a node's transfer life: prepared batches
//! waiting to be offered, inbound offers waiting for the user, and the
//! active send and receive sessions.  Offers move through it: prepare →
//! offer → accept/reject → session; cancellation tears a session out of its
//! registry and names everything the shell must still do.

use vstd::prelude::*;
use vstd::string::*;

use crate::crypto::generate_key;
use crate::errors::{AppError, AppResult};
use crate::progress::TransferFailedEvent;
use crate::protocol::{AppRequest, FileInfo, TransferRequest, TransferResponse};
use crate::receiver::{offer_sizes_ok, sum_file_sizes, ReceiveSession};
use crate::registry::IdMap;
use crate::sender::{
    prepared_sizes_ok, sum_prepared_sizes, PreparedFile, SendSession,
};
use crate::sink::{FileSink, PartFile};
use crate::source::{EnumeratedFile, FileSource, MAX_FILE_SIZE};

verus! {

/// A batch of files hashed and ready to be offered.
#[derive(Debug)]
pub struct PreparedTransfer {
    /// Identifier under which the batch waits.
    pub prepared_id: u128,
    /// The files, with dense ids from zero.
    pub files: Vec<PreparedFile>,
    /// Sum of the file sizes.
    pub total_size: u64,
}

impl Clone for PreparedTransfer {
    fn clone(&self) -> (r: Self)
        ensures
            r.prepared_id == self.prepared_id,
            r.files@ == self.files@,
            r.total_size == self.total_size,
    {
        let mut files: Vec<PreparedFile> = Vec::new();
        let mut k: usize = 0;
        while k < self.files.len()
            invariant
                k <= self.files@.len(),
                files@ == self.files@.take(k as int),
            decreases self.files@.len() - k,
        {
            files.push(self.files[k].clone());
            proof {
                assert(files@ =~= self.files@.take(k + 1));
            }
            k = k + 1;
        }
        proof {
            assert(self.files@.take(self.files@.len() as int) =~= self.files@);
        }
        PreparedTransfer { prepared_id: self.prepared_id, files, total_size: self.total_size }
    }
}

/// An inbound offer waiting for the user to accept or reject.
#[derive(Debug)]
pub struct PendingOffer {
    /// The overlay's pending-response handle for the reply.
    pub pending_id: u64,
    /// The sending peer.
    pub peer_id: String,
    /// The session the sender proposed.
    pub session_id: u128,
    /// The offered files.
    pub files: Vec<FileInfo>,
    /// The declared total size.
    pub total_size: u64,
}

/// Progress of the hashing pass of `prepare`.
#[derive(Debug, Clone)]
pub struct PrepareProgress {
    /// The file being hashed.
    pub current_file: String,
    /// Files fully hashed so far.
    pub completed_files: u32,
    /// Files in the batch.
    pub total_files: u32,
    /// Bytes hashed so far, over all files.
    pub bytes_hashed: u64,
    /// Bytes in the batch.
    pub total_bytes: u64,
}

/// What `send_offer` reports back.
#[derive(Debug, Clone)]
pub struct StartSendResult {
    pub session_id: u128,
    pub accepted: bool,
    pub reason: Option<String>,
}

/// The offer the shell must send, with what is needed to finish it.
pub struct OutboundOffer {
    /// The peer to send to.
    pub peer_id: String,
    /// The proposed session.
    pub session_id: u128,
    /// The offer frame.
    pub request: AppRequest,
    /// The selected files, kept to build the send session on acceptance.
    pub selected: Vec<PreparedFile>,
}

/// Everything the shell must still do after `cancel_receive`: send the
/// cancel frame, delete the listed part files, and emit the failure event.
pub struct CancelReceiveOutcome {
    /// The `Cancel` frame for the sending peer.
    pub cancel_frame: AppRequest,
    /// The part files to delete.
    pub parts_to_cleanup: Vec<PartFile>,
    /// The failure event for the UI.
    pub failed_event: TransferFailedEvent,
}

/// Relies on `uuid::Uuid::new_v4`: a freshly drawn 128-bit identifier.
#[verifier::external_body]
pub fn generate_id() -> (r: u128) {
    uuid::Uuid::new_v4().as_u128()
}

/// Sum of the sizes of the scanned entries handed to `prepare`.
pub open spec fn sum_scan_sizes(s: Seq<EnumeratedFile>) -> int
    decreases s.len(),
{
    if s.len() == 0 {
        0
    } else {
        sum_scan_sizes(s.drop_last()) + s.last().size
    }
}

/// A prefix sum of scanned sizes never exceeds the whole sum.
proof fn lemma_sum_scan_take_le(s: Seq<EnumeratedFile>, k: int)
    requires
        0 <= k <= s.len(),
    ensures
        sum_scan_sizes(s.take(k)) <= sum_scan_sizes(s),
        sum_scan_sizes(s.take(k)) >= 0,
    decreases s.len() - k,
{
    if k == s.len() {
        assert(s.take(k) =~= s);
        lemma_sum_scan_nonneg(s);
    } else {
        lemma_sum_scan_take_le(s, k + 1);
        assert(s.take(k + 1).drop_last() =~= s.take(k));
        assert(sum_scan_sizes(s.take(k + 1)) == sum_scan_sizes(s.take(k)) + s[k].size);
        lemma_sum_scan_nonneg(s.take(k));
    }
}

/// Scanned-size sums are non-negative.
proof fn lemma_sum_scan_nonneg(s: Seq<EnumeratedFile>)
    ensures
        sum_scan_sizes(s) >= 0,
    decreases s.len(),
{
    if s.len() > 0 {
        lemma_sum_scan_nonneg(s.drop_last());
    }
}

/// A batch `prepare` must accept: non-empty, one checksum per entry, and
/// every size within the engine's limits.
pub open spec fn prepare_input_ok(entries: Seq<EnumeratedFile>, checksums: Seq<String>) -> bool {
    &&& entries.len() > 0
    &&& checksums.len() == entries.len()
    &&& entries.len() <= 0xFFFF_FFFF
    &&& forall|i: int| 0 <= i < entries.len() ==> (#[trigger] entries[i]).size <= MAX_FILE_SIZE
    &&& sum_scan_sizes(entries) <= u64::MAX
}

/// Every prepared batch in the registry is within the engine's size limits.
pub open spec fn prepared_wf(m: Map<u128, PreparedTransfer>) -> bool {
    forall|pid: u128|
        m.contains_key(pid) ==> prepared_sizes_ok((#[trigger] m[pid]).files@)
}

/// Registering a bounded batch keeps the registry bounded.
proof fn lemma_prepared_insert(m: Map<u128, PreparedTransfer>, pid: u128, p: PreparedTransfer)
    requires
        prepared_wf(m),
        prepared_sizes_ok(p.files@),
    ensures
        prepared_wf(m.insert(pid, p)),
{
}

/// Dropping a batch keeps the registry bounded.
proof fn lemma_prepared_remove(m: Map<u128, PreparedTransfer>, pid: u128)
    requires
        prepared_wf(m),
    ensures
        prepared_wf(m.remove(pid)),
{
}

/// Every cached offer is size-consistent and sits under its own session id.
pub open spec fn pending_wf(m: Map<u128, PendingOffer>) -> bool {
    forall|sid: u128|
        m.contains_key(sid) ==> {
            let o = #[trigger] m[sid];
            &&& offer_sizes_ok(o.files@, o.total_size)
            &&& o.session_id == sid
        }
}

/// Caching a consistent offer under its session id keeps the cache
/// consistent.
proof fn lemma_pending_insert(m: Map<u128, PendingOffer>, sid: u128, o: PendingOffer)
    requires
        pending_wf(m),
        offer_sizes_ok(o.files@, o.total_size),
        o.session_id == sid,
    ensures
        pending_wf(m.insert(sid, o)),
{
}

/// Dropping an offer keeps the cache consistent.
proof fn lemma_pending_remove(m: Map<u128, PendingOffer>, sid: u128)
    requires
        pending_wf(m),
    ensures
        pending_wf(m.remove(sid)),
{
}

/// Every registered send session holds its invariant.
pub open spec fn send_sessions_wf(m: Map<u128, SendSession>) -> bool {
    forall|sid: u128| m.contains_key(sid) ==> (#[trigger] m[sid]).wf()
}

/// Every registered receive session holds its invariant.
pub open spec fn receive_sessions_wf(m: Map<u128, ReceiveSession>) -> bool {
    forall|sid: u128| m.contains_key(sid) ==> (#[trigger] m[sid]).wf()
}

/// Registering a well-formed send session keeps the registry well formed.
proof fn lemma_send_sessions_insert(m: Map<u128, SendSession>, sid: u128, s: SendSession)
    requires
        send_sessions_wf(m),
        s.wf(),
    ensures
        send_sessions_wf(m.insert(sid, s)),
{
}

/// Dropping a send session keeps the registry well formed.
proof fn lemma_send_sessions_remove(m: Map<u128, SendSession>, sid: u128)
    requires
        send_sessions_wf(m),
    ensures
        send_sessions_wf(m.remove(sid)),
{
}

/// Registering a well-formed receive session keeps the registry well formed.
proof fn lemma_receive_sessions_insert(m: Map<u128, ReceiveSession>, sid: u128, s: ReceiveSession)
    requires
        receive_sessions_wf(m),
        s.wf(),
    ensures
        receive_sessions_wf(m.insert(sid, s)),
{
}

/// Dropping a receive session keeps the registry well formed.
proof fn lemma_receive_sessions_remove(m: Map<u128, ReceiveSession>, sid: u128)
    requires
        receive_sessions_wf(m),
    ensures
        receive_sessions_wf(m.remove(sid)),
{
}

/// The transfer manager and its four registries.
pub struct TransferManager {
    prepared: IdMap<PreparedTransfer>,
    pending: IdMap<PendingOffer>,
    send_sessions: IdMap<SendSession>,
    receive_sessions: IdMap<ReceiveSession>,
}

impl TransferManager {
    /// The prepared batches, for contracts.
    pub closed spec fn spec_prepared(&self) -> Map<u128, PreparedTransfer> {
        self.prepared@
    }

    /// The pending offers, for contracts.
    pub closed spec fn spec_pending(&self) -> Map<u128, PendingOffer> {
        self.pending@
    }

    /// The send sessions, for contracts.
    pub closed spec fn spec_send_sessions(&self) -> Map<u128, SendSession> {
        self.send_sessions@
    }

    /// The receive sessions, for contracts.
    pub closed spec fn spec_receive_sessions(&self) -> Map<u128, ReceiveSession> {
        self.receive_sessions@
    }

    /// The manager invariant: the registries are well formed, and so is
    /// every session they hold.
    pub open spec fn wf(&self) -> bool {
        &&& self.spec_maps_wf()
        &&& prepared_wf(self.spec_prepared())
        &&& pending_wf(self.spec_pending())
        &&& send_sessions_wf(self.spec_send_sessions())
        &&& receive_sessions_wf(self.spec_receive_sessions())
    }

    /// The registries hold their own invariants.
    pub closed spec fn spec_maps_wf(&self) -> bool {
        &&& self.prepared.wf()
        &&& self.pending.wf()
        &&& self.send_sessions.wf()
        &&& self.receive_sessions.wf()
    }

    /// A manager with empty registries.
    pub fn new() -> (r: Self)
        ensures
            r.wf(),
            r.spec_prepared() =~= Map::<u128, PreparedTransfer>::empty(),
            r.spec_pending() =~= Map::<u128, PendingOffer>::empty(),
            r.spec_send_sessions() =~= Map::<u128, SendSession>::empty(),
            r.spec_receive_sessions() =~= Map::<u128, ReceiveSession>::empty(),
    {
        TransferManager {
            prepared: IdMap::new(),
            pending: IdMap::new(),
            send_sessions: IdMap::new(),
            receive_sessions: IdMap::new(),
        }
    }

    /// Register a hashed batch: the scanned entries, each with the checksum
    /// the shell computed over its content, become a prepared transfer with
    /// dense file ids.  Rejects an empty batch, an oversized file, and a
    /// checksum list that does not match the entries.
    pub fn prepare(
        &mut self,
        entries: Vec<EnumeratedFile>,
        checksums: Vec<String>,
    ) -> (r: AppResult<PreparedTransfer>)
        requires
            old(self).wf(),
        ensures
            final(self).wf(),
            entries@.len() == 0 ==> (r matches Err(e) && e is Transfer),
            checksums@.len() != entries@.len() ==> (r matches Err(e) && e is Transfer),
            prepare_input_ok(entries@, checksums@) ==> r is Ok,
            r matches Ok(p) ==> {
                &&& p.files@.len() == entries@.len()
                &&& prepared_sizes_ok(p.files@)
                &&& p.total_size == sum_prepared_sizes(p.files@)
                &&& forall|i: int|
                    0 <= i < entries@.len() ==> {
                        let f = #[trigger] p.files@[i];
                        &&& f.file_id == i
                        &&& f.name@ == entries@[i].name@
                        &&& f.relative_path@ == entries@[i].relative_path@
                        &&& f.size == entries@[i].size
                        &&& f.checksum@ == checksums@[i]@
                    }
                &&& final(self).spec_prepared().contains_key(p.prepared_id)
                &&& final(self).spec_prepared().remove(p.prepared_id) =~= old(self).spec_prepared().remove(p.prepared_id)
                &&& final(self).spec_prepared()[p.prepared_id].prepared_id == p.prepared_id
                &&& final(self).spec_prepared()[p.prepared_id].files@ == p.files@
                &&& final(self).spec_prepared()[p.prepared_id].total_size == p.total_size
            },
            r is Err ==> final(self).spec_prepared() == old(self).spec_prepared(),
            final(self).spec_pending() == old(self).spec_pending(),
            final(self).spec_send_sessions() == old(self).spec_send_sessions(),
            final(self).spec_receive_sessions() == old(self).spec_receive_sessions(),
    {
        if entries.len() == 0 {
            return Err(AppError::Transfer(String::from_str("no files to prepare")));
        }
        if checksums.len() != entries.len() {
            return Err(AppError::Transfer(String::from_str("one checksum per file required")));
        }
        if entries.len() > 0xFFFF_FFFF {
            return Err(AppError::Transfer(String::from_str("too many files")));
        }
        let mut files: Vec<PreparedFile> = Vec::new();
        let mut total: u64 = 0;
        let mut k: usize = 0;
        while k < entries.len()
            invariant
                self == old(self),
                old(self).wf(),
                k <= entries@.len(),
                entries@.len() <= 0xFFFF_FFFF,
                checksums@.len() == entries@.len(),
                files@.len() == k,
                total == sum_prepared_sizes(files@),
                total == sum_scan_sizes(entries@.take(k as int)),
                prepared_sizes_ok(files@),
                forall|i: int|
                    0 <= i < k ==> {
                        let f = #[trigger] files@[i];
                        &&& f.file_id == i
                        &&& f.name@ == entries@[i].name@
                        &&& f.relative_path@ == entries@[i].relative_path@
                        &&& f.size == entries@[i].size
                        &&& f.checksum@ == checksums@[i]@
                    },
            decreases entries@.len() - k,
        {
            proof {
                assert(entries@.take(k + 1).drop_last() =~= entries@.take(k as int));
                assert(entries@.take(k + 1).last() == entries@[k as int]);
                if prepare_input_ok(entries@, checksums@) {
                    lemma_sum_scan_take_le(entries@, k + 1);
                }
            }
            let entry = &entries[k];
            if entry.size > MAX_FILE_SIZE {
                return Err(AppError::Transfer(String::from_str("file too large")));
            }
            if total > u64::MAX - entry.size {
                return Err(AppError::Transfer(String::from_str("batch too large")));
            }
            let source = match &entry.source {
                FileSource::Path { path } => FileSource::Path { path: path.clone() },
            };
            let f = PreparedFile {
                file_id: k as u32,
                name: entry.name.clone(),
                relative_path: entry.relative_path.clone(),
                source,
                size: entry.size,
                checksum: checksums[k].clone(),
            };
            let ghost before = files@;
            total = total + entry.size;
            files.push(f);
            proof {
                assert(files@.drop_last() =~= before);
            }
            k = k + 1;
        }
        let prepared = PreparedTransfer { prepared_id: generate_id(), files, total_size: total };
        let result = prepared.clone();
        proof {
            lemma_prepared_insert(self.spec_prepared(), prepared.prepared_id, prepared);
        }
        self.prepared.insert(prepared.prepared_id, prepared);
        Ok(result)
    }

    /// Take a prepared batch out of the registry.
    pub fn take_prepared(&mut self, prepared_id: u128) -> (r: Option<PreparedTransfer>)
        requires
            old(self).wf(),
        ensures
            final(self).wf(),
            final(self).spec_prepared() =~= old(self).spec_prepared().remove(prepared_id),
            r is Some <==> old(self).spec_prepared().contains_key(prepared_id),
            r matches Some(p) ==> p == old(self).spec_prepared()[prepared_id]
                && prepared_sizes_ok(p.files@),
            final(self).spec_pending() == old(self).spec_pending(),
            final(self).spec_send_sessions() == old(self).spec_send_sessions(),
            final(self).spec_receive_sessions() == old(self).spec_receive_sessions(),
    {
        proof {
            lemma_prepared_remove(self.spec_prepared(), prepared_id);
        }
        self.prepared.remove(prepared_id)
    }

    /// Build the offer for a prepared batch restricted to the selected file
    /// ids: the batch leaves the registry, and an empty selection is
    /// rejected.  The shell sends the returned frame and feeds the response
    /// to [`TransferManager::complete_send_offer`].
    pub fn begin_send_offer(
        &mut self,
        prepared_id: u128,
        peer_id: String,
        selected_file_ids: &Vec<u32>,
    ) -> (r: AppResult<OutboundOffer>)
        requires
            old(self).wf(),
        ensures
            final(self).wf(),
            !old(self).spec_prepared().contains_key(prepared_id) ==> (r matches Err(e) && e
                is Transfer),
            (old(self).spec_prepared().contains_key(prepared_id) && exists|i: int|
                0 <= i < old(self).spec_prepared()[prepared_id].files@.len()
                    && selected_file_ids@.contains(
                    (#[trigger] old(self).spec_prepared()[prepared_id].files@[i]).file_id,
                )) ==> r is Ok,
            final(self).spec_prepared() =~= old(self).spec_prepared().remove(prepared_id),
            r matches Ok(o) ==> {
                &&& o.peer_id == peer_id
                &&& prepared_sizes_ok(o.selected@)
                &&& o.selected@.len() > 0
                &&& forall|i: int|
                    0 <= i < o.selected@.len() ==> selected_file_ids@.contains(
                        (#[trigger] o.selected@[i]).file_id,
                    )
                &&& o.request matches AppRequest::Transfer(t) && t
                    matches TransferRequest::Offer { session_id, files, total_size }
                    && session_id == o.session_id && files@.len() == o.selected@.len()
                    && total_size == sum_prepared_sizes(o.selected@) && forall|i: int|
                    0 <= i < files@.len() ==> {
                        let f = #[trigger] files@[i];
                        let s = o.selected@[i];
                        &&& f.file_id == s.file_id
                        &&& f.name@ == s.name@
                        &&& f.relative_path@ == s.relative_path@
                        &&& f.size == s.size
                        &&& f.checksum@ == s.checksum@
                    }
            },
            final(self).spec_pending() == old(self).spec_pending(),
            final(self).spec_send_sessions() == old(self).spec_send_sessions(),
            final(self).spec_receive_sessions() == old(self).spec_receive_sessions(),
    {
        proof {
            lemma_prepared_remove(self.spec_prepared(), prepared_id);
        }
        let prepared = match self.prepared.remove(prepared_id) {
            Some(p) => p,
            None => {
                return Err(AppError::Transfer(String::from_str("prepared transfer not found")));
            },
        };
        let mut selected: Vec<PreparedFile> = Vec::new();
        let mut k: usize = 0;
        while k < prepared.files.len()
            invariant
                self.wf(),
                self.spec_prepared() =~= old(self).spec_prepared().remove(prepared_id),
                self.spec_pending() == old(self).spec_pending(),
                self.spec_send_sessions() == old(self).spec_send_sessions(),
                self.spec_receive_sessions() == old(self).spec_receive_sessions(),
                k <= prepared.files@.len(),
                prepared_sizes_ok(prepared.files@),
                prepared_sizes_ok(selected@),
                sum_prepared_sizes(selected@) <= sum_prepared_sizes(
                    prepared.files@.take(k as int),
                ),
                forall|i: int|
                    0 <= i < selected@.len() ==> selected_file_ids@.contains(
                        (#[trigger] selected@[i]).file_id,
                    ),
                (exists|i: int|
                    0 <= i < k && selected_file_ids@.contains(
                        (#[trigger] prepared.files@[i]).file_id,
                    )) ==> selected@.len() > 0,
            decreases prepared.files@.len() - k,
        {
            proof {
                assert(prepared.files@.take(k + 1).drop_last() =~= prepared.files@.take(k as int));
                assert(prepared.files@.take(k + 1).last() == prepared.files@[k as int]);
                crate::sender::lemma_sum_prepared_take_le(prepared.files@, k + 1);
            }
            let f = &prepared.files[k];
            let mut chosen = false;
            let mut j: usize = 0;
            while j < selected_file_ids.len()
                invariant
                    j <= selected_file_ids@.len(),
                    chosen == (exists|m: int|
                        0 <= m < j && selected_file_ids@[m] == f.file_id),
                decreases selected_file_ids@.len() - j,
            {
                if selected_file_ids[j] == f.file_id {
                    chosen = true;
                    proof {
                        assert(selected_file_ids@[j as int] == f.file_id);
                    }
                }
                j = j + 1;
            }
            proof {
                assert(chosen == selected_file_ids@.contains(prepared.files@[k as int].file_id));
            }
            if chosen {
                let ghost before = selected@;
                selected.push(f.clone());
                proof {
                    assert(selected@.drop_last() =~= before);
                    assert(prepared.files@[k as int].size <= MAX_FILE_SIZE);
                }
            }
            k = k + 1;
        }
        if selected.len() == 0 {
            return Err(AppError::Transfer(String::from_str("no files selected")));
        }
        proof {
            assert(prepared.files@.take(prepared.files@.len() as int) =~= prepared.files@);
        }
        let mut infos: Vec<FileInfo> = Vec::new();
        let mut total: u64 = 0;
        let mut k2: usize = 0;
        while k2 < selected.len()
            invariant
                self.wf(),
                self.spec_prepared() =~= old(self).spec_prepared().remove(prepared_id),
                self.spec_pending() == old(self).spec_pending(),
                self.spec_send_sessions() == old(self).spec_send_sessions(),
                self.spec_receive_sessions() == old(self).spec_receive_sessions(),
                k2 <= selected@.len(),
                infos@.len() == k2,
                prepared_sizes_ok(selected@),
                total == sum_prepared_sizes(selected@.take(k2 as int)),
                forall|i: int|
                    0 <= i < k2 ==> {
                        let f = #[trigger] infos@[i];
                        let s = selected@[i];
                        &&& f.file_id == s.file_id
                        &&& f.name@ == s.name@
                        &&& f.relative_path@ == s.relative_path@
                        &&& f.size == s.size
                        &&& f.checksum@ == s.checksum@
                    },
            decreases selected@.len() - k2,
        {
            proof {
                assert(selected@.take(k2 + 1).drop_last() =~= selected@.take(k2 as int));
                assert(selected@.take(k2 + 1).last() == selected@[k2 as int]);
                crate::sender::lemma_sum_prepared_take_le(selected@, k2 + 1);
                assert(selected@[k2 as int].size <= MAX_FILE_SIZE);
            }
            let s = &selected[k2];
            infos.push(
                FileInfo {
                    file_id: s.file_id,
                    name: s.name.clone(),
                    relative_path: s.relative_path.clone(),
                    size: s.size,
                    checksum: s.checksum.clone(),
                },
            );
            total = total + s.size;
            k2 = k2 + 1;
        }
        proof {
            assert(selected@.take(selected@.len() as int) =~= selected@);
        }
        let session_id = generate_id();
        let request = AppRequest::Transfer(
            TransferRequest::Offer { session_id, files: infos, total_size: total },
        );
        Ok(OutboundOffer { peer_id, session_id, request, selected })
    }

    /// Digest the receiver's answer to an offer.  On acceptance with a key,
    /// the send session is created and registered; an acceptance without a
    /// key is a protocol error and reported as a rejection; a refusal is
    /// passed through.
    pub fn complete_send_offer(
        &mut self,
        offer: OutboundOffer,
        accepted: bool,
        key: Option<[u8; 32]>,
        reason: Option<String>,
        now_ms: u64,
    ) -> (r: StartSendResult)
        requires
            old(self).wf(),
            prepared_sizes_ok(offer.selected@),
        ensures
            final(self).wf(),
            r.session_id == offer.session_id,
            (accepted && key is Some) ==> {
                &&& r.accepted
                &&& final(self).spec_send_sessions().contains_key(offer.session_id)
                &&& final(self).spec_send_sessions()[offer.session_id].spec_files()
                    == offer.selected@
                &&& final(self).spec_send_sessions()[offer.session_id].spec_key()
                    == key.unwrap()@
            },
            (accepted && key is None) ==> (!r.accepted && final(self).spec_send_sessions() == old(self).spec_send_sessions()),
            !accepted ==> (!r.accepted && r.reason == reason && final(self).spec_send_sessions()
                == old(self).spec_send_sessions()),
            final(self).spec_prepared() == old(self).spec_prepared(),
            final(self).spec_pending() == old(self).spec_pending(),
            final(self).spec_receive_sessions() == old(self).spec_receive_sessions(),
    {
        if accepted {
            match key {
                Some(k) => {
                    let session = SendSession::new(offer.session_id, offer.selected, &k, now_ms);
                    proof {
                        lemma_send_sessions_insert(
                            self.spec_send_sessions(),
                            offer.session_id,
                            session,
                        );
                    }
                    self.send_sessions.insert(offer.session_id, session);
                    StartSendResult { session_id: offer.session_id, accepted: true, reason }
                },
                None => StartSendResult {
                    session_id: offer.session_id,
                    accepted: false,
                    reason: Some(String::from_str("protocol error: accepted without a key")),
                },
            }
        } else {
            StartSendResult { session_id: offer.session_id, accepted: false, reason }
        }
    }

    /// Cache an inbound offer until the user decides it.  An offer whose
    /// sizes are inconsistent or beyond the engine's limits is rejected.
    pub fn cache_inbound_offer(
        &mut self,
        pending_id: u64,
        peer_id: String,
        session_id: u128,
        files: Vec<FileInfo>,
        total_size: u64,
    ) -> (r: AppResult<()>)
        requires
            old(self).wf(),
        ensures
            final(self).wf(),
            !offer_sizes_ok(files@, total_size) ==> (r matches Err(e) && e is Transfer && final(self).spec_pending() == old(self).spec_pending()),
            offer_sizes_ok(files@, total_size) ==> (r is Ok && final(self).spec_pending() == old(self).spec_pending().insert(
                session_id,
                PendingOffer { pending_id, peer_id, session_id, files, total_size },
            )),
            final(self).spec_prepared() == old(self).spec_prepared(),
            final(self).spec_send_sessions() == old(self).spec_send_sessions(),
            final(self).spec_receive_sessions() == old(self).spec_receive_sessions(),
    {
        let mut total: u64 = 0;
        let mut k: usize = 0;
        let mut ok = true;
        while k < files.len()
            invariant
                self == old(self),
                old(self).wf(),
                k <= files@.len(),
                ok ==> total == sum_file_sizes(files@.take(k as int)),
                ok ==> forall|i: int|
                    0 <= i < k ==> (#[trigger] files@[i]).size <= MAX_FILE_SIZE,
                !ok ==> !offer_sizes_ok(files@, total_size),
            decreases files@.len() - k,
        {
            proof {
                assert(files@.take(k + 1).drop_last() =~= files@.take(k as int));
                assert(files@.take(k + 1).last() == files@[k as int]);
            }
            let f = &files[k];
            if f.size > MAX_FILE_SIZE {
                ok = false;
            } else if ok {
                if total > u64::MAX - f.size {
                    proof {
                        crate::receiver::lemma_sum_file_take_le(files@, k + 1);
                    }
                    ok = false;
                } else {
                    total = total + f.size;
                }
            }
            k = k + 1;
        }
        proof {
            assert(files@.take(files@.len() as int) =~= files@);
        }
        if !ok || !(total == total_size) {
            return Err(AppError::Transfer(String::from_str("offer sizes out of bounds")));
        }
        let offer = PendingOffer { pending_id, peer_id, session_id, files, total_size };
        proof {
            lemma_pending_insert(self.spec_pending(), session_id, offer);
        }
        self.pending.insert(session_id, offer);
        Ok(())
    }

    /// The pending offer of a session, if any.
    pub fn get_pending_offer(&self, session_id: u128) -> (r: Option<&PendingOffer>)
        requires
            self.wf(),
        ensures
            r is Some <==> self.spec_pending().contains_key(session_id),
            r matches Some(o) ==> *o == self.spec_pending()[session_id],
    {
        self.pending.get(session_id)
    }

    /// Accept an inbound offer: the offer leaves the cache, a fresh session
    /// key is drawn, the receive session is created and registered, and the
    /// acceptance — carrying the key — is handed back for the shell to send
    /// under the offer's pending id.
    pub fn accept_and_start_receive(
        &mut self,
        session_id: u128,
        save_path: String,
        now_ms: u64,
    ) -> (r: AppResult<(u64, TransferResponse)>)
        requires
            old(self).wf(),
        ensures
            final(self).wf(),
            !old(self).spec_pending().contains_key(session_id) ==> (r matches Err(e) && e
                is Transfer),
            old(self).spec_pending().contains_key(session_id) ==> r is Ok,
            final(self).spec_pending() =~= old(self).spec_pending().remove(session_id),
            r matches Ok(out) ==> {
                &&& old(self).spec_pending().contains_key(session_id)
                &&& out.0 == old(self).spec_pending()[session_id].pending_id
                &&& out.1 matches TransferResponse::OfferResult { accepted, key, reason }
                    && accepted && reason is None && (key matches Some(kb) && final(self).spec_receive_sessions()[session_id].spec_key() == kb@)
                &&& final(self).spec_receive_sessions().contains_key(session_id)
                &&& final(self).spec_receive_sessions()[session_id].spec_session_id()
                    == session_id
                &&& final(self).spec_receive_sessions()[session_id].spec_files() == old(self).spec_pending()[session_id].files@
                &&& !final(self).spec_receive_sessions()[session_id].spec_cancelled()
            },
            r is Err ==> final(self).spec_receive_sessions() == old(self).spec_receive_sessions(),
            final(self).spec_prepared() == old(self).spec_prepared(),
            final(self).spec_send_sessions() == old(self).spec_send_sessions(),
    {
        proof {
            lemma_pending_remove(self.spec_pending(), session_id);
        }
        let offer = match self.pending.remove(session_id) {
            Some(o) => o,
            None => {
                return Err(AppError::Transfer(String::from_str("pending offer not found")));
            },
        };
        proof {
            // The cache only ever holds size-consistent offers keyed by
            // their own session id.
            assert(offer_sizes_ok(offer.files@, offer.total_size) && offer.session_id
                == session_id);
        }
        let key = generate_key();
        let session = ReceiveSession::new(
            offer.session_id,
            offer.peer_id,
            offer.files,
            offer.total_size,
            FileSink::Path { save_dir: save_path },
            &key,
            now_ms,
        );
        let pending_id = offer.pending_id;
        proof {
            lemma_receive_sessions_insert(self.spec_receive_sessions(), session_id, session);
        }
        self.receive_sessions.insert(session_id, session);
        let response = TransferResponse::OfferResult {
            accepted: true,
            key: Some(key),
            reason: None,
        };
        Ok((pending_id, response))
    }

    /// Reject an inbound offer: the offer leaves the cache and the refusal
    /// is handed back for the shell to send under the offer's pending id.
    pub fn reject_and_respond(&mut self, session_id: u128) -> (r: AppResult<
        (u64, TransferResponse),
    >)
        requires
            old(self).wf(),
        ensures
            final(self).wf(),
            !old(self).spec_pending().contains_key(session_id) ==> (r matches Err(e) && e
                is Transfer),
            old(self).spec_pending().contains_key(session_id) ==> r is Ok,
            final(self).spec_pending() =~= old(self).spec_pending().remove(session_id),
            r matches Ok(out) ==> {
                &&& old(self).spec_pending().contains_key(session_id)
                &&& out.0 == old(self).spec_pending()[session_id].pending_id
                &&& out.1 matches TransferResponse::OfferResult { accepted, key, reason }
                    && !accepted && key is None && (reason matches Some(m) && m@
                    == "user-rejected"@)
            },
            final(self).spec_prepared() == old(self).spec_prepared(),
            final(self).spec_send_sessions() == old(self).spec_send_sessions(),
            final(self).spec_receive_sessions() == old(self).spec_receive_sessions(),
    {
        proof {
            lemma_pending_remove(self.spec_pending(), session_id);
        }
        let offer = match self.pending.remove(session_id) {
            Some(o) => o,
            None => {
                return Err(AppError::Transfer(String::from_str("pending offer not found")));
            },
        };
        let response = TransferResponse::OfferResult {
            accepted: false,
            key: None,
            reason: Some(String::from_str("user-rejected")),
        };
        Ok((offer.pending_id, response))
    }

    /// Take a send session out of the registry to drive it.
    pub fn take_send_session(&mut self, session_id: u128) -> (r: Option<SendSession>)
        requires
            old(self).wf(),
        ensures
            final(self).wf(),
            final(self).spec_send_sessions() =~= old(self).spec_send_sessions().remove(session_id),
            r is Some <==> old(self).spec_send_sessions().contains_key(session_id),
            r matches Some(s) ==> s == old(self).spec_send_sessions()[session_id] && s.wf(),
            final(self).spec_prepared() == old(self).spec_prepared(),
            final(self).spec_pending() == old(self).spec_pending(),
            final(self).spec_receive_sessions() == old(self).spec_receive_sessions(),
    {
        proof {
            lemma_send_sessions_remove(self.spec_send_sessions(), session_id);
        }
        self.send_sessions.remove(session_id)
    }

    /// Put a send session back into the registry.
    pub fn put_send_session(&mut self, session_id: u128, session: SendSession)
        requires
            old(self).wf(),
            session.wf(),
        ensures
            final(self).wf(),
            final(self).spec_send_sessions() =~= old(self).spec_send_sessions().insert(
                session_id,
                session,
            ),
            final(self).spec_prepared() == old(self).spec_prepared(),
            final(self).spec_pending() == old(self).spec_pending(),
            final(self).spec_receive_sessions() == old(self).spec_receive_sessions(),
    {
        proof {
            lemma_send_sessions_insert(self.spec_send_sessions(), session_id, session);
        }
        self.send_sessions.insert(session_id, session);
    }

    /// Take a receive session out of the registry to drive it.
    pub fn take_receive_session(&mut self, session_id: u128) -> (r: Option<ReceiveSession>)
        requires
            old(self).wf(),
        ensures
            final(self).wf(),
            final(self).spec_receive_sessions() =~= old(self).spec_receive_sessions().remove(
                session_id,
            ),
            r is Some <==> old(self).spec_receive_sessions().contains_key(session_id),
            r matches Some(s) ==> s == old(self).spec_receive_sessions()[session_id]
                && s.wf(),
            final(self).spec_prepared() == old(self).spec_prepared(),
            final(self).spec_pending() == old(self).spec_pending(),
            final(self).spec_send_sessions() == old(self).spec_send_sessions(),
    {
        proof {
            lemma_receive_sessions_remove(self.spec_receive_sessions(), session_id);
        }
        self.receive_sessions.remove(session_id)
    }

    /// Put a receive session back into the registry.
    pub fn put_receive_session(&mut self, session_id: u128, session: ReceiveSession)
        requires
            old(self).wf(),
            session.wf(),
        ensures
            final(self).wf(),
            final(self).spec_receive_sessions() =~= old(self).spec_receive_sessions().insert(
                session_id,
                session,
            ),
            final(self).spec_prepared() == old(self).spec_prepared(),
            final(self).spec_pending() == old(self).spec_pending(),
            final(self).spec_send_sessions() == old(self).spec_send_sessions(),
    {
        proof {
            lemma_receive_sessions_insert(self.spec_receive_sessions(), session_id, session);
        }
        self.receive_sessions.insert(session_id, session);
    }

    /// Cancel a send session: it leaves the registry for good, so no
    /// further chunk request of this session is ever served.
    pub fn cancel_send(&mut self, session_id: u128) -> (r: AppResult<()>)
        requires
            old(self).wf(),
        ensures
            final(self).wf(),
            !old(self).spec_send_sessions().contains_key(session_id) ==> (r matches Err(e) && e
                is Transfer),
            old(self).spec_send_sessions().contains_key(session_id) ==> r is Ok,
            final(self).spec_send_sessions() =~= old(self).spec_send_sessions().remove(session_id),
            !final(self).spec_send_sessions().contains_key(session_id),
            final(self).spec_prepared() == old(self).spec_prepared(),
            final(self).spec_pending() == old(self).spec_pending(),
            final(self).spec_receive_sessions() == old(self).spec_receive_sessions(),
    {
        proof {
            lemma_send_sessions_remove(self.spec_send_sessions(), session_id);
        }
        match self.send_sessions.remove(session_id) {
            Some(mut session) => {
                session.cancel();
                Ok(())
            },
            None => Err(AppError::Transfer(String::from_str("send session not found"))),
        }
    }

    /// Cancel a receive session.  Afterwards the session is absent from the
    /// registry, so no further chunk request is issued for it; the shell is
    /// handed the `Cancel` frame for the sender, every `.part` created so
    /// far for deletion, and the failure event for the UI.
    pub fn cancel_receive(&mut self, session_id: u128) -> (r: AppResult<CancelReceiveOutcome>)
        requires
            old(self).wf(),
        ensures
            final(self).wf(),
            !old(self).spec_receive_sessions().contains_key(session_id) ==> (r matches Err(e)
                && e is Transfer),
            old(self).spec_receive_sessions().contains_key(session_id) ==> r is Ok,
            final(self).spec_receive_sessions() =~= old(self).spec_receive_sessions().remove(
                session_id,
            ),
            !final(self).spec_receive_sessions().contains_key(session_id),
            r matches Ok(out) ==> {
                let s = old(self).spec_receive_sessions()[session_id];
                &&& out.cancel_frame matches AppRequest::Transfer(t) && t
                    matches TransferRequest::Cancel { session_id: sid, reason } && sid
                    == s.spec_session_id() && reason@ == "user-cancelled"@
                &&& out.parts_to_cleanup@ == s.spec_created_parts()
                &&& out.failed_event.session_id == s.spec_session_id()
                &&& out.failed_event.error@ == "user-cancelled"@
            },
            final(self).spec_prepared() == old(self).spec_prepared(),
            final(self).spec_pending() == old(self).spec_pending(),
            final(self).spec_send_sessions() == old(self).spec_send_sessions(),
    {
        proof {
            lemma_receive_sessions_remove(self.spec_receive_sessions(), session_id);
        }
        match self.receive_sessions.remove(session_id) {
            Some(mut session) => {
                proof {
                    assert(session.wf());
                }
                session.cancel();
                let cancel_frame = session.cancel_request();
                let parts = session.cleanup_parts();
                let mut parts_to_cleanup: Vec<PartFile> = Vec::new();
                let mut k: usize = 0;
                while k < parts.len()
                    invariant
                        k <= parts@.len(),
                        parts@ == session.spec_created_parts(),
                        parts_to_cleanup@ == parts@.take(k as int),
                    decreases parts@.len() - k,
                {
                    parts_to_cleanup.push(parts[k].clone());
                    proof {
                        assert(parts_to_cleanup@ =~= parts@.take(k + 1));
                    }
                    k = k + 1;
                }
                proof {
                    assert(parts@.take(parts@.len() as int) =~= parts@);
                }
                let failed_event = session.failed_event(String::from_str("user-cancelled"));
                Ok(CancelReceiveOutcome { cancel_frame, parts_to_cleanup, failed_event })
            },
            None => Err(AppError::Transfer(String::from_str("receive session not found"))),
        }
    }
}

} // verus!
