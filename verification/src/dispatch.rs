//! The event dispatcher and the node it drives.
//!
//! The overlay delivers a single ordered event stream.  Each event first
//! updates the runtime peer table, then is dispatched: network-status
//! changes update the status fields, peer-set changes refresh the device
//! list, and inbound requests are decided — a pairing request is cached for
//! the user, an offer from an unpaired peer is refused on the spot, a chunk
//! request is routed to its send session, completion and cancellation close
//! sessions down.  The dispatcher returns the actions the shell must carry
//! out: responses to send, events to emit, notifications to raise, part
//! files to delete.

use vstd::prelude::*;
use vstd::string::*;

use crate::device_manager::{DeviceManager, MultiaddrInfo};
use crate::pairing::PairingManager;
use crate::progress::{TransferCompleteEvent, TransferFailedEvent};
use crate::protocol::{
    AppRequest, AppResponse, FileInfo, PairingRequest, TransferRequest, TransferResponse,
};
use crate::sink::PartFile;
use crate::transfer_manager::TransferManager;

verus! {

/// The NAT reachability the overlay has determined.
#[derive(Debug, Clone, Copy, PartialEq, Eq, Structural)]
pub enum NatStatus {
    Public,
    Private,
    Unknown,
}

/// Whether the node is running.
#[derive(Debug, Clone, Copy, PartialEq, Eq, Structural)]
pub enum NodeStatus {
    Running,
    Stopped,
}

/// A snapshot of the node's network state.
#[derive(Debug)]
pub struct NetworkStatus {
    pub status: NodeStatus,
    pub peer_id: String,
    pub listen_addrs: Vec<String>,
    pub nat_status: NatStatus,
    pub public_addr: Option<String>,
    pub connected_peers: usize,
    pub discovered_peers: usize,
    pub relay_ready: bool,
    pub bootstrap_connected: bool,
}

/// One event from the overlay, as the engine reads it.
#[derive(Debug)]
pub enum NodeEvent {
    /// The node listens on a new address.
    Listening { addr: String },
    /// The overlay determined the NAT status.
    NatStatusChanged { status: NatStatus, public_addr: Option<String> },
    /// A relay accepted a reservation.
    RelayReservationAccepted,
    /// Peers were discovered with their addresses.
    PeersDiscovered { peers: Vec<(String, MultiaddrInfo)> },
    /// A peer connected.
    PeerConnected { peer_id: String },
    /// A peer disconnected.
    PeerDisconnected { peer_id: String },
    /// A peer identified itself.
    IdentifyReceived { peer_id: String, agent_version: String },
    /// A ping round trip completed.
    PingSuccess { peer_id: String, rtt_ms: u64 },
    /// A hole punch succeeded.
    HolePunchSucceeded { peer_id: String },
    /// A hole punch failed; the relay path remains.
    HolePunchFailed { peer_id: String, error: String },
    /// A request arrived, to be answered under `pending_id`.
    InboundRequest { peer_id: String, pending_id: u64, request: AppRequest },
}

/// A domain event delivered to the UI.
#[derive(Debug)]
pub enum UiEvent {
    NetworkStatusChanged(NetworkStatus),
    DevicesChanged,
    PairingRequestReceived { peer_id: String, pending_id: u64 },
    TransferOffer { session_id: u128, peer_id: String, device_name: String, total_size: u64 },
    TransferComplete(TransferCompleteEvent),
    TransferFailed(TransferFailedEvent),
}

/// One thing the shell must do after dispatching an event.
#[derive(Debug)]
pub enum DispatchAction {
    /// Deliver a domain event to the UI.
    Emit(UiEvent),
    /// Send a response under the overlay's pending id.
    SendResponse { pending_id: u64, response: AppResponse },
    /// Raise a system notification if the window is unfocused.
    Notify { title: String, body: String },
    /// Serve a chunk request from the named send session, answering under
    /// the pending id.
    ServeChunkRequest { session_id: u128, file_id: u32, chunk_index: u32, pending_id: u64 },
    /// Delete the listed part files.
    CleanupParts { parts: Vec<PartFile> },
}

/// The single action of a network-status change: one status emission.
pub open spec fn emits_status_only(r: Seq<DispatchAction>) -> bool {
    &&& r.len() == 1
    &&& r[0] matches DispatchAction::Emit(UiEvent::NetworkStatusChanged(_))
}

/// The actions of a peer-set change: a device-list refresh followed by a
/// status emission.
pub open spec fn emits_devices_and_status(r: Seq<DispatchAction>) -> bool {
    &&& r.len() == 2
    &&& r[0] matches DispatchAction::Emit(UiEvent::DevicesChanged)
    &&& r[1] matches DispatchAction::Emit(UiEvent::NetworkStatusChanged(_))
}

/// The single action that refuses an offer from an unpaired peer: the
/// automatic `not-paired` rejection, with no user interaction.
pub open spec fn refuses_unpaired_offer(r: Seq<DispatchAction>, pending_id: u64) -> bool {
    &&& r.len() == 1
    &&& r[0] matches DispatchAction::SendResponse {
        pending_id: pid,
        response: AppResponse::Transfer(TransferResponse::OfferResult { accepted, key, reason }),
    } && pid == pending_id && !accepted && key is None && (reason matches Some(m) && m@
        == "not-paired"@)
}

/// The node: the managers and the network-status fields, created by
/// `start` and dropped by `shutdown`.
pub struct NetManager {
    pub peer_id: String,
    pub pairing: PairingManager,
    pub devices: DeviceManager,
    pub transfer: TransferManager,
    pub listen_addrs: Vec<String>,
    pub nat_status: NatStatus,
    pub public_addr: Option<String>,
    pub relay_ready: bool,
    pub bootstrap_connected: bool,
}

impl NetManager {
    /// The node invariant: each manager holds its own.
    pub open spec fn wf(&self) -> bool {
        &&& self.pairing.wf()
        &&& self.devices.wf()
        &&& self.transfer.wf()
    }

    /// A node for this peer with the persisted paired devices restored.
    pub fn new(peer_id: String, paired_devices: Vec<crate::device::PairedDeviceInfo>) -> (r: Self)
        ensures
            r.wf(),
            r.peer_id == peer_id,
    {
        let pairing = PairingManager::new(peer_id.clone(), paired_devices);
        NetManager {
            peer_id,
            pairing,
            devices: DeviceManager::new(),
            transfer: TransferManager::new(),
            listen_addrs: Vec::new(),
            nat_status: NatStatus::Unknown,
            public_addr: None,
            relay_ready: false,
            bootstrap_connected: false,
        }
    }

    /// The current network-status snapshot.
    pub fn build_network_status(&self) -> (r: NetworkStatus)
        requires
            self.wf(),
        ensures
            r.status is Running,
            r.peer_id@ == self.peer_id@,
            r.listen_addrs@.len() == self.listen_addrs@.len(),
            r.nat_status == self.nat_status,
            r.public_addr == self.public_addr,
            r.connected_peers == crate::device_manager::count_connected(
                self.devices.spec_peer_entries(),
            ),
            r.discovered_peers == self.devices.spec_peer_entries().len(),
            r.relay_ready == self.relay_ready,
            r.bootstrap_connected == self.bootstrap_connected,
    {
        let mut listen_addrs: Vec<String> = Vec::new();
        let mut k: usize = 0;
        while k < self.listen_addrs.len()
            invariant
                k <= self.listen_addrs@.len(),
                listen_addrs@.len() == k,
            decreases self.listen_addrs@.len() - k,
        {
            listen_addrs.push(self.listen_addrs[k].clone());
            k = k + 1;
        }
        NetworkStatus {
            status: NodeStatus::Running,
            peer_id: self.peer_id.clone(),
            listen_addrs,
            nat_status: self.nat_status,
            public_addr: match &self.public_addr {
                Some(a) => Some(a.clone()),
                None => None,
            },
            connected_peers: self.devices.connected_count(),
            discovered_peers: self.devices.discovered_count(),
            relay_ready: self.relay_ready,
            bootstrap_connected: self.bootstrap_connected,
        }
    }

    /// Dispatch one overlay event.
    ///
    /// The peer table always digests the event first.  An inbound `Offer`
    /// from a peer outside the paired set is refused on the spot with
    /// reason `not-paired` and is never cached; an offer from a paired peer
    /// is cached and surfaced to the user.  Completion and cancellation
    /// remove the session they name; a cancellation of a receive session
    /// also schedules its part files for deletion.
    pub fn dispatch_event(&mut self, event: NodeEvent, now: i64, now_ms: u64) -> (r: Vec<
        DispatchAction,
    >)
        requires
            old(self).wf(),
        ensures
            final(self).wf(),
            (match event {
                NodeEvent::InboundRequest { peer_id, pending_id, request } => match request {
                    AppRequest::Transfer(TransferRequest::Offer {
                        session_id,
                        files,
                        total_size,
                    }) => {
                        &&& !old(self).pairing.paired().contains_key(peer_id@) ==> (
                        refuses_unpaired_offer(r@, pending_id) && final(self).transfer.spec_pending() == old(self).transfer.spec_pending() && final(self).pairing.paired() == old(self).pairing.paired())
                        &&& (old(self).pairing.paired().contains_key(peer_id@)
                            && crate::receiver::offer_sizes_ok(files@, total_size)) ==> (final(self).transfer.spec_pending().contains_key(session_id) && r@.len() == 2 && (
                        r@[1] matches DispatchAction::Emit(UiEvent::TransferOffer {
                            session_id: sid2,
                            total_size: ts2,
                            ..
                        }) && sid2 == session_id && ts2 == total_size))
                    },
                    AppRequest::Pairing(req) => {
                        &&& final(self).pairing.pending().contains_key(pending_id as u128)
                        &&& r@.len() == 2
                        &&& (r@[1] matches DispatchAction::Emit(UiEvent::PairingRequestReceived {
                            peer_id: p2,
                            pending_id: pid2,
                        }) && pid2 == pending_id && p2@ == peer_id@)
                    },
                    AppRequest::Transfer(TransferRequest::ChunkRequest {
                        session_id,
                        file_id,
                        chunk_index,
                    }) => {
                        &&& r@.len() == 1
                        &&& (r@[0] matches DispatchAction::ServeChunkRequest {
                            session_id: s2,
                            file_id: f2,
                            chunk_index: c2,
                            pending_id: p2,
                        } && s2 == session_id && f2 == file_id && c2 == chunk_index && p2
                            == pending_id)
                    },
                    AppRequest::Transfer(TransferRequest::Complete { session_id }) => {
                        &&& !final(self).transfer.spec_send_sessions().contains_key(session_id)
                        &&& (r@[0] matches DispatchAction::SendResponse {
                            pending_id: p2,
                            response: AppResponse::Transfer(TransferResponse::Ack {
                                session_id: s3,
                            }),
                        } && p2 == pending_id && s3 == session_id)
                        &&& old(self).transfer.spec_send_sessions().contains_key(session_id)
                            ==> (r@.len() == 2 && (r@[1] matches DispatchAction::Emit(
                            UiEvent::TransferComplete(e),
                        ) && e.session_id == session_id))
                        &&& !old(self).transfer.spec_send_sessions().contains_key(session_id)
                            ==> r@.len() == 1
                    },
                    AppRequest::Transfer(TransferRequest::Cancel { session_id, .. }) => {
                        &&& !final(self).transfer.spec_send_sessions().contains_key(session_id)
                        &&& !final(self).transfer.spec_receive_sessions().contains_key(session_id)
                        &&& r@.len() >= 2
                        &&& (r@.last() matches DispatchAction::Emit(UiEvent::TransferFailed(e))
                            && e.session_id == session_id)
                        &&& (r@[r@.len() - 2] matches DispatchAction::SendResponse {
                            pending_id: p2,
                            response: AppResponse::Transfer(TransferResponse::Ack {
                                session_id: s3,
                            }),
                        } && p2 == pending_id && s3 == session_id)
                        &&& old(self).transfer.spec_receive_sessions().contains_key(session_id)
                            ==> (r@.len() == 3 && (r@[0] matches DispatchAction::CleanupParts {
                            parts,
                        } && parts@ == old(self).transfer.spec_receive_sessions()[session_id].spec_created_parts()))
                        &&& !old(self).transfer.spec_receive_sessions().contains_key(session_id)
                            ==> r@.len() == 2
                    },
                },
                NodeEvent::Listening { addr } => emits_status_only(r@) && final(self).listen_addrs@
                    == old(self).listen_addrs@.push(addr),
                NodeEvent::NatStatusChanged { status, public_addr } => emits_status_only(r@)
                    && final(self).nat_status == status && final(self).public_addr == public_addr,
                NodeEvent::RelayReservationAccepted => emits_status_only(r@) && final(self).relay_ready,
                NodeEvent::PeersDiscovered { peers } => emits_devices_and_status(r@) && forall|i: int|
                    0 <= i < peers@.len() ==> final(self).devices.peers().contains_key(
                        (#[trigger] peers@[i]).0@,
                    ),
                NodeEvent::PeerConnected { .. } => emits_devices_and_status(r@),
                NodeEvent::PeerDisconnected { .. } => emits_devices_and_status(r@),
                NodeEvent::IdentifyReceived { .. } => emits_devices_and_status(r@),
                NodeEvent::PingSuccess { .. } => emits_devices_and_status(r@),
                NodeEvent::HolePunchSucceeded { .. } => emits_devices_and_status(r@),
                NodeEvent::HolePunchFailed { .. } => r@.len() == 0,
            }),
    {
        let mut actions: Vec<DispatchAction> = Vec::new();
        match event {
            NodeEvent::Listening { addr } => {
                self.listen_addrs.push(addr);
                let status = self.build_network_status();
                actions.push(DispatchAction::Emit(UiEvent::NetworkStatusChanged(status)));
            },
            NodeEvent::NatStatusChanged { status, public_addr } => {
                self.nat_status = status;
                self.public_addr = public_addr;
                let snapshot = self.build_network_status();
                actions.push(DispatchAction::Emit(UiEvent::NetworkStatusChanged(snapshot)));
            },
            NodeEvent::RelayReservationAccepted => {
                self.relay_ready = true;
                let snapshot = self.build_network_status();
                actions.push(DispatchAction::Emit(UiEvent::NetworkStatusChanged(snapshot)));
            },
            NodeEvent::PeersDiscovered { peers } => {
                let mut k: usize = 0;
                while k < peers.len()
                    invariant
                        k <= peers@.len(),
                        self.wf(),
                        forall|i: int|
                            0 <= i < k ==> self.devices.peers().contains_key(
                                (#[trigger] peers@[i]).0@,
                            ),
                    decreases peers@.len() - k,
                {
                    let pair = &peers[k];
                    let ghost before_map = self.devices.peers();
                    self.devices.note_discovered(pair.0.clone(), pair.1.clone(), now);
                    proof {
                        assert forall|i: int|
                            0 <= i < k + 1 implies self.devices.peers().contains_key(
                            (#[trigger] peers@[i]).0@,
                        ) by {
                            if i < k {
                                assert(before_map.contains_key(peers@[i].0@));
                            }
                        }
                    }
                    k = k + 1;
                }
                actions.push(DispatchAction::Emit(UiEvent::DevicesChanged));
                let snapshot = self.build_network_status();
                actions.push(DispatchAction::Emit(UiEvent::NetworkStatusChanged(snapshot)));
            },
            NodeEvent::PeerConnected { peer_id } => {
                self.devices.note_connected(peer_id, now);
                actions.push(DispatchAction::Emit(UiEvent::DevicesChanged));
                let snapshot = self.build_network_status();
                actions.push(DispatchAction::Emit(UiEvent::NetworkStatusChanged(snapshot)));
            },
            NodeEvent::PeerDisconnected { peer_id } => {
                self.devices.note_disconnected(&peer_id);
                actions.push(DispatchAction::Emit(UiEvent::DevicesChanged));
                let snapshot = self.build_network_status();
                actions.push(DispatchAction::Emit(UiEvent::NetworkStatusChanged(snapshot)));
            },
            NodeEvent::IdentifyReceived { peer_id, agent_version } => {
                self.devices.note_identify(&peer_id, agent_version);
                actions.push(DispatchAction::Emit(UiEvent::DevicesChanged));
                let snapshot = self.build_network_status();
                actions.push(DispatchAction::Emit(UiEvent::NetworkStatusChanged(snapshot)));
            },
            NodeEvent::PingSuccess { peer_id, rtt_ms } => {
                self.devices.note_ping(&peer_id, rtt_ms);
                actions.push(DispatchAction::Emit(UiEvent::DevicesChanged));
                let snapshot = self.build_network_status();
                actions.push(DispatchAction::Emit(UiEvent::NetworkStatusChanged(snapshot)));
            },
            NodeEvent::HolePunchSucceeded { peer_id } => {
                self.devices.note_hole_punched(&peer_id);
                actions.push(DispatchAction::Emit(UiEvent::DevicesChanged));
                let snapshot = self.build_network_status();
                actions.push(DispatchAction::Emit(UiEvent::NetworkStatusChanged(snapshot)));
            },
            NodeEvent::HolePunchFailed { .. } => {
                // Log-only: the relay path remains available.
            },
            NodeEvent::InboundRequest { peer_id, pending_id, request } => {
                match request {
                    AppRequest::Pairing(req) => {
                        self.handle_inbound_pairing(peer_id, pending_id, req, &mut actions);
                    },
                    AppRequest::Transfer(TransferRequest::Offer {
                        session_id,
                        files,
                        total_size,
                    }) => {
                        self.handle_inbound_offer(
                            peer_id,
                            pending_id,
                            session_id,
                            files,
                            total_size,
                            &mut actions,
                        );
                    },
                    AppRequest::Transfer(TransferRequest::ChunkRequest {
                        session_id,
                        file_id,
                        chunk_index,
                    }) => {
                        actions.push(
                            DispatchAction::ServeChunkRequest {
                                session_id,
                                file_id,
                                chunk_index,
                                pending_id,
                            },
                        );
                    },
                    AppRequest::Transfer(TransferRequest::Complete { session_id }) => {
                        let stats = match self.transfer.take_send_session(session_id) {
                            Some(session) => {
                                session.handle_complete();
                                Some((session.total_bytes_sent(), session.elapsed_ms(now_ms)))
                            },
                            None => None,
                        };
                        actions.push(
                            DispatchAction::SendResponse {
                                pending_id,
                                response: AppResponse::Transfer(
                                    TransferResponse::Ack { session_id },
                                ),
                            },
                        );
                        if let Some((total_bytes, elapsed_ms)) = stats {
                            actions.push(
                                DispatchAction::Emit(
                                    UiEvent::TransferComplete(
                                        TransferCompleteEvent {
                                            session_id,
                                            direction: crate::progress::TransferDirection::Send,
                                            total_bytes,
                                            elapsed_ms,
                                            save_path: None,
                                        },
                                    ),
                                ),
                            );
                        }
                    },
                    AppRequest::Transfer(TransferRequest::Cancel { session_id, reason }) => {
                        match self.transfer.take_send_session(session_id) {
                            Some(mut session) => {
                                session.handle_cancel();
                            },
                            None => {},
                        }
                        match self.transfer.take_receive_session(session_id) {
                            Some(mut session) => {
                                session.cancel();
                                let parts = session.cleanup_parts();
                                let mut parts_to_cleanup: Vec<PartFile> = Vec::new();
                                let mut k: usize = 0;
                                while k < parts.len()
                                    invariant
                                        k <= parts@.len(),
                                        parts@ == session.spec_created_parts(),
                                        parts_to_cleanup@ == parts@.take(k as int),
                                    decreases parts@.len() - k,
                                {
                                    parts_to_cleanup.push(parts[k].clone());
                                    proof {
                                        assert(parts_to_cleanup@ =~= parts@.take(k + 1));
                                    }
                                    k = k + 1;
                                }
                                proof {
                                    assert(parts@.take(parts@.len() as int) =~= parts@);
                                }
                                actions.push(DispatchAction::CleanupParts {
                                    parts: parts_to_cleanup,
                                });
                            },
                            None => {},
                        }
                        actions.push(
                            DispatchAction::SendResponse {
                                pending_id,
                                response: AppResponse::Transfer(
                                    TransferResponse::Ack { session_id },
                                ),
                            },
                        );
                        let mut error = String::from_str("peer-cancelled:");
                        error.append(reason.as_str());
                        actions.push(
                            DispatchAction::Emit(
                                UiEvent::TransferFailed(
                                    TransferFailedEvent {
                                        session_id,
                                        direction: crate::progress::TransferDirection::Unknown,
                                        error,
                                    },
                                ),
                            ),
                        );
                    },
                }
            },
        }
        actions
    }

    /// Cache an inbound pairing request and surface it.
    fn handle_inbound_pairing(
        &mut self,
        peer_id: String,
        pending_id: u64,
        req: PairingRequest,
        actions: &mut Vec<DispatchAction>,
    )
        requires
            old(self).wf(),
        ensures
            final(self).wf(),
            final(self).pairing.pending().contains_key(pending_id as u128),
            final(actions)@.len() == old(actions)@.len() + 2,
            (final(actions)@.last() matches DispatchAction::Emit(UiEvent::PairingRequestReceived {
                peer_id: p2,
                pending_id: pid2,
            }) && pid2 == pending_id && p2@ == peer_id@),
            final(self).transfer.spec_pending() == old(self).transfer.spec_pending(),
            final(self).pairing.paired() == old(self).pairing.paired(),
    {
        let hostname = req.os_info.hostname.clone();
        self.pairing.cache_inbound_request(peer_id.clone(), pending_id, req.os_info);
        let mut body = hostname;
        body.append(" asks to pair with you");
        actions.push(
            DispatchAction::Notify { title: String::from_str("Pairing request"), body },
        );
        actions.push(
            DispatchAction::Emit(UiEvent::PairingRequestReceived { peer_id, pending_id }),
        );
    }

    /// Admit or refuse an inbound offer: a peer outside the paired set is
    /// refused with reason `not-paired` and nothing is cached; a paired
    /// peer's offer is cached — its sizes permitting — and surfaced.
    fn handle_inbound_offer(
        &mut self,
        peer_id: String,
        pending_id: u64,
        session_id: u128,
        files: Vec<FileInfo>,
        total_size: u64,
        actions: &mut Vec<DispatchAction>,
    )
        requires
            old(self).wf(),
        ensures
            final(self).wf(),
            !old(self).pairing.paired().contains_key(peer_id@) ==> {
                &&& final(actions)@.len() == old(actions)@.len() + 1
                &&& final(actions)@.last() matches DispatchAction::SendResponse {
                    pending_id: pid,
                    response: AppResponse::Transfer(TransferResponse::OfferResult {
                        accepted,
                        key,
                        reason,
                    }),
                } && pid == pending_id && !accepted && key is None && (reason matches Some(m)
                    && m@ == "not-paired"@)
                &&& final(self).transfer.spec_pending() == old(self).transfer.spec_pending()
                &&& final(self).pairing.paired() == old(self).pairing.paired()
            },
            (old(self).pairing.paired().contains_key(peer_id@)
                && crate::receiver::offer_sizes_ok(files@, total_size)) ==> {
                &&& final(self).transfer.spec_pending().contains_key(session_id)
                &&& final(actions)@.len() == old(actions)@.len() + 2
                &&& final(actions)@.last() matches DispatchAction::Emit(UiEvent::TransferOffer {
                    session_id: sid,
                    total_size: ts,
                    ..
                }) && sid == session_id && ts == total_size
            },
            final(self).pairing.paired() == old(self).pairing.paired(),
    {
        if !self.pairing.is_paired(&peer_id) {
            actions.push(
                DispatchAction::SendResponse {
                    pending_id,
                    response: AppResponse::Transfer(
                        TransferResponse::OfferResult {
                            accepted: false,
                            key: None,
                            reason: Some(String::from_str("not-paired")),
                        },
                    ),
                },
            );
            return ;
        }
        let device_name = match self.pairing.paired_hostname(&peer_id) {
            Some(name) => name,
            None => {
                let n = peer_id.unicode_len();
                let take_n = if n < 8 {
                    n
                } else {
                    8
                };
                peer_id.as_str().substring_char(0, take_n).to_owned()
            },
        };
        match self.transfer.cache_inbound_offer(
            pending_id,
            peer_id.clone(),
            session_id,
            files,
            total_size,
        ) {
            Ok(()) => {},
            Err(_) => {
                actions.push(
                    DispatchAction::SendResponse {
                        pending_id,
                        response: AppResponse::Transfer(
                            TransferResponse::OfferResult {
                                accepted: false,
                                key: None,
                                reason: Some(String::from_str("offer sizes out of bounds")),
                            },
                        ),
                    },
                );
                return ;
            },
        }
        let mut body = device_name.clone();
        body.append(" wants to send you files");
        actions.push(
            DispatchAction::Notify { title: String::from_str("Incoming file transfer"), body },
        );
        actions.push(
            DispatchAction::Emit(
                UiEvent::TransferOffer { session_id, peer_id, device_name, total_size },
            ),
        );
    }
}

} // verus!
