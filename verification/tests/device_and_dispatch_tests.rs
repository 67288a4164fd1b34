//! Connection inference, the runtime peer table, and event dispatching.

use swarmdrop::device::{ConnectionType, DeviceStatus, OsInfo, PairedDeviceInfo};
use swarmdrop::device_manager::{
    infer_connection_type, AddrProto, DeviceFilter, DeviceManager, MultiaddrInfo,
};
use swarmdrop::dispatch::{DispatchAction, NetManager, NodeEvent, UiEvent};
use swarmdrop::protocol::{
    AppRequest, AppResponse, FileInfo, TransferRequest, TransferResponse,
};
use swarmdrop::fs_scan::{summarize_entries, FileEntry};
use swarmdrop::pairing::{OnlineRecord, PairingManager};
use swarmdrop::registry::StrMap;

fn addr(protos: Vec<AddrProto>) -> MultiaddrInfo {
    MultiaddrInfo { protos }
}

fn lan_addr() -> MultiaddrInfo {
    addr(vec![AddrProto::Ip4(192, 168, 1, 7), AddrProto::Other])
}

fn public_addr() -> MultiaddrInfo {
    addr(vec![AddrProto::Ip4(47, 115, 172, 218), AddrProto::Other])
}

fn relay_addr() -> MultiaddrInfo {
    addr(vec![AddrProto::Ip4(47, 115, 172, 218), AddrProto::Circuit, AddrProto::Other])
}

#[test]
fn connection_inference_prefers_lan_then_direct_then_relay() {
    assert_eq!(infer_connection_type(&vec![lan_addr()]), Some(ConnectionType::Lan));
    assert_eq!(infer_connection_type(&vec![public_addr()]), Some(ConnectionType::Dcutr));
    assert_eq!(infer_connection_type(&vec![relay_addr()]), Some(ConnectionType::Relay));
    assert_eq!(
        infer_connection_type(&vec![relay_addr(), public_addr()]),
        Some(ConnectionType::Dcutr)
    );
    assert_eq!(
        infer_connection_type(&vec![relay_addr(), public_addr(), lan_addr()]),
        Some(ConnectionType::Lan)
    );
    assert_eq!(infer_connection_type(&Vec::new()), None);
    // Loopback and link-local count as LAN; unspecified counts as nothing.
    assert_eq!(
        infer_connection_type(&vec![addr(vec![AddrProto::Ip4(127, 0, 0, 1)])]),
        Some(ConnectionType::Lan)
    );
    assert_eq!(
        infer_connection_type(&vec![addr(vec![AddrProto::Ip4(169, 254, 3, 4)])]),
        Some(ConnectionType::Lan)
    );
    assert_eq!(
        infer_connection_type(&vec![addr(vec![AddrProto::Ip4(0, 0, 0, 0)])]),
        None
    );
}

#[test]
fn peer_table_tracks_connection_life_cycle() {
    let mut dm = DeviceManager::new();
    let peer = String::from("12D3KooWPeer");
    dm.note_discovered(peer.clone(), lan_addr(), 1);
    assert!(!dm.is_connected(&peer));
    assert_eq!(dm.discovered_count(), 1);
    assert_eq!(dm.connected_count(), 0);

    dm.note_connected(peer.clone(), 2);
    assert!(dm.is_connected(&peer));
    assert_eq!(dm.connected_count(), 1);

    dm.note_ping(&peer, 17);
    dm.note_hole_punched(&peer);

    dm.note_disconnected(&peer);
    assert!(!dm.is_connected(&peer));
    assert_eq!(dm.connected_count(), 0);
    assert_eq!(dm.discovered_count(), 1);
}

#[test]
fn duplicate_discovered_addresses_are_kept_once() {
    let mut dm = DeviceManager::new();
    let peer = String::from("p");
    dm.note_discovered(peer.clone(), lan_addr(), 0);
    dm.note_discovered(peer.clone(), lan_addr(), 0);
    dm.note_discovered(peer.clone(), public_addr(), 0);
    dm.note_connected(peer.clone(), 0);
    let paired: StrMap<PairedDeviceInfo> = StrMap::new();
    let devices = dm.get_devices(DeviceFilter::All, &paired);
    assert_eq!(devices.len(), 1);
    // One LAN + one public address: LAN wins.
    assert_eq!(devices[0].connection, Some(ConnectionType::Lan));
}

#[test]
fn device_query_filters_and_joins_the_paired_set() {
    let mut dm = DeviceManager::new();
    let online = String::from("12D3KooWOnline");
    let offline = String::from("12D3KooWOffline");
    dm.note_discovered(online.clone(), public_addr(), 0);
    dm.note_connected(online.clone(), 0);
    dm.note_identify(
        &online,
        String::from("swarmdrop/0.1.0; os=Linux; platform=linux; arch=x86_64; host=pal"),
    );

    let mut paired: StrMap<PairedDeviceInfo> = StrMap::new();
    paired.insert(
        offline.clone(),
        PairedDeviceInfo {
            peer_id: offline.clone(),
            os_info: OsInfo::new(
                String::from("sleepy"),
                String::from("mac"),
                String::from("darwin"),
                String::from("arm"),
            ),
            paired_at: 0,
        },
    );

    let all = dm.get_devices(DeviceFilter::All, &paired);
    assert_eq!(all.len(), 1);
    assert_eq!(all[0].os_info.hostname, "pal");
    assert!(matches!(all[0].status, DeviceStatus::Online));
    assert!(!all[0].is_paired);

    let connected = dm.get_devices(DeviceFilter::Connected, &paired);
    assert_eq!(connected.len(), 1);

    let paired_devices = dm.get_devices(DeviceFilter::Paired, &paired);
    assert_eq!(paired_devices.len(), 1);
    assert_eq!(paired_devices[0].os_info.hostname, "sleepy");
    assert!(matches!(paired_devices[0].status, DeviceStatus::Offline));
    assert!(paired_devices[0].is_paired);

    dm.note_disconnected(&online);
    let connected = dm.get_devices(DeviceFilter::Connected, &paired);
    assert_eq!(connected.len(), 0);
}

#[test]
fn hole_punch_overrides_address_inference() {
    let mut dm = DeviceManager::new();
    let peer = String::from("p");
    dm.note_discovered(peer.clone(), relay_addr(), 0);
    dm.note_connected(peer.clone(), 0);
    dm.note_hole_punched(&peer);
    let paired: StrMap<PairedDeviceInfo> = StrMap::new();
    let devices = dm.get_devices(DeviceFilter::All, &paired);
    assert_eq!(devices[0].connection, Some(ConnectionType::Dcutr));
}

fn offer_event(peer: &str, session_id: u128) -> NodeEvent {
    NodeEvent::InboundRequest {
        peer_id: String::from(peer),
        pending_id: 42,
        request: AppRequest::Transfer(TransferRequest::Offer {
            session_id,
            files: vec![FileInfo {
                file_id: 0,
                name: String::from("a.txt"),
                relative_path: String::from("a.txt"),
                size: 3,
                checksum: String::from("00"),
            }],
            total_size: 3,
        }),
    }
}

#[test]
fn offer_from_unpaired_peer_is_refused_without_user_interaction() {
    let mut net = NetManager::new(String::from("self"), Vec::new());
    let actions = net.dispatch_event(offer_event("12D3KooWStranger", 555), 0, 0);
    assert_eq!(actions.len(), 1);
    match &actions[0] {
        DispatchAction::SendResponse { pending_id, response } => {
            assert_eq!(*pending_id, 42);
            match response {
                AppResponse::Transfer(TransferResponse::OfferResult {
                    accepted,
                    key,
                    reason,
                }) => {
                    assert!(!accepted);
                    assert!(key.is_none());
                    assert_eq!(reason.as_deref(), Some("not-paired"));
                },
                _ => panic!("expected an offer result"),
            }
        },
        _ => panic!("expected an automatic refusal"),
    }
    assert!(net.transfer.get_pending_offer(555).is_none());
}

#[test]
fn offer_from_paired_peer_is_cached_and_surfaced() {
    let mut net = NetManager::new(String::from("self"), Vec::new());
    net.pairing.add_paired_device(PairedDeviceInfo {
        peer_id: String::from("12D3KooWFriend"),
        os_info: OsInfo::new(
            String::from("friendbox"),
            String::from("Linux"),
            String::from("linux"),
            String::from("x86_64"),
        ),
        paired_at: 0,
    });
    let actions = net.dispatch_event(offer_event("12D3KooWFriend", 556), 0, 0);
    assert!(net.transfer.get_pending_offer(556).is_some());
    let mut saw_offer_event = false;
    for a in &actions {
        if let DispatchAction::Emit(UiEvent::TransferOffer { device_name, total_size, .. }) = a {
            assert_eq!(device_name, "friendbox");
            assert_eq!(*total_size, 3);
            saw_offer_event = true;
        }
    }
    assert!(saw_offer_event);
}

#[test]
fn listening_event_updates_network_status() {
    let mut net = NetManager::new(String::from("self"), Vec::new());
    let actions = net.dispatch_event(
        NodeEvent::Listening { addr: String::from("/ip4/192.168.1.2/tcp/4001") },
        0,
        0,
    );
    assert_eq!(actions.len(), 1);
    match &actions[0] {
        DispatchAction::Emit(UiEvent::NetworkStatusChanged(status)) => {
            assert_eq!(status.listen_addrs.len(), 1);
            assert_eq!(status.peer_id, "self");
        },
        _ => panic!("expected a status event"),
    }
}

#[test]
fn peer_cancel_event_acks_and_reports_failure() {
    let mut net = NetManager::new(String::from("self"), Vec::new());
    let actions = net.dispatch_event(
        NodeEvent::InboundRequest {
            peer_id: String::from("p"),
            pending_id: 7,
            request: AppRequest::Transfer(TransferRequest::Cancel {
                session_id: 9,
                reason: String::from("changed my mind"),
            }),
        },
        0,
        0,
    );
    let mut saw_ack = false;
    let mut saw_failed = false;
    for a in &actions {
        match a {
            DispatchAction::SendResponse { pending_id, response } => {
                assert_eq!(*pending_id, 7);
                assert!(matches!(
                    response,
                    AppResponse::Transfer(TransferResponse::Ack { session_id: 9 })
                ));
                saw_ack = true;
            },
            DispatchAction::Emit(UiEvent::TransferFailed(e)) => {
                assert_eq!(e.session_id, 9);
                assert_eq!(e.error, "peer-cancelled:changed my mind");
                saw_failed = true;
            },
            _ => {},
        }
    }
    assert!(saw_ack && saw_failed);
}

#[test]
fn pairing_request_event_is_cached_and_surfaced() {
    let mut net = NetManager::new(String::from("self"), Vec::new());
    let actions = net.dispatch_event(
        NodeEvent::InboundRequest {
            peer_id: String::from("12D3KooWAsker"),
            pending_id: 3,
            request: AppRequest::Pairing(swarmdrop::protocol::PairingRequest {
                os_info: OsInfo::new(
                    String::from("askerbox"),
                    String::from("Linux"),
                    String::from("linux"),
                    String::from("x86_64"),
                ),
                timestamp: 0,
                method: swarmdrop::protocol::PairingMethod::Direct,
            }),
        },
        0,
        0,
    );
    let mut saw_request = false;
    for a in &actions {
        if let DispatchAction::Emit(UiEvent::PairingRequestReceived { pending_id, .. }) = a {
            assert_eq!(*pending_id, 3);
            saw_request = true;
        }
    }
    assert!(saw_request);
}

#[test]
fn usable_online_record_checks_expiry_and_addresses() {
    let record = OnlineRecord {
        os_info: OsInfo::new(
            String::from("h"),
            String::from("o"),
            String::from("p"),
            String::from("a"),
        ),
        listen_addrs: vec![String::from("/ip4/10.0.0.1/tcp/1")],
        timestamp: 0,
    };
    assert!(PairingManager::usable_online_record(&record, None, 100));
    assert!(PairingManager::usable_online_record(&record, Some(100), 100));
    assert!(!PairingManager::usable_online_record(&record, Some(99), 100));
    let empty = OnlineRecord {
        os_info: record.os_info.clone(),
        listen_addrs: Vec::new(),
        timestamp: 0,
    };
    assert!(!PairingManager::usable_online_record(&empty, None, 100));
}

#[test]
fn summarized_listing_totals_files() {
    let entries = vec![
        FileEntry { path: String::from("/a"), name: String::from("a"), size: 3 },
        FileEntry { path: String::from("/b"), name: String::from("b"), size: 4 },
    ];
    let r = summarize_entries(true, entries);
    assert!(r.is_directory);
    assert_eq!(r.total_count, 2);
    assert_eq!(r.total_size, 7);
}
