//! Pairing: code life cycle, single use, expiry, and the agent-string
//! grammar.

use swarmdrop::device::OsInfo;
use swarmdrop::errors::AppError;
use swarmdrop::pairing::{PairingCodeInfo, PairingManager, ShareCodeRecord};
use swarmdrop::protocol::{PairingMethod, PairingResponse};
use sha2::Digest;

fn os_info() -> OsInfo {
    OsInfo::new(
        String::from("box"),
        String::from("Linux"),
        String::from("linux"),
        String::from("x86_64"),
    )
}

fn manager() -> PairingManager {
    PairingManager::new(String::from("12D3KooWSelf"), Vec::new())
}

#[test]
fn generated_code_is_six_digits() {
    let info = PairingCodeInfo::generate(1000, 300);
    assert_eq!(info.code.len(), 6);
    assert!(info.code.chars().all(|c| c.is_ascii_digit()));
    assert_eq!(info.created_at, 1000);
    assert_eq!(info.expires_at, 1300);
    assert!(!info.is_expired(1300));
    assert!(info.is_expired(1301));
}

#[test]
fn code_pairing_is_single_use() {
    let mut m = manager();
    let (info, _record) = m.generate_code(1000, 300, os_info(), Vec::new());
    m.cache_inbound_request(String::from("12D3KooWPeer"), 5, os_info());

    let method = PairingMethod::Code { code: info.code.clone() };
    let decision = m
        .decide_pairing(5, &method, PairingResponse::Success, 1100, 1100_000)
        .unwrap();
    assert!(matches!(decision.response, PairingResponse::Success));
    let added = decision.added.unwrap();
    assert_eq!(added.peer_id, "12D3KooWPeer");
    assert!(m.is_paired(&String::from("12D3KooWPeer")));

    // The code was consumed: the same code now fails.
    m.cache_inbound_request(String::from("12D3KooWOther"), 6, os_info());
    let again = m.decide_pairing(6, &method, PairingResponse::Success, 1100, 1100_000);
    assert!(matches!(again, Err(AppError::InvalidCode)));
    assert!(!m.is_paired(&String::from("12D3KooWOther")));
}

#[test]
fn expired_code_fails_with_expired_code() {
    let mut m = manager();
    let (info, _record) = m.generate_code(1000, 300, os_info(), Vec::new());
    m.cache_inbound_request(String::from("12D3KooWPeer"), 5, os_info());
    let method = PairingMethod::Code { code: info.code };
    let late = m.decide_pairing(5, &method, PairingResponse::Success, 1301, 1301_000);
    assert!(matches!(late, Err(AppError::ExpiredCode)));
}

#[test]
fn wrong_code_fails_with_invalid_code() {
    let mut m = manager();
    let (info, _record) = m.generate_code(1000, 300, os_info(), Vec::new());
    let mut wrong = String::from("999999");
    if info.code == wrong {
        wrong = String::from("000000");
    }
    let method = PairingMethod::Code { code: wrong };
    let r = m.decide_pairing(5, &method, PairingResponse::Success, 1100, 1100_000);
    assert!(matches!(r, Err(AppError::InvalidCode)));
}

#[test]
fn refusal_checks_and_consumes_nothing() {
    let mut m = manager();
    let (info, _record) = m.generate_code(1000, 300, os_info(), Vec::new());
    let method = PairingMethod::Code { code: String::from("junk!!") };
    let decision = m
        .decide_pairing(
            5,
            &method,
            PairingResponse::Refused { reason: String::from("no") },
            1100,
            1100_000,
        )
        .unwrap();
    assert!(decision.added.is_none());
    // The active code survives a refusal: a genuine acceptance still works.
    m.cache_inbound_request(String::from("12D3KooWPeer"), 6, os_info());
    let good = PairingMethod::Code { code: info.code };
    assert!(m.decide_pairing(6, &good, PairingResponse::Success, 1100, 1100_000).is_ok());
}

#[test]
fn direct_pairing_needs_no_code() {
    let mut m = manager();
    m.cache_inbound_request(String::from("12D3KooWPeer"), 5, os_info());
    let decision = m
        .decide_pairing(5, &PairingMethod::Direct, PairingResponse::Success, 0, 0)
        .unwrap();
    assert!(decision.added.is_some());
    assert!(m.is_paired(&String::from("12D3KooWPeer")));
}

#[test]
fn code_record_admission_checks_expiry_and_publisher() {
    let mut m = manager();
    let record = ShareCodeRecord {
        os_info: os_info(),
        created_at: 1000,
        expires_at: 1300,
        listen_addrs: vec![String::from("/ip4/192.168.1.9/tcp/4001")],
    };
    // Expired record.
    let r = m.admit_code_record(Some(String::from("12D3KooWPub")), Some(900), &record, 1000);
    assert!(matches!(r, Err(AppError::ExpiredCode)));
    // No publisher.
    let r = m.admit_code_record(None, Some(2000), &record, 1000);
    assert!(matches!(r, Err(AppError::InvalidCode)));
    // Valid: the publisher comes back and its OS info is cached.
    let r = m.admit_code_record(Some(String::from("12D3KooWPub")), Some(2000), &record, 1000);
    assert_eq!(r.unwrap(), "12D3KooWPub");
    assert!(m.discovered_os_info(&String::from("12D3KooWPub")).is_some());
}

#[test]
fn initiator_uses_cached_os_info_on_success() {
    let mut m = manager();
    let record = ShareCodeRecord {
        os_info: os_info(),
        created_at: 0,
        expires_at: i64::MAX,
        listen_addrs: Vec::new(),
    };
    m.admit_code_record(Some(String::from("12D3KooWPub")), None, &record, 0).unwrap();
    let added = m
        .complete_request_pairing(String::from("12D3KooWPub"), &PairingResponse::Success, 42)
        .unwrap();
    assert_eq!(added.os_info.hostname, "box");
    assert_eq!(added.paired_at, 42);
    // A refusal adds nothing.
    let none = m.complete_request_pairing(
        String::from("12D3KooWElse"),
        &PairingResponse::Refused { reason: String::from("no") },
        42,
    );
    assert!(none.is_none());
}

#[test]
fn remove_paired_device_empties_the_set() {
    let mut m = manager();
    m.cache_inbound_request(String::from("12D3KooWPeer"), 1, os_info());
    m.decide_pairing(1, &PairingMethod::Direct, PairingResponse::Success, 0, 0).unwrap();
    assert_eq!(m.get_paired_devices().len(), 1);
    let removed = m.remove_paired_device(&String::from("12D3KooWPeer"));
    assert!(removed.is_some());
    assert!(!m.is_paired(&String::from("12D3KooWPeer")));
    assert_eq!(m.get_paired_devices().len(), 0);
}

#[test]
fn agent_version_round_trips() {
    let info = os_info();
    let agent = info.to_agent_version();
    assert_eq!(
        agent,
        "swarmdrop/0.1.0; os=Linux; platform=linux; arch=x86_64; host=box"
    );
    let parsed = OsInfo::from_agent_version(&agent).unwrap();
    assert_eq!(parsed.os, "Linux");
    assert_eq!(parsed.platform, "linux");
    assert_eq!(parsed.arch, "x86_64");
    assert_eq!(parsed.hostname, "box");
}

#[test]
fn agent_version_missing_key_fails_to_parse() {
    assert!(OsInfo::from_agent_version("swarmdrop/0.1.0; os=Linux; platform=linux").is_none());
    assert!(OsInfo::from_agent_version("").is_none());
    // A later occurrence of a key wins.
    let twice = OsInfo::from_agent_version(
        "os=A; os=B; platform=p; arch=a; host=h",
    )
    .unwrap();
    assert_eq!(twice.os, "B");
}

#[test]
fn peer_id_fallback_takes_eight_chars() {
    let info = OsInfo::unknown_from_peer_id("12D3KooWCq8xgrSap7");
    assert_eq!(info.hostname, "12D3KooW");
    assert_eq!(info.os, "unknown");
    let short = OsInfo::unknown_from_peer_id("abc");
    assert_eq!(short.hostname, "abc");
}

#[test]
fn dht_keys_are_namespaced_digests() {
    let code_key = swarmdrop::dht_key::share_code_key("123456");
    let online_key = swarmdrop::dht_key::online_key(b"peer-bytes");
    assert_eq!(code_key.len(), 32);
    assert_eq!(online_key.len(), 32);
    // The digest really covers namespace ‖ identifier.
    let expected = sha2::Sha256::digest(b"/swarmdrop/share-code/123456".as_slice()).to_vec();
    assert_eq!(code_key, expected);
    assert_ne!(code_key, swarmdrop::dht_key::share_code_key("654321"));
}
