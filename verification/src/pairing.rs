//! The pairing manager.
//!
//! A node pairs with a peer either through a six-digit one-time code
//! anchored in the DHT, or directly on the LAN after user confirmation.  At
//! most one code is active per node; generating a new one overwrites the
//! old.  The verify-and-consume step is the heart of the protocol: a code
//! admits exactly one successful pairing, and none after its expiry.
//!
//! The overlay work around these decisions — DHT puts and gets, dials,
//! request/response exchange — is driven from outside; every call here is a
//! decision step on plain values.

use vstd::prelude::*;
use vstd::string::*;

use crate::device::{OsInfo, PairedDeviceInfo};
use crate::errors::{AppError, AppResult};
use crate::protocol::{PairingMethod, PairingResponse};
use crate::registry::{IdMap, StrMap};

verus! {

/// Default lifetime of a pairing code, in seconds.
pub const CODE_TTL_SECS: u64 = 300;

/// Lifetime of an online record, in seconds.
pub const ONLINE_TTL_SECS: u64 = 300;

/// A decimal digit, the alphabet of pairing codes.
pub open spec fn is_code_digit(c: char) -> bool {
    c == '0' || c == '1' || c == '2' || c == '3' || c == '4' || c == '5' || c == '6' || c == '7'
        || c == '8' || c == '9'
}

/// Relies on `rand::random_range`: a uniformly drawn index below 10 from
/// the thread-local RNG.
#[verifier::external_body]
fn random_digit_index() -> (r: usize)
    ensures
        r < 10,
{
    rand::random_range(0..10usize)
}

/// The active pairing code with its validity window.
#[derive(Debug)]
pub struct PairingCodeInfo {
    pub code: String,
    pub created_at: i64,
    pub expires_at: i64,
}

impl Clone for PairingCodeInfo {
    fn clone(&self) -> (r: Self)
        ensures
            r == *self,
    {
        PairingCodeInfo {
            code: self.code.clone(),
            created_at: self.created_at,
            expires_at: self.expires_at,
        }
    }
}

impl PairingCodeInfo {
    /// Draw a fresh six-digit code valid for `expires_in_secs` from `now`.
    pub fn generate(now: i64, expires_in_secs: u64) -> (r: Self)
        requires
            expires_in_secs <= 0x7FFF_FFFF,
            now <= 0x7FFF_FFFF_FFFF_FFFF - 0x7FFF_FFFF,
        ensures
            r.code@.len() == 6,
            forall|i: int| 0 <= i < r.code@.len() ==> is_code_digit(#[trigger] r.code@[i]),
            r.created_at == now,
            r.expires_at == now + expires_in_secs,
    {
        let mut code = String::new();
        let mut k: usize = 0;
        while k < 6
            invariant
                k <= 6,
                code@.len() == k,
                forall|i: int| 0 <= i < code@.len() ==> is_code_digit(#[trigger] code@[i]),
            decreases 6 - k,
        {
            let d = random_digit_index();
            let digit = match d {
                0 => "0",
                1 => "1",
                2 => "2",
                3 => "3",
                4 => "4",
                5 => "5",
                6 => "6",
                7 => "7",
                8 => "8",
                _ => "9",
            };
            proof {
                reveal_strlit("0");
                reveal_strlit("1");
                reveal_strlit("2");
                reveal_strlit("3");
                reveal_strlit("4");
                reveal_strlit("5");
                reveal_strlit("6");
                reveal_strlit("7");
                reveal_strlit("8");
                reveal_strlit("9");
            }
            code.append(digit);
            k = k + 1;
        }
        PairingCodeInfo { code, created_at: now, expires_at: now + (expires_in_secs as i64) }
    }

    /// Whether the code has passed its expiry time.
    pub fn is_expired(&self, now: i64) -> (r: bool)
        ensures
            r == (now > self.expires_at),
    {
        now > self.expires_at
    }
}

/// The DHT value published under a share code.
#[derive(Debug)]
pub struct ShareCodeRecord {
    pub os_info: OsInfo,
    pub created_at: i64,
    pub expires_at: i64,
    /// The publisher's reachable addresses, so the reader can dial directly.
    pub listen_addrs: Vec<String>,
}

/// The DHT value a node publishes while online.
#[derive(Debug)]
pub struct OnlineRecord {
    pub os_info: OsInfo,
    /// The node's reachable addresses.
    pub listen_addrs: Vec<String>,
    pub timestamp: i64,
}

/// An inbound pairing request waiting for the user's decision.
#[derive(Debug)]
pub struct PendingInbound {
    pub peer_id: String,
    pub os_info: OsInfo,
}

/// What the responder does after deciding a pairing request: send the
/// response, and persist the new device if one was added.
pub struct PairingDecision {
    /// The response to send over the overlay.
    pub response: PairingResponse,
    /// The device added to the paired set, if the request was accepted.
    pub added: Option<PairedDeviceInfo>,
}

/// Every device of the paired set sits under its own peer id.
pub open spec fn paired_keyed_by_id(m: Map<Seq<char>, PairedDeviceInfo>) -> bool {
    forall|k: Seq<char>| m.contains_key(k) ==> (#[trigger] m[k]).peer_id@ == k
}

/// Adding a device under its own peer id keeps the paired set keyed by id.
proof fn lemma_keyed_insert(m: Map<Seq<char>, PairedDeviceInfo>, info: PairedDeviceInfo)
    requires
        paired_keyed_by_id(m),
    ensures
        paired_keyed_by_id(m.insert(info.peer_id@, info)),
{
}

/// Removing a device keeps the paired set keyed by id.
proof fn lemma_keyed_remove(m: Map<Seq<char>, PairedDeviceInfo>, k: Seq<char>)
    requires
        paired_keyed_by_id(m),
    ensures
        paired_keyed_by_id(m.remove(k)),
{
}

/// The pairing manager: the active code, the persistent paired set, the
/// inbound-request cache and the discovered-peer cache.
pub struct PairingManager {
    peer_id: String,
    active_code: Option<PairingCodeInfo>,
    paired_devices: StrMap<PairedDeviceInfo>,
    pending_inbound: IdMap<PendingInbound>,
    discovered_peers: StrMap<OsInfo>,
}

impl PairingManager {
    /// The active code, for contracts.
    pub closed spec fn spec_active_code(&self) -> Option<PairingCodeInfo> {
        self.active_code
    }

    /// The paired set, for contracts.
    pub closed spec fn paired(&self) -> Map<Seq<char>, PairedDeviceInfo> {
        self.paired_devices@
    }

    /// The inbound-request cache, for contracts.
    pub closed spec fn pending(&self) -> Map<u128, PendingInbound> {
        self.pending_inbound@
    }

    /// The discovered-peer cache, for contracts.
    pub closed spec fn discovered(&self) -> Map<Seq<char>, OsInfo> {
        self.discovered_peers@
    }

    /// The manager invariant: the registries are well formed and every
    /// paired device sits under its own peer id.
    pub open spec fn wf(&self) -> bool {
        &&& self.spec_paired_map_wf()
        &&& paired_keyed_by_id(self.paired())
    }

    /// The registries hold their own invariants.
    pub closed spec fn spec_paired_map_wf(&self) -> bool {
        &&& self.paired_devices.wf()
        &&& self.pending_inbound.wf()
        &&& self.discovered_peers.wf()
    }

    /// A manager for this node with the persisted paired devices restored.
    pub fn new(peer_id: String, paired_devices: Vec<PairedDeviceInfo>) -> (r: Self)
        ensures
            r.wf(),
            r.spec_active_code() is None,
            forall|i: int|
                0 <= i < paired_devices@.len() ==> r.paired().contains_key(
                    (#[trigger] paired_devices@[i]).peer_id@,
                ),
    {
        let mut map: StrMap<PairedDeviceInfo> = StrMap::new();
        let mut k: usize = 0;
        while k < paired_devices.len()
            invariant
                k <= paired_devices@.len(),
                map.wf(),
                paired_keyed_by_id(map@),
                forall|i: int|
                    0 <= i < k ==> map@.contains_key((#[trigger] paired_devices@[i]).peer_id@),
            decreases paired_devices@.len() - k,
        {
            let d = paired_devices[k].clone();
            proof {
                lemma_keyed_insert(map@, d);
            }
            map.insert(d.peer_id.clone(), d);
            k = k + 1;
        }
        PairingManager {
            peer_id,
            active_code: None,
            paired_devices: map,
            pending_inbound: IdMap::new(),
            discovered_peers: StrMap::new(),
        }
    }

    /// Generate a new code and make it the only active one; the previous
    /// code, if any, is forgotten and its DHT record simply expires.
    /// Returns the code and the share record to publish under its DHT key
    /// with a TTL of `expires_in_secs`.
    pub fn generate_code(
        &mut self,
        now: i64,
        expires_in_secs: u64,
        os_info: OsInfo,
        listen_addrs: Vec<String>,
    ) -> (r: (PairingCodeInfo, ShareCodeRecord))
        requires
            old(self).wf(),
            expires_in_secs <= 0x7FFF_FFFF,
            now <= 0x7FFF_FFFF_FFFF_FFFF - 0x7FFF_FFFF,
        ensures
            final(self).wf(),
            final(self).spec_active_code() == Some(r.0),
            r.0.code@.len() == 6,
            forall|i: int| 0 <= i < r.0.code@.len() ==> is_code_digit(#[trigger] r.0.code@[i]),
            r.0.created_at == now,
            r.0.expires_at == now + expires_in_secs,
            r.1.created_at == r.0.created_at,
            r.1.expires_at == r.0.expires_at,
            r.1.os_info == os_info,
            r.1.listen_addrs == listen_addrs,
            final(self).paired() == old(self).paired(),
            final(self).pending() == old(self).pending(),
            final(self).discovered() == old(self).discovered(),
    {
        let info = PairingCodeInfo::generate(now, expires_in_secs);
        let record = ShareCodeRecord {
            os_info,
            created_at: info.created_at,
            expires_at: info.expires_at,
            listen_addrs,
        };
        self.active_code = Some(info.clone());
        (info, record)
    }

    /// Admit a share-code record fetched from the DHT: reject one whose
    /// expiry has passed, or one without a publisher; otherwise cache the
    /// publisher's OS info for the later pairing request and hand back the
    /// peer to dial.
    pub fn admit_code_record(
        &mut self,
        publisher: Option<String>,
        expires_at: Option<i64>,
        record: &ShareCodeRecord,
        now: i64,
    ) -> (r: AppResult<String>)
        requires
            old(self).wf(),
        ensures
            final(self).wf(),
            (expires_at matches Some(e) && e < now) ==> (r matches Err(err) && err is ExpiredCode),
            (!(expires_at matches Some(e) && e < now) && publisher is None) ==> (r matches Err(err)
                && err is InvalidCode),
            (!(expires_at matches Some(e) && e < now) && publisher is Some) ==> (r matches Ok(q)
                && q == publisher.unwrap() && final(self).discovered() == old(
                self,
            ).discovered().insert(publisher.unwrap()@, record.os_info)),
            r is Err ==> final(self).discovered() == old(self).discovered(),
            final(self).paired() == old(self).paired(),
            final(self).pending() == old(self).pending(),
            final(self).spec_active_code() == old(self).spec_active_code(),
    {
        if let Some(e) = expires_at {
            if e < now {
                return Err(AppError::ExpiredCode);
            }
        }
        match publisher {
            None => Err(AppError::InvalidCode),
            Some(p) => {
                self.discovered_peers.insert(p.clone(), record.os_info.clone());
                Ok(p)
            },
        }
    }

    /// The initiator's bookkeeping once the pairing response arrives: on
    /// `Success` the peer joins the paired set, described by the cached OS
    /// info when the code lookup supplied one, else by a placeholder derived
    /// from the peer id.
    pub fn complete_request_pairing(
        &mut self,
        peer_id: String,
        response: &PairingResponse,
        now_millis: i64,
    ) -> (r: Option<PairedDeviceInfo>)
        requires
            old(self).wf(),
        ensures
            final(self).wf(),
            response is Success <==> r is Some,
            r matches Some(info) ==> {
                &&& info.peer_id@ == peer_id@
                &&& info.paired_at == now_millis
                &&& final(self).paired() == old(self).paired().insert(peer_id@, info)
                &&& final(self).discovered() == old(self).discovered().remove(peer_id@)
                &&& (old(self).discovered().contains_key(peer_id@) ==> info.os_info == old(
                    self,
                ).discovered()[peer_id@])
            },
            r is None ==> *final(self) == *old(self),
            final(self).pending() == old(self).pending(),
            final(self).spec_active_code() == old(self).spec_active_code(),
    {
        match response {
            PairingResponse::Success => {
                let os_info = match self.discovered_peers.remove(&peer_id) {
                    Some(info) => info,
                    None => OsInfo::unknown_from_peer_id(peer_id.as_str()),
                };
                let info = PairedDeviceInfo {
                    peer_id: peer_id.clone(),
                    os_info,
                    paired_at: now_millis,
                };
                proof {
                    lemma_keyed_insert(self.paired(), info);
                }
                self.paired_devices.insert(peer_id, info.clone());
                Some(info)
            },
            PairingResponse::Refused { .. } => None,
        }
    }

    /// Cache an inbound pairing request until the user decides it.
    pub fn cache_inbound_request(&mut self, peer_id: String, pending_id: u64, os_info: OsInfo)
        requires
            old(self).wf(),
        ensures
            final(self).wf(),
            final(self).pending() == old(self).pending().insert(
                pending_id as u128,
                PendingInbound { peer_id, os_info },
            ),
            final(self).paired() == old(self).paired(),
            final(self).discovered() == old(self).discovered(),
            final(self).spec_active_code() == old(self).spec_active_code(),
    {
        self.pending_inbound.insert(pending_id as u128, PendingInbound { peer_id, os_info });
    }

    /// The responder's verify-and-consume step.
    ///
    /// For a `Code` request answered with `Success`, the active code must
    /// exist, match, and not have expired — and is then consumed, so that a
    /// second `Success` with the same code fails with `InvalidCode`.  After
    /// its expiry every attempt fails with `ExpiredCode`.  A refusal checks
    /// nothing and consumes nothing.  On success the requesting peer joins
    /// the paired set, using the cached inbound context.
    pub fn decide_pairing(
        &mut self,
        pending_id: u64,
        method: &PairingMethod,
        response: PairingResponse,
        now: i64,
        now_millis: i64,
    ) -> (r: AppResult<PairingDecision>)
        requires
            old(self).wf(),
        ensures
            final(self).wf(),
            ({
                let code_success = method matches PairingMethod::Code { .. } && response
                    is Success;
                let code_ok = match (method, old(self).spec_active_code()) {
                    (PairingMethod::Code { code }, Some(active)) => active.code@ == code@ && now
                        <= active.expires_at,
                    _ => false,
                };
                &&& (code_success && old(self).spec_active_code() is None) ==> (r matches Err(e)
                    && e is InvalidCode && *final(self) == *old(self))
                &&& (code_success && (method matches PairingMethod::Code { code } && old(
                    self,
                ).spec_active_code() matches Some(active) && active.code@ != code@)) ==> (r
                    matches Err(e) && e is InvalidCode && *final(self) == *old(self))
                &&& (code_success && (method matches PairingMethod::Code { code } && old(
                    self,
                ).spec_active_code() matches Some(active) && active.code@ == code@ && now
                    > active.expires_at)) ==> (r matches Err(e) && e is ExpiredCode && *final(self)
                    == *old(self))
                &&& (code_success && code_ok) ==> (r is Ok && final(self).spec_active_code()
                    is None)
                &&& !code_success ==> (r is Ok && final(self).spec_active_code() == old(
                    self,
                ).spec_active_code())
                &&& r matches Ok(d) ==> {
                    &&& final(self).pending() == old(self).pending().remove(pending_id as u128)
                    &&& d.response == response
                    &&& (response is Success && old(self).pending().contains_key(
                        pending_id as u128,
                    )) ==> (d.added matches Some(info) && info.peer_id@ == old(
                        self,
                    ).pending()[pending_id as u128].peer_id@ && info.os_info == old(
                        self,
                    ).pending()[pending_id as u128].os_info
                        && info.paired_at == now_millis && final(self).paired() == old(
                        self,
                    ).paired().insert(info.peer_id@, info))
                    &&& !(response is Success && old(self).pending().contains_key(
                        pending_id as u128,
                    )) ==> (d.added is None && final(self).paired() == old(self).paired())
                }
            }),
            final(self).discovered() == old(self).discovered(),
    {
        if let PairingMethod::Code { code } = method {
            if matches!(response, PairingResponse::Success) {
                match &self.active_code {
                    None => {
                        return Err(AppError::InvalidCode);
                    },
                    Some(active) => {
                        if !(active.code == *code) {
                            return Err(AppError::InvalidCode);
                        }
                        if active.is_expired(now) {
                            return Err(AppError::ExpiredCode);
                        }
                    },
                }
                // The code is single-use: consume it before answering.
                self.active_code = None;
            }
        }
        let accepted = matches!(response, PairingResponse::Success);
        let pending = self.pending_inbound.remove(pending_id as u128);
        let added = if accepted {
            match pending {
                Some(p) => {
                    let info = PairedDeviceInfo {
                        peer_id: p.peer_id,
                        os_info: p.os_info,
                        paired_at: now_millis,
                    };
                    proof {
                        lemma_keyed_insert(self.paired(), info);
                    }
                    self.paired_devices.insert(info.peer_id.clone(), info.clone());
                    Some(info)
                },
                None => None,
            }
        } else {
            None
        };
        Ok(PairingDecision { response, added })
    }

    /// Whether a peer is in the paired set.
    pub fn is_paired(&self, peer_id: &String) -> (r: bool)
        requires
            self.wf(),
        ensures
            r == self.paired().contains_key(peer_id@),
    {
        self.paired_devices.contains_key(peer_id)
    }

    /// Add a device to the paired set.
    pub fn add_paired_device(&mut self, info: PairedDeviceInfo)
        requires
            old(self).wf(),
        ensures
            final(self).wf(),
            final(self).paired() == old(self).paired().insert(info.peer_id@, info),
    {
        let key = info.peer_id.clone();
        proof {
            lemma_keyed_insert(self.paired(), info);
        }
        self.paired_devices.insert(key, info);
    }

    /// Remove a device from the paired set, returning it.
    pub fn remove_paired_device(&mut self, peer_id: &String) -> (r: Option<PairedDeviceInfo>)
        requires
            old(self).wf(),
        ensures
            final(self).wf(),
            final(self).paired() == old(self).paired().remove(peer_id@),
            r is Some <==> old(self).paired().contains_key(peer_id@),
            r matches Some(info) ==> info == old(self).paired()[peer_id@],
    {
        proof {
            lemma_keyed_remove(self.paired(), peer_id@);
        }
        self.paired_devices.remove(peer_id)
    }

    /// Every paired device.
    pub fn get_paired_devices(&self) -> (r: Vec<PairedDeviceInfo>)
        requires
            self.wf(),
        ensures
            forall|i: int|
                0 <= i < r@.len() ==> self.paired().contains_key(
                    (#[trigger] r@[i]).peer_id@,
                ),
    {
        let entries = self.paired_devices.entries();
        let mut out: Vec<PairedDeviceInfo> = Vec::new();
        let mut k: usize = 0;
        while k < entries.len()
            invariant
                self.wf(),
                k <= entries@.len(),
                entries@ == self.paired_devices.spec_entries(),
                forall|i: int|
                    0 <= i < out@.len() ==> self.paired().contains_key(
                        (#[trigger] out@[i]).peer_id@,
                    ),
            decreases entries@.len() - k,
        {
            let d = entries[k].1.clone();
            proof {
                crate::registry::lemma_as_str_map_index(
                    self.paired_devices.spec_entries(),
                    k as int,
                );
                assert(d.peer_id@ == entries@[k as int].0@);
            }
            out.push(d);
            k = k + 1;
        }
        out
    }

    /// The hostname of a paired device, if the peer is paired.
    pub fn paired_hostname(&self, peer_id: &String) -> (r: Option<String>)
        requires
            self.wf(),
        ensures
            r is Some <==> self.paired().contains_key(peer_id@),
            r matches Some(h) ==> h@ == self.paired()[peer_id@].os_info.hostname@,
    {
        match self.paired_devices.get(peer_id) {
            Some(info) => Some(info.os_info.hostname.clone()),
            None => None,
        }
    }

    /// The cached OS info of a discovered peer, if any.
    pub fn discovered_os_info(&self, peer_id: &String) -> (r: Option<&OsInfo>)
        requires
            self.wf(),
        ensures
            r is Some <==> self.discovered().contains_key(peer_id@),
            r matches Some(info) ==> *info == self.discovered()[peer_id@],
    {
        self.discovered_peers.get(peer_id)
    }

    /// The online record this node publishes under its own DHT key, with a
    /// TTL of [`ONLINE_TTL_SECS`].
    pub fn make_online_record(
        &self,
        os_info: OsInfo,
        listen_addrs: Vec<String>,
        now: i64,
    ) -> (r: OnlineRecord)
        ensures
            r.os_info == os_info,
            r.listen_addrs == listen_addrs,
            r.timestamp == now,
    {
        OnlineRecord { os_info, listen_addrs, timestamp: now }
    }

    /// Whether an online record fetched for a paired device is worth acting
    /// on: not yet expired and carrying at least one address.
    pub fn usable_online_record(
        record: &OnlineRecord,
        expires_at: Option<i64>,
        now: i64,
    ) -> (r: bool)
        ensures
            r == (!(expires_at matches Some(e) && e < now) && record.listen_addrs@.len() > 0),
    {
        if let Some(e) = expires_at {
            if e < now {
                return false;
            }
        }
        record.listen_addrs.len() > 0
    }
}

} // verus!
