//! The runtime peer table.
//!
//! Every overlay event passes through here first: peers are discovered,
//! connect, identify themselves, answer pings, punch holes, disconnect.
//! The table joins with the paired set to answer device queries, and the
//! connection kind is inferred from the peer's addresses — LAN before
//! hole-punched before relayed — with an asserted hole punch overriding the
//! address shapes.

use vstd::prelude::*;
use vstd::string::*;

use crate::device::{ConnectionType, Device, DeviceStatus, OsInfo, PairedDeviceInfo};
use crate::registry::StrMap;

verus! {

/// One protocol component of an overlay address, reduced to what connection
/// inference reads.
#[derive(Debug, Clone, Copy, PartialEq, Eq, Structural)]
pub enum AddrProto {
    /// An IPv4 component, by its four octets.
    Ip4(u8, u8, u8, u8),
    /// A relay-circuit component.
    Circuit,
    /// Anything else.
    Other,
}

/// An overlay address as a sequence of its protocol components.
#[derive(Debug)]
pub struct MultiaddrInfo {
    pub protos: Vec<AddrProto>,
}

impl Clone for MultiaddrInfo {
    fn clone(&self) -> (r: Self)
        ensures
            r.protos@ == self.protos@,
    {
        let mut protos: Vec<AddrProto> = Vec::new();
        let mut k: usize = 0;
        while k < self.protos.len()
            invariant
                k <= self.protos@.len(),
                protos@ == self.protos@.take(k as int),
            decreases self.protos@.len() - k,
        {
            protos.push(self.protos[k]);
            proof {
                assert(protos@ =~= self.protos@.take(k + 1));
            }
            k = k + 1;
        }
        proof {
            assert(self.protos@.take(self.protos@.len() as int) =~= self.protos@);
        }
        MultiaddrInfo { protos }
    }
}

/// Whether an IPv4 address is private (RFC 1918).
pub open spec fn spec_ip4_private(a: u8, b: u8) -> bool {
    a == 10 || (a == 172 && 16 <= b < 32) || (a == 192 && b == 168)
}

/// Whether an IPv4 address is a loopback address.
pub open spec fn spec_ip4_loopback(a: u8) -> bool {
    a == 127
}

/// Whether an IPv4 address is link-local.
pub open spec fn spec_ip4_link_local(a: u8, b: u8) -> bool {
    a == 169 && b == 254
}

/// Whether an address contains a relay-circuit component.
pub open spec fn spec_has_circuit(protos: Seq<AddrProto>) -> bool {
    exists|i: int| 0 <= i < protos.len() && (#[trigger] protos[i]) is Circuit
}

/// Whether an address contains a private, loopback or link-local IPv4
/// component.
pub open spec fn spec_has_private_ip(protos: Seq<AddrProto>) -> bool {
    exists|i: int|
        0 <= i < protos.len() && match #[trigger] protos[i] {
            AddrProto::Ip4(a, b, _, _) => spec_ip4_private(a, b) || spec_ip4_loopback(a)
                || spec_ip4_link_local(a, b),
            _ => false,
        }
}

/// Whether an address contains a public IPv4 component.
pub open spec fn spec_has_public_ip(protos: Seq<AddrProto>) -> bool {
    exists|i: int|
        0 <= i < protos.len() && match #[trigger] protos[i] {
            AddrProto::Ip4(a, b, c, d) => !spec_ip4_private(a, b) && !spec_ip4_loopback(a)
                && !spec_ip4_link_local(a, b) && !(a == 0 && b == 0 && c == 0 && d == 0),
            _ => false,
        }
}

/// The connection kind inferred from a peer's addresses, best first:
/// any non-circuit address with a private IP means LAN; else any
/// non-circuit, non-private address with a public IP means a direct
/// (hole-punched) path; else any circuit address means relay.
pub open spec fn spec_infer_connection(addrs: Seq<Seq<AddrProto>>) -> Option<ConnectionType> {
    let has_lan = exists|i: int|
        0 <= i < addrs.len() && !spec_has_circuit(#[trigger] addrs[i]) && spec_has_private_ip(
            addrs[i],
        );
    let has_dcutr = exists|i: int|
        0 <= i < addrs.len() && !spec_has_circuit(#[trigger] addrs[i]) && !spec_has_private_ip(
            addrs[i],
        ) && spec_has_public_ip(addrs[i]);
    let has_relay = exists|i: int| 0 <= i < addrs.len() && spec_has_circuit(#[trigger] addrs[i]);
    if has_lan {
        Some(ConnectionType::Lan)
    } else if has_dcutr {
        Some(ConnectionType::Dcutr)
    } else if has_relay {
        Some(ConnectionType::Relay)
    } else {
        None
    }
}

/// The addresses of a peer, as sequences of components.
pub open spec fn spec_addr_views(addrs: Seq<MultiaddrInfo>) -> Seq<Seq<AddrProto>> {
    addrs.map_values(|a: MultiaddrInfo| a.protos@)
}

/// Whether one address holds a circuit component.
fn addr_has_circuit(addr: &MultiaddrInfo) -> (r: bool)
    ensures
        r == spec_has_circuit(addr.protos@),
{
    let mut k: usize = 0;
    let n = addr.protos.len();
    while k < n
        invariant
            n == addr.protos@.len(),
            k <= n,
            forall|i: int| 0 <= i < k ==> !((#[trigger] addr.protos@[i]) is Circuit),
        decreases n - k,
    {
        if matches!(addr.protos[k], AddrProto::Circuit) {
            return true;
        }
        k = k + 1;
    }
    false
}

/// Whether one address holds a private, loopback or link-local IPv4.
fn addr_has_private_ip(addr: &MultiaddrInfo) -> (r: bool)
    ensures
        r == spec_has_private_ip(addr.protos@),
{
    let mut k: usize = 0;
    let n = addr.protos.len();
    while k < n
        invariant
            n == addr.protos@.len(),
            k <= n,
            forall|i: int|
                0 <= i < k ==> !(match #[trigger] addr.protos@[i] {
                    AddrProto::Ip4(a, b, _, _) => spec_ip4_private(a, b) || spec_ip4_loopback(a)
                        || spec_ip4_link_local(a, b),
                    _ => false,
                }),
        decreases n - k,
    {
        if let AddrProto::Ip4(a, b, _, _) = addr.protos[k] {
            let private = a == 10 || (a == 172 && 16 <= b && b < 32) || (a == 192 && b == 168);
            let loopback = a == 127;
            let link_local = a == 169 && b == 254;
            if private || loopback || link_local {
                return true;
            }
        }
        k = k + 1;
    }
    false
}

/// Whether one address holds a public IPv4.
fn addr_has_public_ip(addr: &MultiaddrInfo) -> (r: bool)
    ensures
        r == spec_has_public_ip(addr.protos@),
{
    let mut k: usize = 0;
    let n = addr.protos.len();
    while k < n
        invariant
            n == addr.protos@.len(),
            k <= n,
            forall|i: int|
                0 <= i < k ==> !(match #[trigger] addr.protos@[i] {
                    AddrProto::Ip4(a, b, c, d) => !spec_ip4_private(a, b) && !spec_ip4_loopback(a)
                        && !spec_ip4_link_local(a, b) && !(a == 0 && b == 0 && c == 0 && d == 0),
                    _ => false,
                }),
        decreases n - k,
    {
        if let AddrProto::Ip4(a, b, c, d) = addr.protos[k] {
            let private = a == 10 || (a == 172 && 16 <= b && b < 32) || (a == 192 && b == 168);
            let loopback = a == 127;
            let link_local = a == 169 && b == 254;
            let unspecified = a == 0 && b == 0 && c == 0 && d == 0;
            if !private && !loopback && !link_local && !unspecified {
                return true;
            }
        }
        k = k + 1;
    }
    false
}

/// Infer the connection kind from a peer's addresses.
pub fn infer_connection_type(addrs: &Vec<MultiaddrInfo>) -> (r: Option<ConnectionType>)
    ensures
        r == spec_infer_connection(spec_addr_views(addrs@)),
{
    let ghost views = spec_addr_views(addrs@);
    let mut has_lan = false;
    let mut has_dcutr = false;
    let mut has_relay = false;
    let mut k: usize = 0;
    let n = addrs.len();
    proof {
        assert(views.len() == addrs@.len());
    }
    while k < n
        invariant
            n == addrs@.len(),
            views == spec_addr_views(addrs@),
            views.len() == n,
            forall|i: int| 0 <= i < n ==> #[trigger] views[i] == addrs@[i].protos@,
            k <= n,
            has_lan == exists|i: int|
                0 <= i < k && !spec_has_circuit(#[trigger] views[i]) && spec_has_private_ip(
                    views[i],
                ),
            has_dcutr == exists|i: int|
                0 <= i < k && !spec_has_circuit(#[trigger] views[i]) && !spec_has_private_ip(
                    views[i],
                ) && spec_has_public_ip(views[i]),
            has_relay == exists|i: int| 0 <= i < k && spec_has_circuit(#[trigger] views[i]),
        decreases n - k,
    {
        let addr = &addrs[k];
        if addr_has_circuit(addr) {
            has_relay = true;
        } else if addr_has_private_ip(addr) {
            has_lan = true;
        } else if addr_has_public_ip(addr) {
            has_dcutr = true;
        }
        proof {
            assert(views[k as int] == addrs@[k as int].protos@);
        }
        k = k + 1;
    }
    if has_lan {
        Some(ConnectionType::Lan)
    } else if has_dcutr {
        Some(ConnectionType::Dcutr)
    } else if has_relay {
        Some(ConnectionType::Relay)
    } else {
        None
    }
}

/// Whether `addrs` already holds an address with the same components.
pub open spec fn spec_addrs_contain(addrs: Seq<MultiaddrInfo>, addr: Seq<AddrProto>) -> bool {
    exists|j: int| 0 <= j < addrs.len() && (#[trigger] addrs[j]).protos@ == addr
}

/// Whether the address list already holds an equal address.
fn addrs_contain(addrs: &Vec<MultiaddrInfo>, addr: &MultiaddrInfo) -> (r: bool)
    ensures
        r == spec_addrs_contain(addrs@, addr.protos@),
{
    let mut k: usize = 0;
    let n = addrs.len();
    while k < n
        invariant
            n == addrs@.len(),
            k <= n,
            forall|j: int| 0 <= j < k ==> (#[trigger] addrs@[j]).protos@ != addr.protos@,
        decreases n - k,
    {
        let a = &addrs[k];
        if a.protos.len() == addr.protos.len() {
            let mut same = true;
            let mut j: usize = 0;
            while j < a.protos.len()
                invariant
                    a.protos@.len() == addr.protos@.len(),
                    j <= a.protos@.len(),
                    same == (forall|m: int| 0 <= m < j ==> a.protos@[m] == addr.protos@[m]),
                decreases a.protos@.len() - j,
            {
                if !(a.protos[j] == addr.protos[j]) {
                    proof {
                        assert(a.protos@[j as int] != addr.protos@[j as int]);
                    }
                    same = false;
                }
                j = j + 1;
            }
            if same {
                proof {
                    assert(a.protos@ =~= addr.protos@);
                }
                return true;
            }
            proof {
                assert(a.protos@ != addr.protos@);
            }
        }
        k = k + 1;
    }
    false
}

/// Runtime knowledge of one peer.
#[derive(Debug)]
pub struct PeerInfo {
    pub peer_id: String,
    pub addrs: Vec<MultiaddrInfo>,
    pub agent_version: Option<String>,
    pub rtt_ms: Option<u64>,
    pub is_connected: bool,
    /// Whether the overlay asserted a successful hole punch, which is more
    /// reliable than address-shape inference.
    pub hole_punched: bool,
    pub discovered_at: i64,
    pub connected_at: Option<i64>,
}

/// Which devices a query reports.
#[derive(Debug, Clone, Copy, PartialEq, Eq, Structural)]
pub enum DeviceFilter {
    All,
    Connected,
    Paired,
}

/// How many entries of the table are connected.
pub open spec fn count_connected(s: Seq<(String, PeerInfo)>) -> int
    decreases s.len(),
{
    if s.len() == 0 {
        0
    } else {
        count_connected(s.drop_last()) + if s.last().1.is_connected {
            1int
        } else {
            0int
        }
    }
}

/// The device view a `Paired` query owes for one paired entry: identity
/// from the paired set, liveness joined from the runtime table — offline
/// with no connection for a peer the table does not know as connected, else
/// online with the hole-punch override on the inferred connection kind and
/// the measured round trip as latency.
pub open spec fn paired_device_view(
    peers: Map<Seq<char>, PeerInfo>,
    info: PairedDeviceInfo,
    d: Device,
) -> bool {
    let online = peers.contains_key(info.peer_id@) && peers[info.peer_id@].is_connected;
    &&& d.peer_id@ == info.peer_id@
    &&& d.os_info == info.os_info
    &&& d.is_paired
    &&& online ==> {
        let p = peers[info.peer_id@];
        &&& d.status is Online
        &&& d.connection == (if p.hole_punched {
            Some(ConnectionType::Dcutr)
        } else {
            spec_infer_connection(spec_addr_views(p.addrs@))
        })
        &&& d.latency == p.rtt_ms
    }
    &&& !online ==> (d.status is Offline && d.connection is None && d.latency is None)
}

/// The runtime peer table.
pub struct DeviceManager {
    peers: StrMap<PeerInfo>,
}

impl DeviceManager {
    /// The peer table, for contracts.
    pub closed spec fn peers(&self) -> Map<Seq<char>, PeerInfo> {
        self.peers@
    }

    /// The manager invariant.
    pub open spec fn wf(&self) -> bool {
        self.spec_peers_map_wf()
    }

    /// The registry holds its own invariant.
    pub closed spec fn spec_peers_map_wf(&self) -> bool {
        self.peers.wf()
    }

    /// An empty peer table.
    pub fn new() -> (r: Self)
        ensures
            r.wf(),
            r.peers() =~= Map::<Seq<char>, PeerInfo>::empty(),
    {
        DeviceManager { peers: StrMap::new() }
    }

    /// Note a freshly discovered peer address: a new peer enters the table
    /// disconnected with that one address; a known peer gains the address
    /// unless it already holds it.
    pub fn note_discovered(&mut self, peer_id: String, addr: MultiaddrInfo, now_millis: i64)
        requires
            old(self).wf(),
        ensures
            final(self).wf(),
            final(self).peers().contains_key(peer_id@),
            forall|k: Seq<char>|
                #![trigger old(self).peers().contains_key(k)]
                k != peer_id@ && old(self).peers().contains_key(k) ==> final(self).peers().contains_key(k) && final(self).peers()[k] == old(self).peers()[k],
            !old(self).peers().contains_key(peer_id@) ==> {
                let p = final(self).peers()[peer_id@];
                &&& p.peer_id@ == peer_id@
                &&& p.addrs@.len() == 1
                &&& !p.is_connected
                &&& !p.hole_punched
                &&& p.discovered_at == now_millis
            },
            old(self).peers().contains_key(peer_id@) ==> {
                let was = old(self).peers()[peer_id@];
                let p = final(self).peers()[peer_id@];
                &&& spec_addrs_contain(was.addrs@, addr.protos@) ==> p == was
                &&& !spec_addrs_contain(was.addrs@, addr.protos@) ==> (p.addrs@ == was.addrs@.push(
                    addr,
                ) && p.is_connected == was.is_connected && p.peer_id@ == was.peer_id@)
            },
    {
        match self.peers.remove(&peer_id) {
            Some(mut info) => {
                if !addrs_contain(&info.addrs, &addr) {
                    info.addrs.push(addr);
                }
                proof {
                    assert(old(self).peers().remove(peer_id@).insert(peer_id@, info)
                        =~= old(self).peers().insert(peer_id@, info));
                }
                self.peers.insert(peer_id, info);
            },
            None => {
                let mut addrs: Vec<MultiaddrInfo> = Vec::new();
                addrs.push(addr);
                let info = PeerInfo {
                    peer_id: peer_id.clone(),
                    addrs,
                    agent_version: None,
                    rtt_ms: None,
                    is_connected: false,
                    hole_punched: false,
                    discovered_at: now_millis,
                    connected_at: None,
                };
                self.peers.insert(peer_id, info);
            },
        }
    }

    /// Note a peer connecting: its entry — fresh if the peer was unknown —
    /// becomes connected as of now.
    pub fn note_connected(&mut self, peer_id: String, now_millis: i64)
        requires
            old(self).wf(),
        ensures
            final(self).wf(),
            final(self).peers().contains_key(peer_id@),
            final(self).peers()[peer_id@].is_connected,
            final(self).peers()[peer_id@].connected_at == Some(now_millis),
            forall|k: Seq<char>|
                #![trigger old(self).peers().contains_key(k)]
                k != peer_id@ && old(self).peers().contains_key(k) ==> final(self).peers().contains_key(k) && final(self).peers()[k] == old(self).peers()[k],
    {
        match self.peers.remove(&peer_id) {
            Some(mut info) => {
                info.is_connected = true;
                info.connected_at = Some(now_millis);
                self.peers.insert(peer_id, info);
            },
            None => {
                let info = PeerInfo {
                    peer_id: peer_id.clone(),
                    addrs: Vec::new(),
                    agent_version: None,
                    rtt_ms: None,
                    is_connected: true,
                    hole_punched: false,
                    discovered_at: now_millis,
                    connected_at: Some(now_millis),
                };
                self.peers.insert(peer_id, info);
            },
        }
    }

    /// Note a peer disconnecting: it loses its connected state, its RTT and
    /// its hole-punch mark; an unknown peer changes nothing.
    pub fn note_disconnected(&mut self, peer_id: &String)
        requires
            old(self).wf(),
        ensures
            final(self).wf(),
            old(self).peers().contains_key(peer_id@) ==> {
                &&& final(self).peers().contains_key(peer_id@)
                &&& !final(self).peers()[peer_id@].is_connected
                &&& final(self).peers()[peer_id@].rtt_ms is None
                &&& !final(self).peers()[peer_id@].hole_punched
            },
            !old(self).peers().contains_key(peer_id@) ==> final(self).peers() == old(self).peers(),
            forall|k: Seq<char>|
                #![trigger old(self).peers().contains_key(k)]
                k != peer_id@ && old(self).peers().contains_key(k) ==> final(self).peers().contains_key(k) && final(self).peers()[k] == old(self).peers()[k],
    {
        match self.peers.remove(peer_id) {
            Some(mut info) => {
                info.is_connected = false;
                info.rtt_ms = None;
                info.hole_punched = false;
                self.peers.insert(peer_id.clone(), info);
            },
            None => {
                proof {
                    assert(old(self).peers().remove(peer_id@) =~= old(self).peers());
                }
            },
        }
    }

    /// Note a received identify string.
    pub fn note_identify(&mut self, peer_id: &String, agent_version: String)
        requires
            old(self).wf(),
        ensures
            final(self).wf(),
            old(self).peers().contains_key(peer_id@) ==> (final(self).peers().contains_key(
                peer_id@,
            ) && final(self).peers()[peer_id@].agent_version == Some(agent_version)),
            !old(self).peers().contains_key(peer_id@) ==> final(self).peers() == old(self).peers(),
            forall|k: Seq<char>|
                #![trigger old(self).peers().contains_key(k)]
                k != peer_id@ && old(self).peers().contains_key(k) ==> final(self).peers().contains_key(k) && final(self).peers()[k] == old(self).peers()[k],
    {
        match self.peers.remove(peer_id) {
            Some(mut info) => {
                info.agent_version = Some(agent_version);
                self.peers.insert(peer_id.clone(), info);
            },
            None => {
                proof {
                    assert(old(self).peers().remove(peer_id@) =~= old(self).peers());
                }
            },
        }
    }

    /// Note a ping round trip.
    pub fn note_ping(&mut self, peer_id: &String, rtt_ms: u64)
        requires
            old(self).wf(),
        ensures
            final(self).wf(),
            old(self).peers().contains_key(peer_id@) ==> (final(self).peers().contains_key(
                peer_id@,
            ) && final(self).peers()[peer_id@].rtt_ms == Some(rtt_ms)),
            !old(self).peers().contains_key(peer_id@) ==> final(self).peers() == old(self).peers(),
            forall|k: Seq<char>|
                #![trigger old(self).peers().contains_key(k)]
                k != peer_id@ && old(self).peers().contains_key(k) ==> final(self).peers().contains_key(k) && final(self).peers()[k] == old(self).peers()[k],
    {
        match self.peers.remove(peer_id) {
            Some(mut info) => {
                info.rtt_ms = Some(rtt_ms);
                self.peers.insert(peer_id.clone(), info);
            },
            None => {
                proof {
                    assert(old(self).peers().remove(peer_id@) =~= old(self).peers());
                }
            },
        }
    }

    /// Note a successful hole punch, which overrides address inference.
    pub fn note_hole_punched(&mut self, peer_id: &String)
        requires
            old(self).wf(),
        ensures
            final(self).wf(),
            old(self).peers().contains_key(peer_id@) ==> (final(self).peers().contains_key(
                peer_id@,
            ) && final(self).peers()[peer_id@].hole_punched),
            !old(self).peers().contains_key(peer_id@) ==> final(self).peers() == old(self).peers(),
            forall|k: Seq<char>|
                #![trigger old(self).peers().contains_key(k)]
                k != peer_id@ && old(self).peers().contains_key(k) ==> final(self).peers().contains_key(k) && final(self).peers()[k] == old(self).peers()[k],
    {
        match self.peers.remove(peer_id) {
            Some(mut info) => {
                info.hole_punched = true;
                self.peers.insert(peer_id.clone(), info);
            },
            None => {
                proof {
                    assert(old(self).peers().remove(peer_id@) =~= old(self).peers());
                }
            },
        }
    }

    /// Whether a peer is connected right now.
    pub fn is_connected(&self, peer_id: &String) -> (r: bool)
        requires
            self.wf(),
        ensures
            r == (self.peers().contains_key(peer_id@) && self.peers()[peer_id@].is_connected),
    {
        match self.peers.get(peer_id) {
            Some(info) => info.is_connected,
            None => false,
        }
    }

    /// The peer entries, for contracts.
    pub closed spec fn spec_peer_entries(&self) -> Seq<(String, PeerInfo)> {
        self.peers.spec_entries()
    }

    /// How many peers are connected.
    pub fn connected_count(&self) -> (r: usize)
        requires
            self.wf(),
        ensures
            r == count_connected(self.spec_peer_entries()),
    {
        let entries = self.peers.entries();
        let mut count: usize = 0;
        let mut k: usize = 0;
        while k < entries.len()
            invariant
                k <= entries@.len(),
                entries@ == self.spec_peer_entries(),
                count == count_connected(entries@.take(k as int)),
                count <= k,
            decreases entries@.len() - k,
        {
            proof {
                assert(entries@.take(k + 1).drop_last() =~= entries@.take(k as int));
                assert(entries@.take(k + 1).last() == entries@[k as int]);
            }
            if entries[k].1.is_connected {
                count = count + 1;
            }
            k = k + 1;
        }
        proof {
            assert(entries@.take(entries@.len() as int) =~= entries@);
        }
        count
    }

    /// How many peers have been discovered.
    pub fn discovered_count(&self) -> (r: usize)
        ensures
            r == self.spec_peer_entries().len(),
    {
        self.peers.len()
    }

    /// The device view of one peer: identity parsed from its agent string
    /// (peer-id fallback), its status, and — when connected — the connection
    /// kind, with an asserted hole punch forcing the direct kind.
    fn peer_to_device(peer: &PeerInfo, is_paired: bool) -> (r: Device)
        ensures
            r.peer_id@ == peer.peer_id@,
            r.is_paired == is_paired,
            peer.is_connected ==> r.status is Online,
            !peer.is_connected ==> r.status is Offline && r.connection is None,
            (peer.is_connected && peer.hole_punched) ==> r.connection == Some(
                ConnectionType::Dcutr,
            ),
            (peer.is_connected && !peer.hole_punched) ==> r.connection == spec_infer_connection(
                spec_addr_views(peer.addrs@),
            ),
    {
        let os_info = match &peer.agent_version {
            Some(agent) => match OsInfo::from_agent_version(agent.as_str()) {
                Some(info) => info,
                None => OsInfo::unknown_from_peer_id(peer.peer_id.as_str()),
            },
            None => OsInfo::unknown_from_peer_id(peer.peer_id.as_str()),
        };
        if peer.is_connected {
            let connection = if peer.hole_punched {
                Some(ConnectionType::Dcutr)
            } else {
                infer_connection_type(&peer.addrs)
            };
            Device {
                peer_id: peer.peer_id.clone(),
                os_info,
                status: DeviceStatus::Online,
                connection,
                latency: peer.rtt_ms,
                is_paired,
            }
        } else {
            Device {
                peer_id: peer.peer_id.clone(),
                os_info,
                status: DeviceStatus::Offline,
                connection: None,
                latency: None,
                is_paired,
            }
        }
    }

    /// Query the device list.  `All` and `Connected` walk the runtime
    /// table — the latter keeping connected peers only — while `Paired`
    /// reports every paired device, offline when the runtime table does not
    /// know it as connected.
    pub fn get_devices(
        &self,
        filter: DeviceFilter,
        paired: &StrMap<PairedDeviceInfo>,
    ) -> (r: Vec<Device>)
        requires
            self.wf(),
            paired.wf(),
        ensures
            filter is All ==> r@.len() == self.spec_peer_entries().len(),
            filter is Connected ==> forall|i: int|
                0 <= i < r@.len() ==> (#[trigger] r@[i]).status is Online,
            filter is Paired ==> r@.len() == paired.spec_entries().len(),
            filter is Paired ==> forall|i: int|
                0 <= i < r@.len() ==> paired_device_view(
                    self.peers(),
                    paired.spec_entries()[i].1,
                    #[trigger] r@[i],
                ),
    {
        match filter {
            DeviceFilter::All | DeviceFilter::Connected => {
                let connected_only = matches!(filter, DeviceFilter::Connected);
                let entries = self.peers.entries();
                let mut out: Vec<Device> = Vec::new();
                let mut k: usize = 0;
                while k < entries.len()
                    invariant
                        self.wf(),
                        paired.wf(),
                        k <= entries@.len(),
                        entries@ == self.peers.spec_entries(),
                        connected_only == (filter is Connected),
                        !connected_only ==> out@.len() == k,
                        connected_only ==> forall|i: int|
                            0 <= i < out@.len() ==> (#[trigger] out@[i]).status is Online,
                    decreases entries@.len() - k,
                {
                    let info = &entries[k].1;
                    if !connected_only || info.is_connected {
                        let is_paired = paired.contains_key(&info.peer_id);
                        let device = Self::peer_to_device(info, is_paired);
                        if connected_only && !info.is_connected {
                        } else {
                            if connected_only {
                                proof {
                                    assert(device.status is Online);
                                }
                            }
                            out.push(device);
                        }
                    }
                    k = k + 1;
                }
                out
            },
            DeviceFilter::Paired => {
                let entries = paired.entries();
                let mut out: Vec<Device> = Vec::new();
                let mut k: usize = 0;
                while k < entries.len()
                    invariant
                        self.wf(),
                        paired.wf(),
                        k <= entries@.len(),
                        out@.len() == k,
                        entries@ == paired.spec_entries(),
                        forall|i: int|
                            0 <= i < out@.len() ==> paired_device_view(
                                self.peers(),
                                paired.spec_entries()[i].1,
                                #[trigger] out@[i],
                            ),
                    decreases entries@.len() - k,
                {
                    let info = &entries[k].1;
                    let device = match self.peers.get(&info.peer_id) {
                        Some(p) if p.is_connected => {
                            let connection = if p.hole_punched {
                                Some(ConnectionType::Dcutr)
                            } else {
                                infer_connection_type(&p.addrs)
                            };
                            Device {
                                peer_id: info.peer_id.clone(),
                                os_info: info.os_info.clone(),
                                status: DeviceStatus::Online,
                                connection,
                                latency: p.rtt_ms,
                                is_paired: true,
                            }
                        },
                        _ => Device {
                            peer_id: info.peer_id.clone(),
                            os_info: info.os_info.clone(),
                            status: DeviceStatus::Offline,
                            connection: None,
                            latency: None,
                            is_paired: true,
                        },
                    };
                    out.push(device);
                    k = k + 1;
                }
                out
            },
        }
    }
}

} // verus!
