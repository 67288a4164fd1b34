//! Device identity: OS info and the agent-string grammar.
//!
//! A node advertises `swarmdrop/{version}; os={os}; platform={platform};
//! arch={arch}; host={hostname}` as its overlay agent string.  The parser
//! splits on `"; "`, strips the known `key=` prefixes (a later occurrence of
//! a key wins), and fails when any key is missing — the caller then falls
//! back to an identity derived from the peer id.

use vstd::prelude::*;
use vstd::string::*;

verus! {

/// A device's operating-system description.
#[derive(Debug)]
pub struct OsInfo {
    pub hostname: String,
    pub os: String,
    pub platform: String,
    pub arch: String,
}

impl Clone for OsInfo {
    fn clone(&self) -> (r: Self)
        ensures
            r == *self,
    {
        OsInfo {
            hostname: self.hostname.clone(),
            os: self.os.clone(),
            platform: self.platform.clone(),
            arch: self.arch.clone(),
        }
    }
}

/// A device in the persistent paired set.
#[derive(Debug)]
pub struct PairedDeviceInfo {
    pub peer_id: String,
    pub os_info: OsInfo,
    pub paired_at: i64,
}

impl Clone for PairedDeviceInfo {
    fn clone(&self) -> (r: Self)
        ensures
            r == *self,
    {
        PairedDeviceInfo {
            peer_id: self.peer_id.clone(),
            os_info: self.os_info.clone(),
            paired_at: self.paired_at,
        }
    }
}

/// Whether a device is reachable right now.
#[derive(Debug, Clone, Copy, PartialEq, Eq, Structural)]
pub enum DeviceStatus {
    Online,
    Offline,
}

/// How a connection reaches the peer, best first: same LAN, direct after
/// hole punching, or through a relay.
#[derive(Debug, Clone, Copy, PartialEq, Eq, Structural)]
pub enum ConnectionType {
    Lan,
    Dcutr,
    Relay,
}

/// One device as reported to the UI.
#[derive(Debug)]
pub struct Device {
    pub peer_id: String,
    pub os_info: OsInfo,
    pub status: DeviceStatus,
    pub connection: Option<ConnectionType>,
    pub latency: Option<u64>,
    pub is_paired: bool,
}

/// A device-list query result.
#[derive(Debug)]
pub struct DeviceListResult {
    pub devices: Vec<Device>,
    pub total: usize,
}

/// The agent string of a node with the given fields.
pub open spec fn spec_agent_version(
    os: Seq<char>,
    platform: Seq<char>,
    arch: Seq<char>,
    host: Seq<char>,
) -> Seq<char> {
    "swarmdrop/0.1.0; os="@ + os + "; platform="@ + platform + "; arch="@ + arch + "; host="@
        + host
}

/// Whether positions `i` and `i + 1` of `s` hold the part separator `"; "`.
pub open spec fn sep_at(s: Seq<char>, i: int) -> bool {
    0 <= i && i + 1 < s.len() && s[i] == ';' && s[i + 1] == ' '
}

/// Index of the first part separator, or `-1`.
pub open spec fn spec_find_sep(s: Seq<char>) -> int
    decreases s.len(),
{
    if s.len() < 2 {
        -1
    } else if s[0] == ';' && s[1] == ' ' {
        0
    } else {
        let r = spec_find_sep(s.skip(1));
        if r < 0 {
            -1
        } else {
            1 + r
        }
    }
}

/// `spec_find_sep` names the least separator position, `-1` when none.
pub proof fn lemma_find_sep(s: Seq<char>)
    ensures
        spec_find_sep(s) == -1 || (0 <= spec_find_sep(s) && spec_find_sep(s) + 1 < s.len()),
        spec_find_sep(s) == -1 ==> forall|i: int| !sep_at(s, i),
        spec_find_sep(s) >= 0 ==> sep_at(s, spec_find_sep(s)),
        spec_find_sep(s) >= 0 ==> forall|i: int| 0 <= i < spec_find_sep(s) ==> !sep_at(s, i),
    decreases s.len(),
{
    if s.len() < 2 {
        assert(forall|i: int| !sep_at(s, i));
    } else if s[0] == ';' && s[1] == ' ' {
    } else {
        lemma_find_sep(s.skip(1));
        let t = s.skip(1);
        assert(forall|i: int| 0 <= i ==> (sep_at(s, i + 1) <==> #[trigger] sep_at(t, i)));
        if spec_find_sep(t) < 0 {
            assert forall|i: int| !sep_at(s, i) by {
                if sep_at(s, i) {
                    assert(i >= 1);
                    assert(sep_at(t, i - 1));
                }
            }
        } else {
            assert(sep_at(s, spec_find_sep(s)));
            assert forall|i: int| 0 <= i < spec_find_sep(s) implies !sep_at(s, i) by {
                if sep_at(s, i) {
                    assert(i >= 1);
                    assert(sep_at(t, i - 1));
                }
            }
        }
    }
}

/// The parts of `s`, split on `"; "`.
pub open spec fn spec_split(s: Seq<char>) -> Seq<Seq<char>>
    decreases s.len(),
{
    let i = spec_find_sep(s);
    if i < 0 || i + 2 > s.len() {
        seq![s]
    } else {
        seq![s.take(i)] + spec_split(s.skip(i + 2))
    }
}

/// Whether `s` begins with `p`.
pub open spec fn spec_starts_with(s: Seq<char>, p: Seq<char>) -> bool {
    p.len() <= s.len() && s.take(p.len() as int) == p
}

/// The value of the last part that begins with `key`, with the key stripped.
pub open spec fn spec_field(parts: Seq<Seq<char>>, key: Seq<char>) -> Option<Seq<char>>
    decreases parts.len(),
{
    if parts.len() == 0 {
        None
    } else if spec_starts_with(parts.last(), key) {
        Some(parts.last().skip(key.len() as int))
    } else {
        spec_field(parts.drop_last(), key)
    }
}

/// What parsing an agent string yields: `(os, platform, arch, hostname)`.
pub open spec fn spec_parse_agent(s: Seq<char>) -> Option<
    (Seq<char>, Seq<char>, Seq<char>, Seq<char>),
> {
    let parts = spec_split(s);
    let os = spec_field(parts, "os="@);
    let platform = spec_field(parts, "platform="@);
    let arch = spec_field(parts, "arch="@);
    let host = spec_field(parts, "host="@);
    if os is Some && platform is Some && arch is Some && host is Some {
        Some((os.unwrap(), platform.unwrap(), arch.unwrap(), host.unwrap()))
    } else {
        None
    }
}

/// Index of the first `"; "` in `s`, if any.
fn find_sep(s: &str) -> (r: Option<usize>)
    ensures
        r is None <==> spec_find_sep(s@) == -1,
        r matches Some(i) ==> i == spec_find_sep(s@),
{
    proof {
        lemma_find_sep(s@);
    }
    let n = s.unicode_len();
    if n < 2 {
        return None;
    }
    let mut i: usize = 0;
    while i + 1 < n
        invariant
            n == s@.len(),
            n >= 2,
            i + 1 <= n,
            forall|m: int| 0 <= m < i ==> !sep_at(s@, m),
            spec_find_sep(s@) == -1 || (0 <= spec_find_sep(s@) && sep_at(s@, spec_find_sep(s@))
                && forall|m: int| 0 <= m < spec_find_sep(s@) ==> !sep_at(s@, m)),
            spec_find_sep(s@) == -1 ==> forall|m: int| !sep_at(s@, m),
        decreases n - i,
    {
        let c0 = s.get_char(i);
        let c1 = s.get_char(i + 1);
        if c0 == ';' && c1 == ' ' {
            proof {
                assert(sep_at(s@, i as int));
            }
            return Some(i);
        }
        proof {
            assert(!sep_at(s@, i as int));
        }
        i = i + 1;
    }
    proof {
        if spec_find_sep(s@) >= 0 {
            assert(sep_at(s@, spec_find_sep(s@)));
            assert(spec_find_sep(s@) + 1 < n);
            assert(false);
        }
    }
    None
}

/// Split `s` on every `"; "`.
fn split_parts(s: &str) -> (r: Vec<String>)
    ensures
        r@.len() == spec_split(s@).len(),
        forall|i: int| 0 <= i < r@.len() ==> (#[trigger] r@[i])@ == spec_split(s@)[i],
    decreases s@.len(),
{
    proof {
        lemma_find_sep(s@);
    }
    let n = s.unicode_len();
    match find_sep(s) {
        None => {
            let mut v: Vec<String> = Vec::new();
            v.push(s.to_owned());
            v
        },
        Some(i) => {
            let head = s.substring_char(0, i);
            let rest = s.substring_char(i + 2, n);
            proof {
                assert(rest@ == s@.skip(i + 2));
                assert(head@ == s@.take(i as int));
            }
            let mut tail = split_parts(rest);
            let mut v: Vec<String> = Vec::new();
            v.push(head.to_owned());
            v.append(&mut tail);
            proof {
                assert(spec_split(s@) == seq![s@.take(i as int)] + spec_split(s@.skip(i + 2)));
            }
            v
        },
    }
}

/// Whether `s` begins with `p`.
fn starts_with(s: &str, p: &str) -> (r: bool)
    ensures
        r == spec_starts_with(s@, p@),
{
    let n = s.unicode_len();
    let m = p.unicode_len();
    if m > n {
        return false;
    }
    let mut i: usize = 0;
    while i < m
        invariant
            m <= n,
            n == s@.len(),
            m == p@.len(),
            i <= m,
            forall|k: int| 0 <= k < i ==> s@[k] == p@[k],
        decreases m - i,
    {
        if s.get_char(i) != p.get_char(i) {
            proof {
                assert(s@.take(m as int)[i as int] != p@[i as int]);
            }
            return false;
        }
        i = i + 1;
    }
    proof {
        assert(s@.take(m as int) =~= p@);
    }
    true
}

impl OsInfo {
    /// An `OsInfo` from explicit fields.
    pub fn new(hostname: String, os: String, platform: String, arch: String) -> (r: Self)
        ensures
            r.hostname == hostname,
            r.os == os,
            r.platform == platform,
            r.arch == arch,
    {
        OsInfo { hostname, os, platform, arch }
    }

    /// Render the agent string this node advertises.
    pub fn to_agent_version(&self) -> (r: String)
        ensures
            r@ == spec_agent_version(self.os@, self.platform@, self.arch@, self.hostname@),
    {
        let mut s = String::from_str("swarmdrop/0.1.0; os=");
        s.append(self.os.as_str());
        s.append("; platform=");
        s.append(self.platform.as_str());
        s.append("; arch=");
        s.append(self.arch.as_str());
        s.append("; host=");
        s.append(self.hostname.as_str());
        proof {
            assert(s@ =~= spec_agent_version(self.os@, self.platform@, self.arch@, self.hostname@));
        }
        s
    }

    /// The fallback identity when an agent string cannot be parsed: the
    /// first eight characters of the peer id stand in for the hostname.
    pub fn unknown_from_peer_id(peer_id: &str) -> (r: Self)
        ensures
            r.hostname@ == peer_id@.take(if peer_id@.len() < 8 {
                peer_id@.len() as int
            } else {
                8
            }),
            r.os@ == "unknown"@,
            r.platform@ == "unknown"@,
            r.arch@ == "unknown"@,
    {
        let n = peer_id.unicode_len();
        let take_n = if n < 8 {
            n
        } else {
            8
        };
        let host = peer_id.substring_char(0, take_n);
        OsInfo {
            hostname: host.to_owned(),
            os: String::from_str("unknown"),
            platform: String::from_str("unknown"),
            arch: String::from_str("unknown"),
        }
    }

    /// Parse an agent string.  Succeeds exactly when all four keys occur in
    /// its `"; "`-separated parts; a later occurrence of a key wins.
    pub fn from_agent_version(agent_version: &str) -> (r: Option<Self>)
        ensures
            r is Some <==> spec_parse_agent(agent_version@) is Some,
            r matches Some(info) ==> spec_parse_agent(agent_version@) == Some(
                (info.os@, info.platform@, info.arch@, info.hostname@),
            ),
    {
        let parts = split_parts(agent_version);
        let ghost sparts = spec_split(agent_version@);
        let mut os: Option<String> = None;
        let mut platform: Option<String> = None;
        let mut arch: Option<String> = None;
        let mut hostname: Option<String> = None;
        let mut k: usize = 0;
        while k < parts.len()
            invariant
                parts@.len() == sparts.len(),
                forall|i: int| 0 <= i < parts@.len() ==> (#[trigger] parts@[i])@ == sparts[i],
                k <= parts@.len(),
                option_matches_field(&os, sparts.take(k as int), "os="@),
                option_matches_field(&platform, sparts.take(k as int), "platform="@),
                option_matches_field(&arch, sparts.take(k as int), "arch="@),
                option_matches_field(&hostname, sparts.take(k as int), "host="@),
            decreases parts@.len() - k,
        {
            let part = &parts[k];
            let n = part.unicode_len();
            proof {
                assert(sparts.take(k + 1).drop_last() =~= sparts.take(k as int));
                assert(sparts.take(k + 1).last() == sparts[k as int]);
                reveal_strlit("os=");
                reveal_strlit("platform=");
                reveal_strlit("arch=");
                reveal_strlit("host=");
            }
            if starts_with(part.as_str(), "os=") {
                proof {
                    lemma_distinct_prefixes(part@, "os="@, "platform="@);
                    lemma_distinct_prefixes(part@, "os="@, "arch="@);
                    lemma_distinct_prefixes(part@, "os="@, "host="@);
                }
                os = Some(part.as_str().substring_char(3, n).to_owned());
            } else if starts_with(part.as_str(), "platform=") {
                proof {
                    lemma_distinct_prefixes(part@, "platform="@, "arch="@);
                    lemma_distinct_prefixes(part@, "platform="@, "host="@);
                }
                platform = Some(part.as_str().substring_char(9, n).to_owned());
            } else if starts_with(part.as_str(), "arch=") {
                proof {
                    lemma_distinct_prefixes(part@, "arch="@, "host="@);
                }
                arch = Some(part.as_str().substring_char(5, n).to_owned());
            } else if starts_with(part.as_str(), "host=") {
                hostname = Some(part.as_str().substring_char(5, n).to_owned());
            }
            k = k + 1;
        }
        proof {
            assert(sparts.take(sparts.len() as int) =~= sparts);
        }
        match (os, platform, arch, hostname) {
            (Some(os), Some(platform), Some(arch), Some(hostname)) => Some(
                OsInfo { hostname, os, platform, arch },
            ),
            _ => None,
        }
    }
}

/// No character of `s` is a semicolon, so no part separator can start
/// inside it.
pub open spec fn no_semicolon(s: Seq<char>) -> bool {
    forall|i: int| 0 <= i < s.len() ==> s[i] != ';'
}

/// When position `j` holds the first separator, `spec_find_sep` names it.
proof fn lemma_find_sep_is(s: Seq<char>, j: int)
    requires
        sep_at(s, j),
        forall|m: int| 0 <= m < j ==> !sep_at(s, m),
    ensures
        spec_find_sep(s) == j,
{
    lemma_find_sep(s);
    if spec_find_sep(s) == -1 {
        assert(!sep_at(s, j));
    } else if spec_find_sep(s) < j {
        assert(!sep_at(s, spec_find_sep(s)));
    } else if spec_find_sep(s) > j {
        assert(!sep_at(s, j));
    }
}

/// A string whose parts hold no semicolon splits right after its head:
/// `lit + field` is the first part and the rest follows the separator.
proof fn lemma_split_head(lit: Seq<char>, field: Seq<char>, rest: Seq<char>)
    requires
        no_semicolon(lit),
        no_semicolon(field),
        rest.len() >= 2,
        rest[0] == ';',
        rest[1] == ' ',
    ensures
        spec_split(lit + field + rest) =~= seq![lit + field] + spec_split(rest.skip(2)),
{
    let s = lit + field + rest;
    let j = (lit.len() + field.len()) as int;
    assert(s[j] == ';' && s[j + 1] == ' ');
    assert forall|m: int| 0 <= m < j implies !sep_at(s, m) by {
        if m < lit.len() {
            assert(s[m] == lit[m]);
        } else {
            assert(s[m] == field[m - lit.len()]);
        }
    }
    lemma_find_sep_is(s, j);
    assert(s.take(j) =~= lit + field);
    assert(s.skip(j + 2) =~= rest.skip(2));
}

/// A string without separators is one single part.
proof fn lemma_split_last(lit: Seq<char>, field: Seq<char>)
    requires
        no_semicolon(lit),
        no_semicolon(field),
    ensures
        spec_split(lit + field) =~= seq![lit + field],
{
    let s = lit + field;
    assert forall|m: int| !sep_at(s, m) by {
        if 0 <= m && m + 1 < s.len() {
            if m < lit.len() {
                assert(s[m] == lit[m]);
            } else {
                assert(s[m] == field[m - lit.len()]);
            }
        }
    }
    lemma_find_sep(s);
    if spec_find_sep(s) >= 0 {
        assert(sep_at(s, spec_find_sep(s)));
    }
}

/// A part whose first character differs from the key's cannot carry it.
proof fn lemma_not_field(p: Seq<char>, key: Seq<char>)
    requires
        key.len() >= 1,
        p.len() == 0 || p[0] != key[0],
    ensures
        !spec_starts_with(p, key),
{
    if spec_starts_with(p, key) {
        assert(p.take(key.len() as int)[0] == p[0]);
    }
}

/// A part built as `key + value` carries exactly `value` under `key`.
proof fn lemma_field_strip(key: Seq<char>, value: Seq<char>)
    ensures
        spec_starts_with(key + value, key),
        (key + value).skip(key.len() as int) =~= value,
{
    assert((key + value).take(key.len() as int) =~= key);
}

/// The printer and the parser agree: an agent string rendered from fields
/// that hold no semicolon parses back to exactly those fields.
pub proof fn lemma_agent_version_round_trip(
    os: Seq<char>,
    platform: Seq<char>,
    arch: Seq<char>,
    host: Seq<char>,
)
    requires
        no_semicolon(os),
        no_semicolon(platform),
        no_semicolon(arch),
        no_semicolon(host),
    ensures
        spec_parse_agent(spec_agent_version(os, platform, arch, host)) == Some(
            (os, platform, arch, host),
        ),
{
    reveal_strlit("swarmdrop/0.1.0; os=");
    reveal_strlit("; os=");
    reveal_strlit("; platform=");
    reveal_strlit("; arch=");
    reveal_strlit("; host=");
    reveal_strlit("swarmdrop/0.1.0");
    reveal_strlit("os=");
    reveal_strlit("platform=");
    reveal_strlit("arch=");
    reveal_strlit("host=");
    let l0 = "swarmdrop/0.1.0"@;
    let k_os = "os="@;
    let k_pf = "platform="@;
    let k_ar = "arch="@;
    let k_ho = "host="@;
    let full = spec_agent_version(os, platform, arch, host);
    let r1 = "; platform="@ + platform + "; arch="@ + arch + "; host="@ + host;
    let r2 = "; arch="@ + arch + "; host="@ + host;
    let r3 = "; host="@ + host;

    assert(no_semicolon(l0)) by {
        assert(forall|i: int| 0 <= i < l0.len() ==> l0[i] != ';');
    }
    assert(no_semicolon(k_os) && no_semicolon(k_pf) && no_semicolon(k_ar) && no_semicolon(k_ho));
    assert(no_semicolon(Seq::<char>::empty()));

    // Peel the four separators off, one part at a time.
    assert("swarmdrop/0.1.0; os="@ =~= l0 + "; os="@);
    assert(full =~= l0 + Seq::<char>::empty() + ("; os="@ + os + r1));
    assert(("; os="@ + os + r1)[0] == ';' && ("; os="@ + os + r1)[1] == ' ') by {
        assert(("; os="@ + os + r1)[0] == "; os="@[0]);
        assert(("; os="@ + os + r1)[1] == "; os="@[1]);
    }
    lemma_split_head(l0, Seq::<char>::empty(), "; os="@ + os + r1);
    assert(spec_split(full) =~= seq![l0] + spec_split(("; os="@ + os + r1).skip(2))) by {
        assert(l0 + Seq::<char>::empty() =~= l0);
        assert(spec_split(l0 + Seq::<char>::empty() + ("; os="@ + os + r1)) =~= seq![
            l0 + Seq::<char>::empty(),
        ] + spec_split(("; os="@ + os + r1).skip(2)));
    }
    assert(("; os="@ + os + r1).skip(2) =~= k_os + os + r1);

    assert(r1[0] == ';' && r1[1] == ' ') by {
        assert(r1[0] == "; platform="@[0]);
        assert(r1[1] == "; platform="@[1]);
    }
    assert(k_os + os + r1 =~= k_os + os + r1);
    lemma_split_head(k_os, os, r1);
    assert(r1.skip(2) =~= k_pf + platform + r2);

    assert(r2[0] == ';' && r2[1] == ' ') by {
        assert(r2[0] == "; arch="@[0]);
        assert(r2[1] == "; arch="@[1]);
    }
    assert(k_pf + platform + r2 =~= k_pf + platform + r2);
    lemma_split_head(k_pf, platform, r2);
    assert(r2.skip(2) =~= k_ar + arch + r3);

    assert(r3[0] == ';' && r3[1] == ' ') by {
        assert(r3[0] == "; host="@[0]);
        assert(r3[1] == "; host="@[1]);
    }
    lemma_split_head(k_ar, arch, r3);
    assert(r3.skip(2) =~= k_ho + host);
    lemma_split_last(k_ho, host);

    let parts = spec_split(full);
    assert(spec_split(k_os + os + r1) =~= seq![k_os + os] + spec_split(r1.skip(2)));
    assert(spec_split(k_pf + platform + r2) =~= seq![k_pf + platform] + spec_split(r2.skip(2)));
    assert(spec_split(k_ar + arch + r3) =~= seq![k_ar + arch] + spec_split(r3.skip(2)));
    assert(parts =~= seq![l0, k_os + os, k_pf + platform, k_ar + arch, k_ho + host]);

    // Read the four fields back, scanning parts from the last.
    lemma_field_strip(k_os, os);
    lemma_field_strip(k_pf, platform);
    lemma_field_strip(k_ar, arch);
    lemma_field_strip(k_ho, host);
    lemma_not_field(k_ho + host, k_os);
    lemma_not_field(k_ho + host, k_pf);
    lemma_not_field(k_ho + host, k_ar);
    lemma_not_field(k_ar + arch, k_os);
    lemma_not_field(k_ar + arch, k_pf);
    lemma_not_field(k_ar + arch, k_ho);
    lemma_not_field(k_pf + platform, k_os);
    lemma_not_field(k_pf + platform, k_ar);
    lemma_not_field(k_pf + platform, k_ho);
    lemma_not_field(k_os + os, k_pf);
    lemma_not_field(k_os + os, k_ar);
    lemma_not_field(k_os + os, k_ho);
    lemma_not_field(l0, k_ho);

    let p4 = parts.drop_last();
    let p3 = p4.drop_last();
    let p2 = p3.drop_last();
    assert(p4 =~= seq![l0, k_os + os, k_pf + platform, k_ar + arch]);
    assert(p3 =~= seq![l0, k_os + os, k_pf + platform]);
    assert(p2 =~= seq![l0, k_os + os]);
    assert(parts.last() == k_ho + host);
    assert(p4.last() == k_ar + arch);
    assert(p3.last() == k_pf + platform);
    assert(p2.last() == k_os + os);

    assert(spec_field(parts, k_ho) == Some((k_ho + host).skip(k_ho.len() as int)));
    assert(spec_field(parts, k_ar) == spec_field(p4, k_ar));
    assert(spec_field(p4, k_ar) == Some((k_ar + arch).skip(k_ar.len() as int)));
    assert(spec_field(parts, k_pf) == spec_field(p4, k_pf));
    assert(spec_field(p4, k_pf) == spec_field(p3, k_pf));
    assert(spec_field(p3, k_pf) == Some((k_pf + platform).skip(k_pf.len() as int)));
    assert(spec_field(parts, k_os) == spec_field(p4, k_os));
    assert(spec_field(p4, k_os) == spec_field(p3, k_os));
    assert(spec_field(p3, k_os) == spec_field(p2, k_os));
    assert(spec_field(p2, k_os) == Some((k_os + os).skip(k_os.len() as int)));

    assert(spec_field(parts, "os="@) == Some(os));
    assert(spec_field(parts, "platform="@) == Some(platform));
    assert(spec_field(parts, "arch="@) == Some(arch));
    assert(spec_field(parts, "host="@) == Some(host));
}

/// Two keys whose first characters differ cannot both prefix `s`.
proof fn lemma_distinct_prefixes(s: Seq<char>, p: Seq<char>, q: Seq<char>)
    requires
        spec_starts_with(s, p),
        p.len() > 0,
        q.len() > 0,
        p[0] != q[0],
    ensures
        !spec_starts_with(s, q),
{
    assert(s.take(p.len() as int)[0] == s[0]);
    if spec_starts_with(s, q) {
        assert(s.take(q.len() as int)[0] == s[0]);
    }
}

/// The running option equals the last-wins field over the parts seen so far.
pub open spec fn option_matches_field(
    opt: &Option<String>,
    parts: Seq<Seq<char>>,
    key: Seq<char>,
) -> bool {
    match opt {
        Option::None => spec_field(parts, key) is None,
        Option::Some(v) => spec_field(parts, key) == Some(v@),
    }
}

} // verus!
