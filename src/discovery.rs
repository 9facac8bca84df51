//! Service discovery: which local address to advertise, and the record that
//! advertises it.

use vstd::prelude::*;
use crate::text::chars_of;

verus! {

/// What `str::to_lowercase` yields for a text.
pub uninterp spec fn lower_of(s: Seq<char>) -> Seq<char>;

/// Relies on `str::to_lowercase`: the result depends on the characters alone.
#[verifier::external_body]
fn lowercase(s: &str) -> (r: String)
    ensures
        r@ == lower_of(s@),
{
    s.to_lowercase()
}

pub open spec fn starts_with(s: Seq<char>, p: Seq<char>) -> bool {
    p.len() <= s.len() && s.take(p.len() as int) == p
}

pub open spec fn has_fragment(s: Seq<char>, f: Seq<char>) -> bool {
    exists|i: int| 0 <= i && i + f.len() <= s.len() && #[trigger] s.subrange(i, i + f.len()) == f
}

/// Name fragments of virtualisation, container, tunnel and VPN adapters.
pub open spec fn is_virtual_name(lower: Seq<char>) -> bool {
    ||| has_fragment(lower, "wsl"@)
    ||| has_fragment(lower, "docker"@)
    ||| has_fragment(lower, "vethernet"@)
    ||| has_fragment(lower, "tailscale"@)
    ||| has_fragment(lower, "meta"@)
    ||| has_fragment(lower, "loopback"@)
}

/// An IPv6 address in `fe80::/10`, written with its first group in full.
pub open spec fn is_ipv6_link_local(ip: Seq<char>) -> bool {
    &&& ip.len() >= 5
    &&& ip[0] == 'f'
    &&& ip[1] == 'e'
    &&& (ip[2] == '8' || ip[2] == '9' || ip[2] == 'a' || ip[2] == 'b')
    &&& ip[4] == ':'
}

/// Loopback and link-local addresses, IPv4 and IPv6, are never advertised.
pub open spec fn is_excluded_ip(ip: Seq<char>) -> bool {
    ||| starts_with(ip, "127."@)
    ||| starts_with(ip, "169.254."@)
    ||| ip == "::1"@
    ||| is_ipv6_link_local(ip)
}

/// 3 for 192.168.*, 2 for 10.* and 172.*, 1 for anything else.
pub open spec fn rank_of(ip: Seq<char>) -> u8 {
    if starts_with(ip, "192.168."@) {
        3
    } else if starts_with(ip, "10."@) || starts_with(ip, "172."@) {
        2
    } else {
        1
    }
}

/// An address that may be advertised, with what ranks it.
pub struct IpCandidate {
    pub rank: u8,
    pub physical: bool,
    pub ip: String,
}

/// Rank first, then a physical adapter before a virtual one.
pub open spec fn key_of(rank: u8, physical: bool) -> int {
    rank as int * 2 + if physical { 1int } else { 0int }
}

pub open spec fn cand_key(c: IpCandidate) -> int {
    key_of(c.rank, c.physical)
}

/// The candidates among `(name, address)` pairs, in order, as (key, address).
pub open spec fn candidates_of(ifaces: Seq<(Seq<char>, Seq<char>)>) -> Seq<(int, Seq<char>)>
    decreases ifaces.len(),
{
    if ifaces.len() == 0 {
        Seq::empty()
    } else {
        let rest = candidates_of(ifaces.drop_last());
        let (name, ip) = ifaces.last();
        if is_excluded_ip(ip) {
            rest
        } else {
            rest.push((key_of(rank_of(ip), !is_virtual_name(lower_of(name))), ip))
        }
    }
}

/// Position `i` holds the first of the highest keys.
pub open spec fn is_best_index(keys: Seq<int>, i: int) -> bool {
    &&& 0 <= i < keys.len()
    &&& forall|j: int| 0 <= j < keys.len() ==> keys[j] <= keys[i]
    &&& forall|j: int| 0 <= j < i ==> keys[j] < keys[i]
}

/// The address to advertise among `(key, address)` candidates.
pub open spec fn best_address(c: Seq<(int, Seq<char>)>) -> Option<Seq<char>> {
    let keys = c.map_values(|p: (int, Seq<char>)| p.0);
    if exists|i: int| is_best_index(keys, i) {
        Some(c[choose|i: int| is_best_index(keys, i)].1)
    } else {
        None
    }
}

pub open spec fn ifaces_view(v: Seq<(String, String)>) -> Seq<(Seq<char>, Seq<char>)> {
    v.map_values(|p: (String, String)| (p.0@, p.1@))
}

/// Whether `f` occurs in `s`.
pub fn contains_fragment(s: &str, f: &str) -> (r: bool)
    ensures
        r == has_fragment(s@, f@),
{
    let sc = chars_of(s);
    let fc = chars_of(f);
    if fc.len() > sc.len() {
        return false;
    }
    let last = sc.len() - fc.len();
    let mut i: usize = 0;
    while i <= last
        invariant
            sc@ == s@,
            fc@ == f@,
            last == sc.len() - fc.len(),
            fc.len() <= sc.len(),
            i <= last + 1,
            forall|k: int| 0 <= k < i ==> #[trigger] s@.subrange(k, k + f@.len()) != f@,
        decreases last + 1 - i,
    {
        let mut j: usize = 0;
        let mut same = true;
        while j < fc.len()
            invariant
                sc@ == s@,
                fc@ == f@,
                i <= last,
                last == sc.len() - fc.len(),
                j <= fc.len(),
                same == (forall|m: int| 0 <= m < j ==> sc@[i + m] == fc@[m]),
            decreases fc.len() - j,
        {
            if sc[i + j] != fc[j] {
                same = false;
            }
            j = j + 1;
        }
        if same {
            proof {
                assert(s@.subrange(i as int, i + f@.len()) == f@);
            }
            return true;
        }
        proof {
            let m = choose|m: int| 0 <= m < fc.len() && sc@[i + m] != fc@[m];
            assert(s@.subrange(i as int, i + f@.len())[m] != f@[m]);
        }
        i = i + 1;
    }
    proof {
        assert forall|k: int| 0 <= k && k + f@.len() <= s@.len() implies #[trigger] s@.subrange(k, k + f@.len()) != f@ by {
            assert(k < i);
        }
    }
    false
}

/// Whether `s` begins with `p`.
pub fn begins_with(s: &str, p: &str) -> (r: bool)
    ensures
        r == starts_with(s@, p@),
{
    let sc = chars_of(s);
    let pc = chars_of(p);
    if pc.len() > sc.len() {
        return false;
    }
    let mut j: usize = 0;
    while j < pc.len()
        invariant
            sc@ == s@,
            pc@ == p@,
            pc.len() <= sc.len(),
            j <= pc.len(),
            forall|m: int| 0 <= m < j ==> sc@[m] == pc@[m],
        decreases pc.len() - j,
    {
        if sc[j] != pc[j] {
            proof {
                assert(s@.take(p@.len() as int)[j as int] != p@[j as int]);
            }
            return false;
        }
        j = j + 1;
    }
    proof {
        assert(s@.take(p@.len() as int) == p@);
    }
    true
}

/// Whether an already lower-cased adapter name marks a virtual adapter.
pub fn is_virtual_adapter(lower: &str) -> (r: bool)
    ensures
        r == is_virtual_name(lower@),
{
    contains_fragment(lower, "wsl") || contains_fragment(lower, "docker")
        || contains_fragment(lower, "vethernet") || contains_fragment(lower, "tailscale")
        || contains_fragment(lower, "meta") || contains_fragment(lower, "loopback")
}

/// Whether an address is loopback or link-local.
pub fn excluded_ip(ip: &str) -> (r: bool)
    ensures
        r == is_excluded_ip(ip@),
{
    if begins_with(ip, "127.") || begins_with(ip, "169.254.") {
        return true;
    }
    let c = chars_of(ip);
    let loopback = chars_of("::1");
    proof {
        reveal_strlit("::1");
    }
    if c.len() == 3 && c[0] == loopback[0] && c[1] == loopback[1] && c[2] == loopback[2] {
        proof {
            assert(ip@ =~= "::1"@);
        }
        return true;
    }
    proof {
        if ip@ == "::1"@ {
            assert(c@[0] == loopback@[0] && c@[1] == loopback@[1] && c@[2] == loopback@[2]);
        }
    }
    c.len() >= 5 && c[0] == 'f' && c[1] == 'e' && (c[2] == '8' || c[2] == '9' || c[2] == 'a' || c[2] == 'b')
        && c[4] == ':'
}

/// The rank of an address by its private-range prefix.
pub fn ip_rank(ip: &str) -> (r: u8)
    ensures
        r == rank_of(ip@),
{
    if begins_with(ip, "192.168.") {
        3
    } else if begins_with(ip, "10.") || begins_with(ip, "172.") {
        2
    } else {
        1
    }
}

/// The first of the best-ranked candidates, or nothing when there is none.
pub fn select_best(cands: &Vec<IpCandidate>) -> (r: Option<usize>)
    ensures
        match r {
            Some(i) => is_best_index(cands@.map_values(|c: IpCandidate| cand_key(c)), i as int),
            None => cands.len() == 0,
        },
{
    let ghost keys = cands@.map_values(|c: IpCandidate| cand_key(c));
    if cands.len() == 0 {
        return None;
    }
    let mut best: usize = 0;
    let mut i: usize = 1;
    while i < cands.len()
        invariant
            keys == cands@.map_values(|c: IpCandidate| cand_key(c)),
            1 <= i <= cands.len(),
            best < i,
            forall|j: int| 0 <= j < i ==> keys[j] <= keys[best as int],
            forall|j: int| 0 <= j < best ==> keys[j] < keys[best as int],
        decreases cands.len() - i,
    {
        let better = cands[i].rank > cands[best].rank
            || (cands[i].rank == cands[best].rank && cands[i].physical && !cands[best].physical);
        if better {
            best = i;
        }
        i = i + 1;
    }
    Some(best)
}

/// The address to advertise among `(adapter name, address)` pairs: loopback and
/// link-local addresses left out, the best rank first, a physical adapter before
/// a virtual one, and the earlier pair on a tie.
pub fn best_local_ip(interfaces: &Vec<(String, String)>) -> (r: Option<String>)
    ensures
        r matches Some(ip) ==> best_address(candidates_of(ifaces_view(interfaces@))) == Some(ip@),
        r is None ==> best_address(candidates_of(ifaces_view(interfaces@))) is None,
{
    let ghost all = ifaces_view(interfaces@);
    let mut cands: Vec<IpCandidate> = Vec::new();
    let mut i: usize = 0;
    while i < interfaces.len()
        invariant
            all == ifaces_view(interfaces@),
            i <= interfaces.len(),
            cands@.len() == candidates_of(all.take(i as int)).len(),
            forall|k: int| 0 <= k < cands@.len() ==> (cand_key(#[trigger] cands@[k]), cands@[k].ip@)
                == candidates_of(all.take(i as int))[k],
        decreases interfaces.len() - i,
    {
        let name = &interfaces[i].0;
        let ip = &interfaces[i].1;
        proof {
            let t = all.take(i as int + 1);
            assert(t.drop_last() == all.take(i as int));
            assert(t.last() == (name@, ip@));
        }
        if !excluded_ip(ip.as_str()) {
            let lower = lowercase(name.as_str());
            let physical = !is_virtual_adapter(lower.as_str());
            let rank = ip_rank(ip.as_str());
            cands.push(IpCandidate { rank, physical, ip: ip.clone() });
        }
        i = i + 1;
    }
    proof {
        assert(all.take(interfaces.len() as int) == all);
    }
    let ghost c = candidates_of(all);
    let ghost keys = cands@.map_values(|x: IpCandidate| cand_key(x));
    let ghost ckeys = c.map_values(|p: (int, Seq<char>)| p.0);
    proof {
        assert(keys == ckeys);
    }
    match select_best(&cands) {
        Some(b) => {
            proof {
                let k = choose|k: int| is_best_index(ckeys, k);
                if k < b {
                    assert(ckeys[k] < ckeys[b as int]);
                } else if k > b {
                    assert(ckeys[b as int] < ckeys[k]);
                }
                assert(k == b);
            }
            Some(cands[b].ip.clone())
        },
        None => {
            proof {
                assert(c.len() == 0);
            }
            None
        },
    }
}

/// Service type under which the receiver is advertised.
pub const SERVICE_TYPE: &'static str = "_photosync._tcp.local.";

/// Appended to the host name to form the instance name.
pub const INSTANCE_SUFFIX: &'static str = "_fastsync";

/// Appended to the instance name to form the advertised host.
pub const HOST_SUFFIX: &'static str = ".local.";

/// Port the ingestion endpoints listen on.
pub const SERVICE_PORT: u16 = 3000;

/// Host name used when the system does not report one.
pub const FALLBACK_HOSTNAME: &'static str = "fast-sync-pc";

/// The advertisement of this receiver.
pub struct ServiceRecord {
    pub service_type: String,
    pub instance_name: String,
    pub host_name: String,
    pub ip: String,
    pub port: u16,
}

/// Why discovery was skipped.
#[derive(Clone, Copy, PartialEq, Eq, Debug)]
pub enum DiscoveryError {
    /// No local address qualifies for advertising.
    NoAddress,
    /// The discovery library refused the record.
    InvalidRecord,
}

pub open spec fn is_record_for(r: ServiceRecord, hostname: Seq<char>, ip: Seq<char>) -> bool {
    &&& r.service_type@ == SERVICE_TYPE@
    &&& r.instance_name@ == hostname + INSTANCE_SUFFIX@
    &&& r.host_name@ == hostname + INSTANCE_SUFFIX@ + HOST_SUFFIX@
    &&& r.ip@ == ip
    &&& r.port == SERVICE_PORT
}

/// The record advertising `ip` for the machine called `hostname`.
pub fn service_record(hostname: &str, ip: &str) -> (r: ServiceRecord)
    ensures
        is_record_for(r, hostname@, ip@),
{
    let mut instance_name = String::from_str(hostname);
    instance_name.append(INSTANCE_SUFFIX);
    let mut host_name = instance_name.clone();
    host_name.append(HOST_SUFFIX);
    ServiceRecord {
        service_type: String::from_str(SERVICE_TYPE),
        instance_name,
        host_name,
        ip: String::from_str(ip),
        port: SERVICE_PORT,
    }
}

/// The record to advertise, given the reported host name (if any) and the
/// selected address (if any); with no address, discovery is skipped.
pub fn discovery_record(hostname: Option<String>, ip: Option<String>) -> (r: Result<ServiceRecord, DiscoveryError>)
    ensures
        match (r, ip) {
            (Ok(rec), Some(a)) => is_record_for(rec, match hostname {
                Some(h) => h@,
                None => FALLBACK_HOSTNAME@,
            }, a@),
            (Err(e), None) => e == DiscoveryError::NoAddress,
            _ => false,
        },
{
    match ip {
        None => Err(DiscoveryError::NoAddress),
        Some(a) => match hostname {
            Some(h) => Ok(service_record(h.as_str(), a.as_str())),
            None => Ok(service_record(FALLBACK_HOSTNAME, a.as_str())),
        },
    }
}

#[verifier::external_type_specification]
#[verifier::external_body]
pub struct ExServiceInfo(mdns_sd::ServiceInfo);

#[verifier::external_type_specification]
#[verifier::external_body]
pub struct ExMdnsError(mdns_sd::Error);

/// Whether the discovery library parses every entry of a comma-separated
/// address list.
pub uninterp spec fn ip_list_accepted(ip: Seq<char>) -> bool;

/// How the discovery library writes one character of an instance name:
/// dots and backslashes get a backslash before them.
pub open spec fn instance_escape_char(c: char) -> Seq<char> {
    if c == '.' {
        seq!['\\', '.']
    } else if c == '\\' {
        seq!['\\', '\\']
    } else {
        seq![c]
    }
}

pub open spec fn instance_escaped(s: Seq<char>) -> Seq<char>
    decreases s.len(),
{
    if s.len() == 0 {
        Seq::empty()
    } else {
        instance_escaped(s.drop_last()) + instance_escape_char(s.last())
    }
}

pub open spec fn ends_with(s: Seq<char>, p: Seq<char>) -> bool {
    p.len() <= s.len() && s.skip(s.len() - p.len()) == p
}

/// The discovery library's description of the service, with what it reports
/// of its full name, host and port.
pub struct Advertisement {
    pub info: mdns_sd::ServiceInfo,
    pub fullname: String,
    pub hostname: String,
    pub port: u16,
}

/// Relies on `mdns_sd::ServiceInfo::new`, with no TXT properties, and on its
/// getters `get_fullname`, `get_hostname` and `get_port`. Construction fails
/// exactly when an entry of the address list does not parse (with no
/// properties, its other checks never fire). The full name is the escaped
/// instance name, a dot and the service type (when the type names no
/// `._sub.` subtype); the host is kept as given (unless it ends in
/// `.local.local.`, which is shortened); the port is kept.
#[verifier::external_body]
fn new_service_info(
    service_type: &str,
    instance_name: &str,
    host_name: &str,
    ip: &str,
    port: u16,
) -> (r: Result<Advertisement, mdns_sd::Error>)
    ensures
        r is Ok <==> ip_list_accepted(ip@),
        r matches Ok(a) ==> a.port == port,
        r matches Ok(a) ==> !has_fragment(service_type@, "._sub."@) ==> a.fullname@ == instance_escaped(
            instance_name@,
        ) + "."@ + service_type@,
        r matches Ok(a) ==> !ends_with(host_name@, ".local.local."@) ==> a.hostname@ == host_name@,
{
    let properties: Option<std::collections::HashMap<String, String>> = None;
    match mdns_sd::ServiceInfo::new(service_type, instance_name, host_name, ip, port, properties) {
        Ok(info) => {
            let fullname = info.get_fullname().to_string();
            let hostname = info.get_hostname().to_string();
            let port = info.get_port();
            Ok(Advertisement { info, fullname, hostname, port })
        },
        Err(e) => Err(e),
    }
}

/// The discovery library's description of a record.
pub fn service_info(record: &ServiceRecord) -> (r: Result<Advertisement, DiscoveryError>)
    ensures
        r is Ok <==> ip_list_accepted(record.ip@),
        r matches Err(e) ==> e == DiscoveryError::InvalidRecord,
        r matches Ok(a) ==> a.port == record.port,
        r matches Ok(a) ==> !has_fragment(record.service_type@, "._sub."@) ==> a.fullname@
            == instance_escaped(record.instance_name@) + "."@ + record.service_type@,
        r matches Ok(a) ==> !ends_with(record.host_name@, ".local.local."@) ==> a.hostname@
            == record.host_name@,
{
    match new_service_info(
        record.service_type.as_str(),
        record.instance_name.as_str(),
        record.host_name.as_str(),
        record.ip.as_str(),
        record.port,
    ) {
        Ok(a) => Ok(a),
        Err(_) => Err(DiscoveryError::InvalidRecord),
    }
}

pub open spec fn status_text_of(ip: Option<Seq<char>>) -> Seq<char> {
    "FastSync 运行中 - IP: "@ + match ip {
        Some(a) => a,
        None => "Unknown"@,
    }
}

/// The status line shown for the selected address.
pub fn status_text(ip: &Option<String>) -> (r: String)
    ensures
        r@ == status_text_of(match ip {
            Some(a) => Some(a@),
            None => None,
        }),
{
    let mut r = String::from_str("FastSync 运行中 - IP: ");
    match ip {
        Some(a) => r.append(a.as_str()),
        None => r.append("Unknown"),
    }
    r
}

} // verus!
