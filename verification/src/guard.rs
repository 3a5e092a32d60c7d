//! Where the server may connect to. Addresses are classified, and a host is
//! taken to one address that was checked, so that what is connected to is what
//! was checked. Private targets are refused unless the operator allows them.

use crate::weburl::{UrlHost, UrlHostView, WebUrl};
use vstd::prelude::*;

verus! {

/// An IP address.
#[derive(Debug, Clone, Copy, PartialEq, Eq)]
pub enum IpAddr {
    V4([u8; 4]),
    V6([u8; 16]),
}

/// An address and a port.
#[derive(Debug, Clone, Copy)]
pub struct SocketAddr {
    pub ip: IpAddr,
    pub port: u16,
}

// --- policy ---

/// The policy on private targets, which is set once.
pub struct EgressPolicy {
    pub allow: Option<bool>,
}

/// Sets the policy on private targets; the first call wins.
pub fn set_allow_private_targets(policy: &mut EgressPolicy, allow: bool)
    ensures
        final(policy).allow == Some(
            match old(policy).allow {
                Some(first) => first,
                None => allow,
            },
        ),
{
    if policy.allow.is_none() {
        policy.allow = Some(allow);
    }
}

/// Whether private targets are allowed: not unless the policy says so.
pub fn allow_private(policy: &EgressPolicy) -> (r: bool)
    ensures
        r == (policy.allow == Some(true)),
{
    match policy.allow {
        Some(allow) => allow,
        None => false,
    }
}

// --- addresses ---

/// The IPv4 addresses that are not globally routable unicast.
pub open spec fn blocked_v4(o: Seq<u8>) -> bool {
    // loopback 127.0.0.0/8
    ||| o[0] == 127
    // private 10.0.0.0/8, 172.16.0.0/12, 192.168.0.0/16
    ||| o[0] == 10
    ||| o[0] == 172 && 16 <= o[1] <= 31
    ||| o[0] == 192 && o[1] == 168
    // link-local 169.254.0.0/16, where the cloud metadata service answers
    ||| o[0] == 169 && o[1] == 254
    // broadcast 255.255.255.255
    ||| o[0] == 255 && o[1] == 255 && o[2] == 255 && o[3] == 255
    // multicast 224.0.0.0/4
    ||| 224 <= o[0] <= 239
    // this network 0.0.0.0/8, which holds the unspecified address
    ||| o[0] == 0
    // carrier-grade NAT 100.64.0.0/10
    ||| o[0] == 100 && 64 <= o[1] <= 127
}

pub open spec fn all_zero(o: Seq<u8>, from: int, to: int) -> bool {
    forall|i: int| from <= i < to ==> #[trigger] o[i] == 0
}

/// The IPv4-mapped IPv6 addresses `::ffff:a.b.c.d`.
pub open spec fn v4_mapped(o: Seq<u8>) -> bool {
    all_zero(o, 0, 10) && o[10] == 255 && o[11] == 255
}

/// The IPv6 addresses that are not globally routable unicast. A mapped IPv4
/// address is only as safe as what it maps.
pub open spec fn blocked_v6(o: Seq<u8>) -> bool {
    // loopback ::1 and unspecified ::
    ||| all_zero(o, 0, 15) && o[15] <= 1
    // multicast ff00::/8
    ||| o[0] == 0xff
    // unique local fc00::/7
    ||| o[0] == 0xfc || o[0] == 0xfd
    // link-local fe80::/10
    ||| o[0] == 0xfe && 0x80 <= o[1] <= 0xbf
    ||| v4_mapped(o) && blocked_v4(o.skip(12))
}

/// The addresses no connection is opened to.
pub open spec fn blocked(ip: IpAddr) -> bool {
    match ip {
        IpAddr::V4(o) => blocked_v4(o@),
        IpAddr::V6(o) => blocked_v6(o@),
    }
}

fn is_blocked_v4(a: u8, b: u8, c: u8, d: u8) -> (r: bool)
    ensures
        r == blocked_v4(seq![a, b, c, d]),
{
    a == 127 || a == 10 || (a == 172 && 16 <= b && b <= 31) || (a == 192 && b == 168) || (a == 169
        && b == 254) || (a == 255 && b == 255 && c == 255 && d == 255) || (224 <= a && a <= 239)
        || a == 0 || (a == 100 && 64 <= b && b <= 127)
}

pub(crate) fn is_zero_to(o: &[u8; 16], to: usize) -> (r: bool)
    requires
        to <= 16,
    ensures
        r == all_zero(o@, 0, to as int),
{
    let mut i: usize = 0;
    while i < to
        invariant
            i <= to <= 16,
            forall|j: int| 0 <= j < i ==> #[trigger] o@[j] == 0,
        decreases to - i,
    {
        if o[i] != 0 {
            assert(o@[i as int] != 0);
            return false;
        }
        i += 1;
    }
    true
}

/// Whether to refuse to connect to an address: anything but a globally
/// routable unicast address.
pub fn is_blocked_ip(ip: &IpAddr) -> (r: bool)
    ensures
        r == blocked(*ip),
{
    match ip {
        IpAddr::V4(o) => {
            assert(seq![o@[0], o@[1], o@[2], o@[3]] =~= o@);
            is_blocked_v4(o[0], o[1], o[2], o[3])
        },
        IpAddr::V6(o) => {
            let mapped = is_zero_to(o, 10) && o[10] == 255 && o[11] == 255;
            assert(seq![o@[12], o@[13], o@[14], o@[15]] =~= o@.skip(12));
            (is_zero_to(o, 15) && o[15] <= 1) || o[0] == 0xff || o[0] == 0xfc || o[0] == 0xfd || (o[0]
                == 0xfe && 0x80 <= o[1] && o[1] <= 0xbf) || (mapped && is_blocked_v4(
                o[12],
                o[13],
                o[14],
                o[15],
            ))
        },
    }
}

// --- hosts ---

/// Why a target was refused.
#[derive(Debug)]
pub enum GuardError {
    /// A URL without a host.
    NoHost,
    /// An address that is blocked.
    PrivateTarget,
    /// A host with blocked addresses only.
    PrivateHost(String),
    /// A host without addresses.
    NoAddresses(String),
}

impl GuardError {
    /// What to tell the caller.
    pub open spec fn text(self) -> Seq<char> {
        match self {
            GuardError::NoHost => "URL has no host"@,
            GuardError::PrivateTarget =>
                "refusing to send to a private/loopback address (set [server] allow_private_targets = true for local/self-host use)"@,
            GuardError::PrivateHost(
                host,
            ) => "refusing to connect to a private/loopback address for host '"@ + host@
                + "' (set [server] allow_private_targets = true for local/self-host use)"@,
            GuardError::NoAddresses(host) => "host '"@ + host@ + "' resolved to no addresses"@,
        }
    }

    /// What to tell the caller.
    pub fn message(&self) -> (r: String)
        ensures
            r@ == self.text(),
    {
        match self {
            GuardError::NoHost => "URL has no host".to_owned(),
            GuardError::PrivateTarget => {
                "refusing to send to a private/loopback address (set [server] allow_private_targets = true for local/self-host use)".to_owned()
            },
            GuardError::PrivateHost(host) => {
                let mut out = "refusing to connect to a private/loopback address for host '".to_owned();
                out.append(host.as_str());
                out.append(
                    "' (set [server] allow_private_targets = true for local/self-host use)",
                );
                out
            },
            GuardError::NoAddresses(host) => {
                let mut out = "host '".to_owned();
                out.append(host.as_str());
                out.append("' resolved to no addresses");
                out
            },
        }
    }
}

/// The first address that may be connected to, by its place.
pub open spec fn first_allowed(addrs: Seq<SocketAddr>, allow: bool) -> Option<SocketAddr>
    decreases addrs.len(),
{
    if addrs.len() == 0 {
        None
    } else if allow || !blocked(addrs[0].ip) {
        Some(addrs[0])
    } else {
        first_allowed(addrs.drop_first(), allow)
    }
}

/// The first allowed address among those a host resolved to. The caller
/// connects to this address and does not resolve the host again. Refused where
/// the host resolved to nothing, or only to blocked addresses.
pub fn resolve_allowed(host: &str, addrs: &Vec<SocketAddr>, allow: bool) -> (r: Result<
    SocketAddr,
    GuardError,
>)
    ensures
        match r {
            Ok(addr) => first_allowed(addrs@, allow) == Some(addr),
            Err(GuardError::NoAddresses(h)) => addrs@.len() == 0 && h@ == host@,
            Err(GuardError::PrivateHost(h)) => {
                &&& addrs@.len() > 0
                &&& first_allowed(addrs@, allow) is None
                &&& h@ == host@
            },
            Err(_) => false,
        },
{
    let mut i: usize = 0;
    assert(addrs@.skip(0) =~= addrs@);
    while i < addrs.len()
        invariant
            i <= addrs@.len(),
            first_allowed(addrs@, allow) == first_allowed(addrs@.skip(i as int), allow),
        decreases addrs@.len() - i,
    {
        if allow || !is_blocked_ip(&addrs[i].ip) {
            return Ok(addrs[i]);
        }
        assert(addrs@.skip(i as int).drop_first() =~= addrs@.skip(i + 1));
        i += 1;
    }
    if addrs.len() > 0 {
        Err(GuardError::PrivateHost(host.to_owned()))
    } else {
        Err(GuardError::NoAddresses(host.to_owned()))
    }
}

/// An address that is connected to is not blocked, unless the operator allows
/// private targets, and it is one the host resolved to.
pub proof fn allowed_address_is_safe(addrs: Seq<SocketAddr>, allow: bool)
    ensures
        first_allowed(addrs, allow) matches Some(addr) ==> addrs.contains(addr) && (allow
            || !blocked(addr.ip)),
        first_allowed(addrs, allow) is None ==> forall|i: int|
            0 <= i < addrs.len() ==> !allow && blocked((#[trigger] addrs[i]).ip),
    decreases addrs.len(),
{
    if addrs.len() > 0 {
        let rest = addrs.drop_first();
        allowed_address_is_safe(rest, allow);
        if allow || !blocked(addrs[0].ip) {
            assert(addrs.contains(addrs[0]));
        } else {
            if let Some(addr) = first_allowed(rest, allow) {
                let k = choose|k: int| 0 <= k < rest.len() && rest[k] == addr;
                assert(addrs[k + 1] == addr);
            } else {
                assert forall|i: int| 0 <= i < addrs.len() implies !allow && blocked(
                    (#[trigger] addrs[i]).ip,
                ) by {
                    if i > 0 {
                        assert(addrs[i] == rest[i - 1]);
                    }
                }
            }
        }
    }
}

/// What is left to check about a URL's host.
#[derive(Debug)]
pub enum HostCheck {
    /// Nothing: it is an address that is allowed.
    Allowed,
    /// It is a name: its addresses have to be resolved and checked.
    Resolve { host: String, port: u16 },
}

/// Whether a host is written as an address.
pub open spec fn literal_host(host: Option<UrlHostView>) -> bool {
    host matches Some(h) && !(h is Domain)
}

/// Whether a host is written as an address that no connection is opened to.
pub open spec fn literal_blocked(host: Option<UrlHostView>) -> bool {
    match host {
        Some(UrlHostView::V4(o)) => blocked_v4(o),
        Some(UrlHostView::V6(o)) => blocked_v6(o),
        _ => false,
    }
}

/// Checks the host of a URL. An address is checked itself; a name has to be
/// resolved.
pub fn check_url_host(url: &WebUrl, allow: bool) -> (r: Result<HostCheck, GuardError>)
    ensures
        match url.host_text {
            None => r == Err::<HostCheck, GuardError>(GuardError::NoHost),
            Some(host) => if literal_host(url@.host) {
                if !allow && literal_blocked(url@.host) {
                    r == Err::<HostCheck, GuardError>(GuardError::PrivateTarget)
                } else {
                    r == Ok::<HostCheck, GuardError>(HostCheck::Allowed)
                }
            } else {
                r == Ok::<HostCheck, GuardError>(
                    HostCheck::Resolve {
                        host,
                        port: match url.port {
                            Some(port) => port,
                            None => 443,
                        },
                    },
                )
            },
        },
{
    let literal: Option<IpAddr> = match &url.host {
        Some(UrlHost::V4(o)) => Some(IpAddr::V4(*o)),
        Some(UrlHost::V6(o)) => Some(IpAddr::V6(*o)),
        _ => None,
    };
    match &url.host_text {
        None => Err(GuardError::NoHost),
        Some(host) => match literal {
            Some(ip) => if !allow && is_blocked_ip(&ip) {
                Err(GuardError::PrivateTarget)
            } else {
                Ok(HostCheck::Allowed)
            },
            None => Ok(
                HostCheck::Resolve {
                    host: host.clone(),
                    port: match url.port {
                        Some(port) => port,
                        None => 443,
                    },
                },
            ),
        },
    }
}

/// An IPv4-mapped IPv6 address is blocked where the address it maps is.
pub proof fn mapped_address_is_as_safe_as_its_ipv4(o: [u8; 16])
    requires
        v4_mapped(o@),
    ensures
        blocked_v4(o@.skip(12)) ==> blocked(IpAddr::V6(o)),
        blocked(IpAddr::V6(o)) ==> blocked_v4(o@.skip(12)),
{
    assert(o@[0] == 0);
    assert(o@[10] != 0);
}

/// The number that an IPv4 address stands for.
pub open spec fn v4_number(o: Seq<u8>) -> int {
    0x100_0000 * o[0] + 0x1_0000 * o[1] + 0x100 * o[2] + o[3]
}

/// Exactly these blocks of IPv4 addresses are never connected to: this network,
/// the three private ones, carrier-grade NAT, loopback, link-local, multicast
/// and broadcast. Every other address may be.
pub proof fn private_ipv4_blocks(o: [u8; 4])
    ensures
        ({
            let n = v4_number(o@);
            blocked(IpAddr::V4(o)) <==> {
                ||| n <= 0x00ff_ffff
                ||| 0x0a00_0000 <= n <= 0x0aff_ffff
                ||| 0x6440_0000 <= n <= 0x647f_ffff
                ||| 0x7f00_0000 <= n <= 0x7fff_ffff
                ||| 0xa9fe_0000 <= n <= 0xa9fe_ffff
                ||| 0xac10_0000 <= n <= 0xac1f_ffff
                ||| 0xc0a8_0000 <= n <= 0xc0a8_ffff
                ||| 0xe000_0000 <= n <= 0xefff_ffff
                ||| n == 0xffff_ffff
            }
        }),
{
}

/// Exactly these blocks of IPv6 addresses are never connected to: the
/// unspecified address and loopback, unique local, link-local and multicast
/// ones, and those that map a blocked IPv4 address.
pub proof fn private_ipv6_blocks(o: [u8; 16])
    ensures
        ({
            let first = 0x100 * o@[0] + o@[1];
            blocked(IpAddr::V6(o)) <==> {
                ||| 0xfc00 <= first <= 0xfdff
                ||| 0xfe80 <= first <= 0xfebf
                ||| 0xff00 <= first
                ||| (forall|i: int| 0 <= i < 15 ==> #[trigger] o@[i] == 0) && (o@[15] == 0 || o@[15]
                    == 1)
                ||| (forall|i: int| 0 <= i < 10 ==> #[trigger] o@[i] == 0) && o@[10] == 0xff
                    && o@[11] == 0xff && blocked(IpAddr::V4([o[12], o[13], o[14], o[15]]))
            }
        }),
{
    let mapped = [o[12], o[13], o[14], o[15]];
    assert(mapped@ =~= o@.skip(12));
}

/// A host leads to the first of its addresses that is not blocked, and to none
/// where all of them are; where private targets are allowed, to the first.
pub proof fn hosts_lead_to_their_first_good_address(addrs: Seq<SocketAddr>, allow: bool, i: int)
    requires
        0 <= i < addrs.len(),
        allow || !blocked(addrs[i].ip),
        forall|j: int| 0 <= j < i ==> !allow && blocked((#[trigger] addrs[j]).ip),
    ensures
        first_allowed(addrs, allow) == Some(addrs[i]),
    decreases i,
{
    if i > 0 {
        let rest = addrs.drop_first();
        assert(!allow && blocked(addrs[0].ip));
        assert(rest[i - 1] == addrs[i]);
        assert forall|j: int| 0 <= j < i - 1 implies !allow && blocked((#[trigger] rest[j]).ip) by {
            assert(rest[j] == addrs[j + 1]);
        }
        hosts_lead_to_their_first_good_address(rest, allow, i - 1);
    }
}

/// An address in a URL is refused exactly where connecting to it is.
pub proof fn addresses_in_urls_are_checked_alike(host: Option<UrlHostView>, v4: [u8; 4], v6: [u8; 16])
    ensures
        host == Some(UrlHostView::V4(v4@)) ==> literal_host(host) && literal_blocked(host)
            == blocked(IpAddr::V4(v4)),
        host == Some(UrlHostView::V6(v6@)) ==> literal_host(host) && literal_blocked(host)
            == blocked(IpAddr::V6(v6)),
        host matches Some(UrlHostView::Domain(_)) ==> !literal_host(host) && !literal_blocked(host),
        host is None ==> !literal_host(host) && !literal_blocked(host),
{
}

/// Why a target is refused is told in words, with the host that it was about.
pub proof fn refused_targets_have_their_words(host: String)
    ensures
        GuardError::NoHost.text() == "URL has no host"@,
        GuardError::PrivateTarget.text() == "refusing to send to a private/loopback address (set [server] allow_private_targets = true for local/self-host use)"@,
        GuardError::PrivateHost(host).text() == "refusing to connect to a private/loopback address for host '"@ + host@
                + "' (set [server] allow_private_targets = true for local/self-host use)"@,
        GuardError::NoAddresses(host).text() == "host '"@ + host@ + "' resolved to no addresses"@,
{
}

} // verus!
