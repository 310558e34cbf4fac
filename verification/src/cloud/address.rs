//! Peer addresses: which advertised address a peer is reached at, and how it is
//! written in a URL.
use vstd::prelude::*;

use crate::cloud::status::DiscoveryPeer;
use crate::text::{decimal, decimal_chars, hex_of, push_char, push_chars, push_hex, push_str};

verus! {

/// An IP address a discovered peer advertises: four octets, or eight 16-bit
/// segments.
#[derive(Debug, Clone, Copy, PartialEq, Eq, Structural)]
pub enum PeerAddress {
    V4(u8, u8, u8, u8),
    V6(u16, u16, u16, u16, u16, u16, u16, u16),
}

pub open spec fn v6_segments(a: PeerAddress) -> Seq<u16> {
    match a {
        PeerAddress::V6(s0, s1, s2, s3, s4, s5, s6, s7) => seq![s0, s1, s2, s3, s4, s5, s6, s7],
        PeerAddress::V4(..) => Seq::empty(),
    }
}

/// `127.0.0.0/8`, or `::1`.
pub open spec fn is_loopback(a: PeerAddress) -> bool {
    match a {
        PeerAddress::V4(o0, _, _, _) => o0 == 127,
        PeerAddress::V6(s0, s1, s2, s3, s4, s5, s6, s7) => s0 == 0 && s1 == 0 && s2 == 0 && s3 == 0
            && s4 == 0 && s5 == 0 && s6 == 0 && s7 == 1,
    }
}

/// `0.0.0.0`, or `::`.
pub open spec fn is_unspecified(a: PeerAddress) -> bool {
    match a {
        PeerAddress::V4(o0, o1, o2, o3) => o0 == 0 && o1 == 0 && o2 == 0 && o3 == 0,
        PeerAddress::V6(s0, s1, s2, s3, s4, s5, s6, s7) => s0 == 0 && s1 == 0 && s2 == 0 && s3 == 0
            && s4 == 0 && s5 == 0 && s6 == 0 && s7 == 0,
    }
}

/// `224.0.0.0/4`, or `ff00::/8`.
pub open spec fn is_multicast(a: PeerAddress) -> bool {
    match a {
        PeerAddress::V4(o0, _, _, _) => 224 <= o0 <= 239,
        PeerAddress::V6(s0, _, _, _, _, _, _, _) => s0 >= 0xff00,
    }
}

/// `fe80::/10`.
pub open spec fn is_unicast_link_local(a: PeerAddress) -> bool {
    match a {
        PeerAddress::V4(..) => false,
        PeerAddress::V6(s0, _, _, _, _, _, _, _) => 0xfe80 <= s0 <= 0xfebf,
    }
}

pub open spec fn is_v4(a: PeerAddress) -> bool {
    a is V4
}

/// The tiers of address preference, best first: IPv4 loopback; other usable IPv4;
/// IPv6 loopback; global IPv6; anything specified.
pub open spec fn address_tier_ok(tier: int, a: PeerAddress) -> bool {
    if tier == 0 {
        is_v4(a) && is_loopback(a)
    } else if tier == 1 {
        is_v4(a) && !is_unspecified(a) && !is_multicast(a)
    } else if tier == 2 {
        !is_v4(a) && is_loopback(a)
    } else if tier == 3 {
        !is_v4(a) && !is_unspecified(a) && !is_multicast(a) && !is_unicast_link_local(a)
    } else {
        !is_unspecified(a)
    }
}

/// Index of the first address that passes `tier`, or -1.
pub open spec fn first_in_tier(addrs: Seq<PeerAddress>, tier: int) -> int
    decreases addrs.len(),
{
    if addrs.len() == 0 {
        -1
    } else if address_tier_ok(tier, addrs[0]) {
        0
    } else {
        let r = first_in_tier(addrs.drop_first(), tier);
        if r < 0 { -1 } else { r + 1 }
    }
}

/// The address a peer is reached at: the first address of the best tier that
/// has one.
pub open spec fn preferred_address(addrs: Seq<PeerAddress>) -> Option<PeerAddress> {
    if first_in_tier(addrs, 0) >= 0 {
        Some(addrs[first_in_tier(addrs, 0)])
    } else if first_in_tier(addrs, 1) >= 0 {
        Some(addrs[first_in_tier(addrs, 1)])
    } else if first_in_tier(addrs, 2) >= 0 {
        Some(addrs[first_in_tier(addrs, 2)])
    } else if first_in_tier(addrs, 3) >= 0 {
        Some(addrs[first_in_tier(addrs, 3)])
    } else if first_in_tier(addrs, 4) >= 0 {
        Some(addrs[first_in_tier(addrs, 4)])
    } else {
        None
    }
}

proof fn lemma_first_in_tier(addrs: Seq<PeerAddress>, tier: int)
    ensures
        -1 <= first_in_tier(addrs, tier) < addrs.len(),
        first_in_tier(addrs, tier) >= 0 ==> address_tier_ok(tier, addrs[first_in_tier(addrs, tier)]),
        forall|k: int| 0 <= k < addrs.len() && (first_in_tier(addrs, tier) < 0 || k < first_in_tier(addrs, tier))
            ==> !address_tier_ok(tier, #[trigger] addrs[k]),
    decreases addrs.len(),
{
    if addrs.len() > 0 && !address_tier_ok(tier, addrs[0]) {
        lemma_first_in_tier(addrs.drop_first(), tier);
        assert forall|k: int| 0 <= k < addrs.len() && (first_in_tier(addrs, tier) < 0 || k < first_in_tier(addrs, tier))
            implies !address_tier_ok(tier, #[trigger] addrs[k]) by {
            if k > 0 {
                assert(addrs.drop_first()[k - 1] == addrs[k]);
            }
        }
        if first_in_tier(addrs, tier) >= 0 {
            assert(addrs.drop_first()[first_in_tier(addrs, tier) - 1] == addrs[first_in_tier(addrs, tier)]);
        }
    }
}

fn tier_ok(tier: u8, a: PeerAddress) -> (r: bool)
    ensures
        r == address_tier_ok(tier as int, a),
{
    let v4 = match a { PeerAddress::V4(..) => true, _ => false };
    let loopback = match a {
        PeerAddress::V4(o0, _, _, _) => o0 == 127,
        PeerAddress::V6(s0, s1, s2, s3, s4, s5, s6, s7) => s0 == 0 && s1 == 0 && s2 == 0 && s3 == 0
            && s4 == 0 && s5 == 0 && s6 == 0 && s7 == 1,
    };
    let unspecified = match a {
        PeerAddress::V4(o0, o1, o2, o3) => o0 == 0 && o1 == 0 && o2 == 0 && o3 == 0,
        PeerAddress::V6(s0, s1, s2, s3, s4, s5, s6, s7) => s0 == 0 && s1 == 0 && s2 == 0 && s3 == 0
            && s4 == 0 && s5 == 0 && s6 == 0 && s7 == 0,
    };
    let multicast = match a {
        PeerAddress::V4(o0, _, _, _) => 224 <= o0 && o0 <= 239,
        PeerAddress::V6(s0, _, _, _, _, _, _, _) => s0 >= 0xff00,
    };
    let link_local = match a {
        PeerAddress::V4(..) => false,
        PeerAddress::V6(s0, _, _, _, _, _, _, _) => 0xfe80 <= s0 && s0 <= 0xfebf,
    };
    if tier == 0 {
        v4 && loopback
    } else if tier == 1 {
        v4 && !unspecified && !multicast
    } else if tier == 2 {
        !v4 && loopback
    } else if tier == 3 {
        !v4 && !unspecified && !multicast && !link_local
    } else {
        !unspecified
    }
}

fn find_in_tier(addrs: &[PeerAddress], tier: u8) -> (r: Option<PeerAddress>)
    ensures
        match r {
            Some(a) => first_in_tier(addrs@, tier as int) >= 0 && a == addrs@[first_in_tier(addrs@, tier as int)],
            None => first_in_tier(addrs@, tier as int) < 0,
        },
{
    proof {
        lemma_first_in_tier(addrs@, tier as int);
    }
    let mut i: usize = 0;
    while i < addrs.len()
        invariant
            i <= addrs.len(),
            -1 <= first_in_tier(addrs@, tier as int) < addrs@.len(),
            first_in_tier(addrs@, tier as int) >= 0 ==> address_tier_ok(tier as int, addrs@[first_in_tier(addrs@, tier as int)]),
            forall|k: int| 0 <= k < addrs@.len() && (first_in_tier(addrs@, tier as int) < 0 || k < first_in_tier(addrs@, tier as int))
                ==> !address_tier_ok(tier as int, #[trigger] addrs@[k]),
            forall|k: int| 0 <= k < i ==> !address_tier_ok(tier as int, #[trigger] addrs@[k]),
        decreases addrs.len() - i,
    {
        if tier_ok(tier, addrs[i]) {
            return Some(addrs[i]);
        }
        i = i + 1;
    }
    None
}

/// The address a peer is reached at, if it advertises a usable one.
pub fn select_preferred_peer_address(addresses: &[PeerAddress]) -> (r: Option<PeerAddress>)
    ensures
        r == preferred_address(addresses@),
{
    let mut tier: u8 = 0;
    while tier < 5
        invariant
            tier <= 5,
            forall|t: int| 0 <= t < tier ==> first_in_tier(addresses@, t) < 0,
        decreases 5 - tier,
    {
        match find_in_tier(addresses, tier) {
            Some(a) => return Some(a),
            None => {},
        }
        tier = tier + 1;
    }
    None
}

/// A specified loopback IPv4 address is always preferred.
pub proof fn law_ipv4_loopback_preferred(addrs: Seq<PeerAddress>, i: int)
    requires
        0 <= i < addrs.len(),
        is_v4(addrs[i]) && is_loopback(addrs[i]),
    ensures
        preferred_address(addrs) is Some,
        is_v4(preferred_address(addrs)->0) && is_loopback(preferred_address(addrs)->0),
{
    lemma_first_in_tier(addrs, 0);
}

/// The unspecified address is never chosen, and a peer is reachable exactly when
/// it advertises some other address.
pub proof fn law_never_unspecified(addrs: Seq<PeerAddress>)
    ensures
        preferred_address(addrs) is Some ==> !is_unspecified(preferred_address(addrs)->0),
        preferred_address(addrs) is Some <==> exists|i: int| 0 <= i < addrs.len() && !is_unspecified(#[trigger] addrs[i]),
{
    lemma_first_in_tier(addrs, 0);
    lemma_first_in_tier(addrs, 1);
    lemma_first_in_tier(addrs, 2);
    lemma_first_in_tier(addrs, 3);
    lemma_first_in_tier(addrs, 4);
}

/// Dotted decimal of four octets.
pub open spec fn dotted(o0: u8, o1: u8, o2: u8, o3: u8) -> Seq<char> {
    decimal(o0 as nat) + seq!['.'] + decimal(o1 as nat) + seq!['.'] + decimal(o2 as nat) + seq!['.']
        + decimal(o3 as nat)
}

/// Segments in lowercase hex joined by `:`.
pub open spec fn join_hex(segs: Seq<u16>) -> Seq<char>
    decreases segs.len(),
{
    if segs.len() == 0 {
        Seq::empty()
    } else if segs.len() == 1 {
        hex_of(segs[0] as nat)
    } else {
        join_hex(segs.drop_last()) + seq![':'] + hex_of(segs.last() as nat)
    }
}

/// Scanning the segments from `i`: the first longest run of zero segments, given
/// the run in progress and the longest so far (start and length).
pub open spec fn zero_scan(segs: Seq<u16>, i: int, cur_start: int, cur_len: int, best_start: int, best_len: int) -> (int, int)
    decreases segs.len() - i,
{
    if i >= segs.len() || i < 0 {
        (best_start, best_len)
    } else if segs[i] == 0 {
        let cs = if cur_len == 0 { i } else { cur_start };
        let cl = cur_len + 1;
        if cl > best_len {
            zero_scan(segs, i + 1, cs, cl, cs, cl)
        } else {
            zero_scan(segs, i + 1, cs, cl, best_start, best_len)
        }
    } else {
        zero_scan(segs, i + 1, 0, 0, best_start, best_len)
    }
}

/// An IPv6 address as `Ipv6Addr` displays it (RFC 5952): an IPv4-mapped address
/// as `::ffff:` and dotted decimal; otherwise lowercase hex segments with the
/// first longest run of two or more zero segments written `::`.
pub open spec fn v6_text(segs: Seq<u16>) -> Seq<char> {
    if segs[0] == 0 && segs[1] == 0 && segs[2] == 0 && segs[3] == 0 && segs[4] == 0 && segs[5] == 0xffff {
        "::ffff:"@ + dotted((segs[6] / 256) as u8, (segs[6] % 256) as u8, (segs[7] / 256) as u8, (segs[7] % 256) as u8)
    } else {
        let (start, len) = zero_scan(segs, 0, 0, 0, 0, 0);
        if len > 1 {
            join_hex(segs.take(start)) + "::"@ + join_hex(segs.skip(start + len))
        } else {
            join_hex(segs)
        }
    }
}

/// How an address is written as the host of a URL: IPv6 in brackets.
pub open spec fn url_host_spec(a: PeerAddress) -> Seq<char> {
    match a {
        PeerAddress::V4(o0, o1, o2, o3) => dotted(o0, o1, o2, o3),
        PeerAddress::V6(..) => seq!['['] + v6_text(v6_segments(a)) + seq![']'],
    }
}

fn push_dotted(out: &mut Vec<char>, o0: u8, o1: u8, o2: u8, o3: u8)
    ensures
        final(out)@ == old(out)@ + dotted(o0, o1, o2, o3),
{
    crate::text::push_decimal(out, o0 as u64);
    out.push('.');
    crate::text::push_decimal(out, o1 as u64);
    out.push('.');
    crate::text::push_decimal(out, o2 as u64);
    out.push('.');
    crate::text::push_decimal(out, o3 as u64);
    assert(final(out)@ =~= old(out)@ + dotted(o0, o1, o2, o3));
}

fn push_join_hex(out: &mut Vec<char>, segs: &[u16])
    ensures
        final(out)@ == old(out)@ + join_hex(segs@),
{
    let mut i: usize = 0;
    while i < segs.len()
        invariant
            i <= segs.len(),
            out@ == old(out)@ + join_hex(segs@.take(i as int)),
        decreases segs.len() - i,
    {
        let ghost before = out@;
        assert(segs@.take(i + 1).drop_last() =~= segs@.take(i as int));
        if i > 0 {
            out.push(':');
        }
        push_hex(out, segs[i] as u64);
        proof {
            if i == 0 {
                assert(join_hex(segs@.take(0)) =~= Seq::<char>::empty());
                assert(out@ =~= old(out)@ + join_hex(segs@.take(1)));
            } else {
                assert(out@ =~= old(out)@ + join_hex(segs@.take(i + 1)));
            }
        }
        i = i + 1;
    }
    assert(segs@.take(segs.len() as int) =~= segs@);
}

fn longest_zero_run(segs: &[u16]) -> (r: (usize, usize))
    ensures
        (r.0 as int, r.1 as int) == zero_scan(segs@, 0, 0, 0, 0, 0),
        r.0 + r.1 <= segs.len(),
{
    let mut cur_start: usize = 0;
    let mut cur_len: usize = 0;
    let mut best_start: usize = 0;
    let mut best_len: usize = 0;
    let mut i: usize = 0;
    while i < segs.len()
        invariant
            i <= segs.len(),
            cur_start + cur_len == i || cur_len == 0,
            cur_len <= i,
            best_start + best_len <= i,
            zero_scan(segs@, 0, 0, 0, 0, 0) == zero_scan(
                segs@,
                i as int,
                cur_start as int,
                cur_len as int,
                best_start as int,
                best_len as int,
            ),
        decreases segs.len() - i,
    {
        if segs[i] == 0 {
            if cur_len == 0 {
                cur_start = i;
            }
            cur_len = cur_len + 1;
            if cur_len > best_len {
                best_start = cur_start;
                best_len = cur_len;
            }
        } else {
            cur_start = 0;
            cur_len = 0;
        }
        i = i + 1;
    }
    (best_start, best_len)
}

/// The host part of a URL that reaches `address`.
pub fn runtime_cloud_url_host(address: PeerAddress) -> (r: String)
    ensures
        r@ == url_host_spec(address),
{
    let mut out: Vec<char> = Vec::new();
    match address {
        PeerAddress::V4(o0, o1, o2, o3) => {
            push_dotted(&mut out, o0, o1, o2, o3);
        },
        PeerAddress::V6(s0, s1, s2, s3, s4, s5, s6, s7) => {
            let segs: Vec<u16> = vec![s0, s1, s2, s3, s4, s5, s6, s7];
            assert(segs@ =~= v6_segments(address));
            out.push('[');
            if s0 == 0 && s1 == 0 && s2 == 0 && s3 == 0 && s4 == 0 && s5 == 0xffff {
                let p = crate::text::chars_of("::ffff:");
                let mut k: usize = 0;
                while k < p.len()
                    invariant
                        k <= p.len(),
                        out@ == seq!['['] + p@.take(k as int),
                    decreases p.len() - k,
                {
                    out.push(p[k]);
                    assert(p@.take(k + 1) =~= p@.take(k as int).push(p@[k as int]));
                    k = k + 1;
                }
                assert(p@.take(p.len() as int) =~= p@);
                push_dotted(&mut out, (s6 / 256) as u8, (s6 % 256) as u8, (s7 / 256) as u8, (s7 % 256) as u8);
            } else {
                let (start, len) = longest_zero_run(segs.as_slice());
                if len > 1 {
                    let head = crate::text::slice_u16(segs.as_slice(), 0, start);
                    push_join_hex(&mut out, head.as_slice());
                    out.push(':');
                    out.push(':');
                    let tail = crate::text::slice_u16(segs.as_slice(), start + len, segs.len());
                    push_join_hex(&mut out, tail.as_slice());
                    proof {
                        reveal_strlit("::");
                        assert(head@ =~= segs@.take(start as int));
                        assert(tail@ =~= segs@.skip(start + len));
                    }
                } else {
                    push_join_hex(&mut out, segs.as_slice());
                }
            }
            out.push(']');
        },
    }
    assert(out@ =~= url_host_spec(address));
    crate::text::string_of(out.as_slice())
}

/// Where to probe a peer for liveness: its preferred address and web port, when
/// it has both.
pub open spec fn probe_endpoint_spec(addresses: Seq<PeerAddress>, web_port: Option<u16>) -> Option<(PeerAddress, u16)> {
    match web_port {
        None => None,
        Some(port) => match preferred_address(addresses) {
            None => None,
            Some(a) => Some((a, port)),
        },
    }
}

pub fn runtime_cloud_probe_endpoint(addresses: &[PeerAddress], web_port: Option<u16>) -> (r: Option<(PeerAddress, u16)>)
    ensures
        r == probe_endpoint_spec(addresses@, web_port),
{
    let port = match web_port {
        None => return None,
        Some(p) => p,
    };
    match select_preferred_peer_address(addresses) {
        None => None,
        Some(a) => Some((a, port)),
    }
}

/// Index of the first discovery entry named or identified by `target`, or -1.
pub open spec fn find_peer(peers: Seq<DiscoveryPeer>, target: Seq<char>) -> int
    decreases peers.len(),
{
    if peers.len() == 0 {
        -1
    } else if peers[0].name@ == target || peers[0].id@ == target {
        0
    } else {
        let r = find_peer(peers.drop_first(), target);
        if r < 0 { -1 } else { r + 1 }
    }
}

proof fn lemma_find_peer(peers: Seq<DiscoveryPeer>, target: Seq<char>)
    ensures
        -1 <= find_peer(peers, target) < peers.len(),
        find_peer(peers, target) >= 0 ==> (peers[find_peer(peers, target)].name@ == target
            || peers[find_peer(peers, target)].id@ == target),
        forall|k: int| 0 <= k < peers.len() && (find_peer(peers, target) < 0 || k < find_peer(peers, target))
            ==> !((#[trigger] peers[k]).name@ == target || peers[k].id@ == target),
    decreases peers.len(),
{
    if peers.len() > 0 && !(peers[0].name@ == target || peers[0].id@ == target) {
        lemma_find_peer(peers.drop_first(), target);
        assert forall|k: int| 0 <= k < peers.len() && (find_peer(peers, target) < 0 || k < find_peer(peers, target))
            implies !((#[trigger] peers[k]).name@ == target || peers[k].id@ == target) by {
            if k > 0 {
                assert(peers.drop_first()[k - 1] == peers[k]);
            }
        }
        if find_peer(peers, target) >= 0 {
            assert(peers.drop_first()[find_peer(peers, target) - 1] == peers[find_peer(peers, target)]);
        }
    }
}

/// The web base URL of `target`: the first discovery entry named or identified
/// by it decides; it needs a web port and a usable address.
pub open spec fn web_base_url_spec(peers: Seq<DiscoveryPeer>, target: Seq<char>, secure: bool) -> Option<Seq<char>> {
    let i = find_peer(peers, target);
    if i < 0 {
        None
    } else {
        let p = peers[i];
        match p.web_port {
            None => None,
            Some(port) => match preferred_address(p.addresses@) {
                None => None,
                Some(a) => Some((if secure { "https"@ } else { "http"@ }) + "://"@ + url_host_spec(a) + seq![':']
                    + decimal(port as nat)),
            },
        }
    }
}

pub fn runtime_cloud_target_web_base_url(peers: &[DiscoveryPeer], target: &str, require_secure_transport: bool) -> (r: Option<String>)
    ensures
        match r {
            Some(u) => web_base_url_spec(peers@, target@, require_secure_transport) == Some(u@),
            None => web_base_url_spec(peers@, target@, require_secure_transport) is None,
        },
{
    proof {
        lemma_find_peer(peers@, target@);
    }
    let mut i: usize = 0;
    while i < peers.len()
        invariant
            i <= peers.len(),
            -1 <= find_peer(peers@, target@) < peers@.len(),
            find_peer(peers@, target@) >= 0 ==> (peers@[find_peer(peers@, target@)].name@ == target@
                || peers@[find_peer(peers@, target@)].id@ == target@),
            forall|k: int| 0 <= k < peers@.len() && (find_peer(peers@, target@) < 0 || k < find_peer(peers@, target@))
                ==> !((#[trigger] peers@[k]).name@ == target@ || peers@[k].id@ == target@),
            forall|k: int| 0 <= k < i ==> !((#[trigger] peers@[k]).name@ == target@ || peers@[k].id@ == target@),
        decreases peers.len() - i,
    {
        let p = &peers[i];
        if crate::text::str_eq(p.name.as_str(), target) || crate::text::str_eq(p.id.as_str(), target) {
            assert(find_peer(peers@, target@) == i);
            let port = match p.web_port {
                None => return None,
                Some(port) => port,
            };
            let a = match select_preferred_peer_address(p.addresses.as_slice()) {
                None => return None,
                Some(a) => a,
            };
            let mut u = if require_secure_transport { "https".to_owned() } else { "http".to_owned() };
            push_str(&mut u, "://");
            let host = runtime_cloud_url_host(a);
            push_str(&mut u, host.as_str());
            push_char(&mut u, ':');
            let d = decimal_chars(port as u64);
            push_chars(&mut u, d.as_slice());
            return Some(u);
        }
        i = i + 1;
    }
    None
}

/// The control endpoint of `target`: its web base URL followed by `/api/control`.
pub fn runtime_cloud_target_control_url(peers: &[DiscoveryPeer], target: &str, require_secure_transport: bool) -> (r: Option<String>)
    ensures
        match r {
            Some(u) => web_base_url_spec(peers@, target@, require_secure_transport) is Some
                && u@ == web_base_url_spec(peers@, target@, require_secure_transport)->0 + "/api/control"@,
            None => web_base_url_spec(peers@, target@, require_secure_transport) is None,
        },
{
    match runtime_cloud_target_web_base_url(peers, target, require_secure_transport) {
        None => None,
        Some(base) => {
            let mut u = base;
            push_str(&mut u, "/api/control");
            Some(u)
        },
    }
}

} // verus!
