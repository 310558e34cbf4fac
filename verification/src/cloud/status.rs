//! Reachability status of runtime-cloud targets, built from discovery snapshots.
use vstd::prelude::*;

use crate::cloud::address::PeerAddress;
use crate::cloud::model::RuntimeCloudTargetStatus;
use crate::text::str_eq;

verus! {

/// A peer that has not been seen for this long is stale.
pub const RUNTIME_CLOUD_STALE_TIMEOUT_NS: u64 = 30_000_000_000;

pub open spec fn is_stale_spec(last_seen_ns: u64, now_ns: u64, force_stale: bool) -> bool {
    force_stale || last_seen_ns > now_ns || now_ns - last_seen_ns >= RUNTIME_CLOUD_STALE_TIMEOUT_NS
}

/// Whether a peer last seen at `last_seen_ns` is stale at `now_ns`.
pub fn runtime_cloud_is_stale(last_seen_ns: u64, now_ns: u64, force_stale: bool) -> (r: bool)
    ensures
        r == is_stale_spec(last_seen_ns, now_ns, force_stale),
{
    if force_stale {
        return true;
    }
    if last_seen_ns > now_ns {
        return true;
    }
    now_ns - last_seen_ns >= RUNTIME_CLOUD_STALE_TIMEOUT_NS
}

/// Two observations of the same runtime combine optimistically: reachable or secure
/// if either says so, stale only if both do.
pub open spec fn merge_status(
    existing: RuntimeCloudTargetStatus,
    candidate: RuntimeCloudTargetStatus,
) -> RuntimeCloudTargetStatus {
    RuntimeCloudTargetStatus {
        reachable: existing.reachable || candidate.reachable,
        stale: existing.stale && candidate.stale,
        supports_secure_transport: existing.supports_secure_transport
            || candidate.supports_secure_transport,
    }
}

pub fn runtime_cloud_merge_target_status(
    existing: &mut RuntimeCloudTargetStatus,
    candidate: RuntimeCloudTargetStatus,
)
    ensures
        *final(existing) == merge_status(*old(existing), candidate),
{
    existing.reachable = existing.reachable || candidate.reachable;
    existing.stale = existing.stale && candidate.stale;
    existing.supports_secure_transport = existing.supports_secure_transport
        || candidate.supports_secure_transport;
}

/// Merging is commutative, associative and idempotent, so the status of a runtime
/// does not depend on the order in which its observations arrive.
pub proof fn law_merge_order_free(
    a: RuntimeCloudTargetStatus,
    b: RuntimeCloudTargetStatus,
    c: RuntimeCloudTargetStatus,
)
    ensures
        merge_status(a, b) == merge_status(b, a),
        merge_status(merge_status(a, b), c) == merge_status(a, merge_status(b, c)),
        merge_status(a, a) == a,
{
}

/// The map of target statuses after `key` is observed with status `candidate`.
pub open spec fn merge_into(
    m: Map<Seq<char>, RuntimeCloudTargetStatus>,
    key: Seq<char>,
    candidate: RuntimeCloudTargetStatus,
) -> Map<Seq<char>, RuntimeCloudTargetStatus> {
    if m.contains_key(key) {
        m.insert(key, merge_status(m[key], candidate))
    } else {
        m.insert(key, candidate)
    }
}

pub open spec fn map_of(s: Seq<(String, RuntimeCloudTargetStatus)>) -> Map<
    Seq<char>,
    RuntimeCloudTargetStatus,
>
    decreases s.len(),
{
    if s.len() == 0 {
        Map::empty()
    } else {
        map_of(s.drop_last()).insert(s.last().0@, s.last().1)
    }
}

pub open spec fn distinct_keys(s: Seq<(String, RuntimeCloudTargetStatus)>) -> bool {
    forall|i: int, j: int| 0 <= i < s.len() && 0 <= j < s.len() && i != j ==> s[i].0@ != s[j].0@
}

pub proof fn lemma_map_of_contains(s: Seq<(String, RuntimeCloudTargetStatus)>, k: Seq<char>)
    ensures
        map_of(s).contains_key(k) <==> exists|i: int| 0 <= i < s.len() && s[i].0@ == k,
    decreases s.len(),
{
    if s.len() > 0 {
        lemma_map_of_contains(s.drop_last(), k);
        if map_of(s).contains_key(k) && s.last().0@ != k {
            let i = choose|i: int| 0 <= i < s.drop_last().len() && s.drop_last()[i].0@ == k;
            assert(s[i].0@ == k);
        }
        if exists|i: int| 0 <= i < s.len() && s[i].0@ == k {
            let i = choose|i: int| 0 <= i < s.len() && s[i].0@ == k;
            if i < s.len() - 1 {
                assert(s.drop_last()[i].0@ == k);
            }
        }
    }
}

pub proof fn lemma_map_of_get(s: Seq<(String, RuntimeCloudTargetStatus)>, j: int)
    requires
        distinct_keys(s),
        0 <= j < s.len(),
    ensures
        map_of(s).contains_key(s[j].0@),
        map_of(s)[s[j].0@] == s[j].1,
    decreases s.len(),
{
    if j < s.len() - 1 {
        assert(s.drop_last()[j] == s[j]);
        lemma_map_of_get(s.drop_last(), j);
        assert(s[j].0@ != s.last().0@);
    }
}

pub proof fn lemma_map_of_update(
    s: Seq<(String, RuntimeCloudTargetStatus)>,
    j: int,
    v: RuntimeCloudTargetStatus,
)
    requires
        distinct_keys(s),
        0 <= j < s.len(),
    ensures
        map_of(s.update(j, (s[j].0, v))) == map_of(s).insert(s[j].0@, v),
        distinct_keys(s.update(j, (s[j].0, v))),
    decreases s.len(),
{
    let t = s.update(j, (s[j].0, v));
    if j == s.len() - 1 {
        assert(t.drop_last() == s.drop_last());
        assert(map_of(t) =~= map_of(s).insert(s[j].0@, v));
    } else {
        assert(t.drop_last() == s.drop_last().update(j, (s[j].0, v)));
        lemma_map_of_update(s.drop_last(), j, v);
        assert(s[j].0@ != s.last().0@);
        assert(map_of(t) =~= map_of(s).insert(s[j].0@, v));
    }
}

/// Target statuses keyed by runtime name or id.
pub struct TargetStatusMap {
    entries: Vec<(String, RuntimeCloudTargetStatus)>,
}

impl View for TargetStatusMap {
    type V = Map<Seq<char>, RuntimeCloudTargetStatus>;

    closed spec fn view(&self) -> Map<Seq<char>, RuntimeCloudTargetStatus> {
        map_of(self.entries@)
    }
}

impl TargetStatusMap {
    /// No runtime is listed twice.
    pub closed spec fn wf(&self) -> bool {
        distinct_keys(self.entries@)
    }

    pub fn new() -> (r: Self)
        ensures
            r.wf(),
            r@ == Map::<Seq<char>, RuntimeCloudTargetStatus>::empty(),
    {
        TargetStatusMap { entries: Vec::new() }
    }

    fn position(&self, key: &str) -> (r: Option<usize>)
        requires
            self.wf(),
        ensures
            match r {
                Some(j) => j < self.entries.len() && self.entries@[j as int].0@ == key@,
                None => !self@.contains_key(key@),
            },
    {
        let mut i: usize = 0;
        while i < self.entries.len()
            invariant
                i <= self.entries.len(),
                forall|k: int| 0 <= k < i ==> self.entries@[k].0@ != key@,
            decreases self.entries.len() - i,
        {
            if str_eq(self.entries[i].0.as_str(), key) {
                return Some(i);
            }
            i = i + 1;
        }
        proof {
            lemma_map_of_contains(self.entries@, key@);
        }
        None
    }

    /// The status recorded for `key`.
    pub fn get(&self, key: &str) -> (r: Option<RuntimeCloudTargetStatus>)
        requires
            self.wf(),
        ensures
            r == (if self@.contains_key(key@) {
                Some(self@[key@])
            } else {
                None
            }),
    {
        match self.position(key) {
            Some(j) => {
                proof {
                    lemma_map_of_get(self.entries@, j as int);
                }
                Some(self.entries[j].1)
            },
            None => None,
        }
    }

    /// Records `status` for `key`, replacing what was recorded.
    pub fn insert(&mut self, key: String, status: RuntimeCloudTargetStatus)
        requires
            old(self).wf(),
        ensures
            final(self).wf(),
            final(self)@ == old(self)@.insert(key@, status),
    {
        match self.position(key.as_str()) {
            Some(j) => {
                let k = self.entries[j].0.clone();
                proof {
                    lemma_map_of_update(self.entries@, j as int, status);
                }
                self.entries.set(j, (k, status));
            },
            None => {
                proof {
                    lemma_map_of_contains(self.entries@, key@);
                }
                self.entries.push((key, status));
                proof {
                    assert(self.entries@.drop_last() == old(self).entries@);
                }
            },
        }
    }

    /// Records an observation of `key`: merged into what was recorded, if anything.
    pub fn merge_insert(&mut self, key: String, candidate: RuntimeCloudTargetStatus)
        requires
            old(self).wf(),
        ensures
            final(self).wf(),
            final(self)@ == merge_into(old(self)@, key@, candidate),
    {
        match self.get(key.as_str()) {
            Some(existing) => {
                let mut merged = existing;
                runtime_cloud_merge_target_status(&mut merged, candidate);
                self.insert(key, merged);
            },
            None => {
                self.insert(key, candidate);
            },
        }
    }

    /// The runtime names/ids and their statuses, in the order they were first seen.
    pub fn entries(&self) -> (r: &Vec<(String, RuntimeCloudTargetStatus)>)
        ensures
            map_of(r@) == self@,
            distinct_keys(r@) == self.wf(),
    {
        &self.entries
    }
}

/// What the target-status computation reads of a discovery entry.
#[derive(Debug)]
pub struct DiscoveryPeer {
    pub id: String,
    pub name: String,
    /// The addresses the entry advertises.
    pub addresses: Vec<PeerAddress>,
    pub web_port: Option<u16>,
    pub web_tls: bool,
    pub mesh_port: Option<u16>,
    pub last_seen_ns: u64,
}

pub open spec fn web_reachable(p: DiscoveryPeer) -> bool {
    p.web_port.is_some() && p.addresses@.len() > 0
}

pub open spec fn mesh_reachable(p: DiscoveryPeer) -> bool {
    p.mesh_port.is_some() && p.addresses@.len() > 0
}

/// A peer needs a live connection probe when discovery calls it stale although it
/// advertises a web endpoint.
pub open spec fn needs_probe(p: DiscoveryPeer, now_ns: u64) -> bool {
    is_stale_spec(p.last_seen_ns, now_ns, !mesh_reachable(p)) && web_reachable(p)
}

/// The status a discovery entry contributes, given the outcome of its live probe
/// (read only when `needs_probe`).
pub open spec fn peer_candidate(p: DiscoveryPeer, now_ns: u64, live: bool) -> RuntimeCloudTargetStatus {
    let stale = is_stale_spec(p.last_seen_ns, now_ns, !mesh_reachable(p));
    if needs_probe(p, now_ns) {
        RuntimeCloudTargetStatus {
            reachable: live,
            stale: !live,
            supports_secure_transport: p.web_tls,
        }
    } else {
        RuntimeCloudTargetStatus {
            reachable: web_reachable(p),
            stale: stale,
            supports_secure_transport: p.web_tls,
        }
    }
}

/// The status map after the local runtime and the first `peers.len()` entries.
pub open spec fn status_map_spec(
    peers: Seq<DiscoveryPeer>,
    live: Seq<bool>,
    local_runtime_id: Seq<char>,
    local_secure: bool,
    now_ns: u64,
) -> Map<Seq<char>, RuntimeCloudTargetStatus>
    decreases peers.len(),
{
    if peers.len() == 0 {
        Map::empty().insert(
            local_runtime_id,
            RuntimeCloudTargetStatus {
                reachable: true,
                stale: false,
                supports_secure_transport: local_secure,
            },
        )
    } else {
        let m = status_map_spec(
            peers.drop_last(),
            live,
            local_runtime_id,
            local_secure,
            now_ns,
        );
        let p = peers.last();
        let c = peer_candidate(p, now_ns, live[peers.len() - 1]);
        merge_into(merge_into(m, p.name@, c), p.id@, c)
    }
}

/// Whether the entry needs a live probe before its status can be decided.
pub fn runtime_cloud_needs_liveness_probe(peer: &DiscoveryPeer, now_ns: u64) -> (r: bool)
    ensures
        r == needs_probe(*peer, now_ns),
{
    let web = peer.web_port.is_some() && peer.addresses.len() > 0;
    let mesh = peer.mesh_port.is_some() && peer.addresses.len() > 0;
    runtime_cloud_is_stale(peer.last_seen_ns, now_ns, !mesh) && web
}

/// Status map of the local runtime and every discovered peer, keyed by both the
/// peer's name and its id. `live[i]` is the outcome of probing `peers[i]`, consulted
/// only for peers that need a probe.
pub fn runtime_cloud_target_status_map(
    peers: &[DiscoveryPeer],
    live: &[bool],
    local_runtime_id: &str,
    local_supports_secure_transport: bool,
    now_ns: u64,
) -> (r: TargetStatusMap)
    requires
        live.len() == peers.len(),
    ensures
        r.wf(),
        r@ == status_map_spec(
            peers@,
            live@,
            local_runtime_id@,
            local_supports_secure_transport,
            now_ns,
        ),
{
    let mut targets = TargetStatusMap::new();
    targets.insert(
        local_runtime_id.to_owned(),
        RuntimeCloudTargetStatus {
            reachable: true,
            stale: false,
            supports_secure_transport: local_supports_secure_transport,
        },
    );
    let mut i: usize = 0;
    while i < peers.len()
        invariant
            live.len() == peers.len(),
            i <= peers.len(),
            targets.wf(),
            targets@ == status_map_spec(
                peers@.take(i as int),
                live@,
                local_runtime_id@,
                local_supports_secure_transport,
                now_ns,
            ),
        decreases peers.len() - i,
    {
        let entry = &peers[i];
        let web = entry.web_port.is_some() && entry.addresses.len() > 0;
        let mesh = entry.mesh_port.is_some() && entry.addresses.len() > 0;
        let mut stale = runtime_cloud_is_stale(entry.last_seen_ns, now_ns, !mesh);
        let mut reachable = web;
        if stale && web {
            if live[i] {
                stale = false;
                reachable = true;
            } else {
                reachable = false;
            }
        }
        let candidate = RuntimeCloudTargetStatus {
            reachable,
            stale,
            supports_secure_transport: entry.web_tls,
        };
        assert(candidate == peer_candidate(peers@[i as int], now_ns, live@[i as int]));
        targets.merge_insert(entry.name.clone(), candidate);
        targets.merge_insert(entry.id.clone(), candidate);
        assert(peers@.take(i + 1).drop_last() == peers@.take(i as int));
        i = i + 1;
    }
    assert(peers@.take(peers.len() as int) == peers@);
    targets
}

} // verus!
