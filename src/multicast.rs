//! Multicast transports: their configuration, the table of peers discovered
//! by joins with their leases, and the manager's record of open transports.
use vstd::prelude::*;
use crate::link::{address_proto, Locator, LocatorProtocol, LocatorAddressV};
use crate::properties::{
    config_bool, config_u64, ConfigProperties, ZN_JOIN_INTERVAL_DEFAULT, ZN_JOIN_INTERVAL_KEY,
    ZN_LINK_KEEP_ALIVE_DEFAULT, ZN_LINK_KEEP_ALIVE_KEY, ZN_LINK_LEASE_DEFAULT, ZN_LINK_LEASE_KEY,
    ZN_MAX_SESSIONS_DEFAULT, ZN_MAX_SESSIONS_KEY, ZN_QOS_DEFAULT, ZN_QOS_KEY,
};
use crate::conduit::{RxConduit, RxOutcome};
use crate::protocol::{zerr, PeerId, Reliability, WhatAmI, ZError, ZErrorKind, ZResult};

verus! {

/// The configuration of multicast transports; durations in milliseconds.
#[derive(Clone, Copy, Debug, PartialEq, Eq, Structural)]
pub struct TransportManagerConfigMulticast {
    pub lease: u64,
    pub keep_alive: u64,
    pub join_interval: u64,
    pub max_sessions: usize,
    pub is_qos: bool,
}

/// Builds a `TransportManagerConfigMulticast` from the defaults.
#[derive(Clone, Copy, Debug, PartialEq, Eq, Structural)]
pub struct TransportManagerConfigBuilderMulticast {
    pub lease: u64,
    pub keep_alive: u64,
    pub join_interval: u64,
    pub max_sessions: usize,
    pub is_qos: bool,
}

pub open spec fn default_builder_multicast() -> TransportManagerConfigBuilderMulticast {
    TransportManagerConfigBuilderMulticast {
        lease: ZN_LINK_LEASE_DEFAULT,
        keep_alive: ZN_LINK_KEEP_ALIVE_DEFAULT,
        join_interval: ZN_JOIN_INTERVAL_DEFAULT,
        max_sessions: ZN_MAX_SESSIONS_DEFAULT,
        is_qos: ZN_QOS_DEFAULT,
    }
}

pub open spec fn built(b: TransportManagerConfigBuilderMulticast) -> TransportManagerConfigMulticast {
    TransportManagerConfigMulticast {
        lease: b.lease,
        keep_alive: b.keep_alive,
        join_interval: b.join_interval,
        max_sessions: b.max_sessions,
        is_qos: b.is_qos,
    }
}

/// `b` with the values that `cfg` sets; `None` where one of them does not parse.
pub open spec fn builder_from_config(
    b: TransportManagerConfigBuilderMulticast,
    cfg: Map<u64, Seq<char>>,
) -> Option<TransportManagerConfigBuilderMulticast> {
    match (
        config_u64(cfg, ZN_LINK_LEASE_KEY),
        config_u64(cfg, ZN_LINK_KEEP_ALIVE_KEY),
        config_u64(cfg, ZN_JOIN_INTERVAL_KEY),
        config_u64(cfg, ZN_MAX_SESSIONS_KEY),
        config_bool(cfg, ZN_QOS_KEY),
    ) {
        (Some(l), Some(k), Some(j), Some(m), Some(q)) => if m matches Some(mv) && mv > usize::MAX {
            None
        } else {
            Some(
                TransportManagerConfigBuilderMulticast {
                    lease: if l is Some { l->Some_0 } else { b.lease },
                    keep_alive: if k is Some { k->Some_0 } else { b.keep_alive },
                    join_interval: if j is Some { j->Some_0 } else { b.join_interval },
                    max_sessions: if m is Some { m->Some_0 as usize } else { b.max_sessions },
                    is_qos: if q is Some { q->Some_0 } else { b.is_qos },
                },
            )
        },
        _ => None,
    }
}

impl Default for TransportManagerConfigMulticast {
    fn default() -> (r: TransportManagerConfigMulticast)
        ensures
            r == built(default_builder_multicast()),
    {
        Self::builder().build()
    }
}

impl TransportManagerConfigMulticast {
    pub fn builder() -> (r: TransportManagerConfigBuilderMulticast)
        ensures
            r == default_builder_multicast(),
    {
        TransportManagerConfigBuilderMulticast::default()
    }
}

impl Default for TransportManagerConfigBuilderMulticast {
    fn default() -> (r: TransportManagerConfigBuilderMulticast)
        ensures
            r == default_builder_multicast(),
    {
        TransportManagerConfigBuilderMulticast {
            lease: ZN_LINK_LEASE_DEFAULT,
            keep_alive: ZN_LINK_KEEP_ALIVE_DEFAULT,
            join_interval: ZN_JOIN_INTERVAL_DEFAULT,
            max_sessions: ZN_MAX_SESSIONS_DEFAULT,
            is_qos: ZN_QOS_DEFAULT,
        }
    }
}

impl TransportManagerConfigBuilderMulticast {
    pub fn lease(self, lease: u64) -> (r: Self)
        ensures
            r == (Self { lease, ..self }),
    {
        Self { lease, ..self }
    }

    pub fn keep_alive(self, keep_alive: u64) -> (r: Self)
        ensures
            r == (Self { keep_alive, ..self }),
    {
        Self { keep_alive, ..self }
    }

    pub fn join_interval(self, join_interval: u64) -> (r: Self)
        ensures
            r == (Self { join_interval, ..self }),
    {
        Self { join_interval, ..self }
    }

    pub fn max_sessions(self, max_sessions: usize) -> (r: Self)
        ensures
            r == (Self { max_sessions, ..self }),
    {
        Self { max_sessions, ..self }
    }

    pub fn qos(self, is_qos: bool) -> (r: Self)
        ensures
            r == (Self { is_qos, ..self }),
    {
        Self { is_qos, ..self }
    }

    /// This builder with the values that `properties` sets; an error where one does not parse.
    pub fn from_config(self, properties: &ConfigProperties) -> (r: ZResult<TransportManagerConfigBuilderMulticast>)
        ensures
            match builder_from_config(self, properties@) {
                Some(b) => r == Ok::<TransportManagerConfigBuilderMulticast, ZError>(b),
                None => r == zerr::<TransportManagerConfigBuilderMulticast>(ZErrorKind::Other),
            },
    {
        let mut b = self;
        let l = properties.get_u64(ZN_LINK_LEASE_KEY);
        let k = properties.get_u64(ZN_LINK_KEEP_ALIVE_KEY);
        let j = properties.get_u64(ZN_JOIN_INTERVAL_KEY);
        let m = properties.get_u64(ZN_MAX_SESSIONS_KEY);
        let q = properties.get_bool(ZN_QOS_KEY);
        match (l, k, j, m, q) {
            (Ok(l), Ok(k), Ok(j), Ok(m), Ok(q)) => {
                if let Some(v) = l {
                    b = b.lease(v);
                }
                if let Some(v) = k {
                    b = b.keep_alive(v);
                }
                if let Some(v) = j {
                    b = b.join_interval(v);
                }
                if let Some(v) = m {
                    if v > usize::MAX as u64 {
                        return Err(ZError { kind: ZErrorKind::Other });
                    }
                    b = b.max_sessions(v as usize);
                }
                if let Some(v) = q {
                    b = b.qos(v);
                }
                Ok(b)
            },
            _ => Err(ZError { kind: ZErrorKind::Other }),
        }
    }

    pub fn build(self) -> (r: TransportManagerConfigMulticast)
        ensures
            r == built(self),
    {
        TransportManagerConfigMulticast {
            lease: self.lease,
            keep_alive: self.keep_alive,
            join_interval: self.join_interval,
            max_sessions: self.max_sessions,
            is_qos: self.is_qos,
        }
    }
}

/// A peer known to a multicast transport.
#[derive(Debug)]
pub struct PeerEntry {
    pub pid: PeerId,
    pub whatami: WhatAmI,
    /// How long the peer may stay silent, in milliseconds.
    pub lease: u64,
    /// When the peer was last heard from, in milliseconds.
    pub last_seen: u64,
    /// What the peer's reliable frames are expected to carry next.
    pub rx_reliable: RxConduit,
    /// What the peer's best-effort frames are expected to carry next.
    pub rx_best_effort: RxConduit,
}

pub struct PeerV {
    pub pid: Seq<u8>,
    pub whatami: WhatAmI,
    pub lease: u64,
    pub last_seen: u64,
    pub rx_reliable: RxConduit,
    pub rx_best_effort: RxConduit,
}

impl View for PeerEntry {
    type V = PeerV;

    open spec fn view(&self) -> PeerV {
        PeerV {
            pid: self.pid@,
            whatami: self.whatami,
            lease: self.lease,
            last_seen: self.last_seen,
            rx_reliable: self.rx_reliable,
            rx_best_effort: self.rx_best_effort,
        }
    }
}

pub open spec fn peers_view(s: Seq<PeerEntry>) -> Seq<PeerV> {
    s.map_values(|p: PeerEntry| p@)
}

/// A peer has expired at `now` once more than its lease has passed since it was last heard from.
pub open spec fn expired(p: PeerV, now: u64) -> bool {
    now > p.last_seen + p.lease
}

/// The peers of `s` that are still alive at `now`, in order.
pub open spec fn live_peers(s: Seq<PeerV>, now: u64) -> Seq<PeerV>
    decreases s.len(),
{
    if s.len() == 0 {
        Seq::empty()
    } else if expired(s.last(), now) {
        live_peers(s.drop_last(), now)
    } else {
        live_peers(s.drop_last(), now).push(s.last())
    }
}

/// The peers of `s` that have expired at `now`, in order.
pub open spec fn expired_peers(s: Seq<PeerV>, now: u64) -> Seq<PeerV>
    decreases s.len(),
{
    if s.len() == 0 {
        Seq::empty()
    } else if expired(s.last(), now) {
        expired_peers(s.drop_last(), now).push(s.last())
    } else {
        expired_peers(s.drop_last(), now)
    }
}

pub open spec fn pids_distinct(s: Seq<PeerV>) -> bool {
    forall|i: int, j: int| 0 <= i < j < s.len() ==> #[trigger] s[i].pid != #[trigger] s[j].pid
}

pub open spec fn peer_conduits_wf(p: PeerV) -> bool {
    &&& p.rx_reliable.wf()
    &&& p.rx_reliable.reliability == Reliability::Reliable
    &&& p.rx_best_effort.wf()
    &&& p.rx_best_effort.reliability == Reliability::BestEffort
}

/// What a join announces of its sender's sequence numbers.
#[derive(Clone, Copy, Debug, PartialEq, Eq, Structural)]
pub struct JoinSn {
    pub sn_resolution: u64,
    pub next_sn_reliable: u64,
    pub next_sn_best_effort: u64,
}

pub open spec fn join_sn_valid(j: JoinSn) -> bool {
    0 < j.sn_resolution && j.next_sn_reliable < j.sn_resolution && j.next_sn_best_effort < j.sn_resolution
}

/// The conduits of a peer that joined with `j`.
pub open spec fn joined_peer(pid: Seq<u8>, whatami: WhatAmI, lease: u64, j: JoinSn, now: u64) -> PeerV {
    PeerV {
        pid,
        whatami,
        lease,
        last_seen: now,
        rx_reliable: RxConduit {
            reliability: Reliability::Reliable,
            expected: j.next_sn_reliable,
            resolution: j.sn_resolution,
        },
        rx_best_effort: RxConduit {
            reliability: Reliability::BestEffort,
            expected: j.next_sn_best_effort,
            resolution: j.sn_resolution,
        },
    }
}

/// What a join did to the table.
#[derive(Clone, Copy, Debug, PartialEq, Eq, Structural)]
pub enum JoinOutcome {
    NewPeer,
    Refreshed,
    Ignored,
}

/// The peers of a multicast transport, each once, at most `max_sessions` of them.
#[derive(Debug)]
pub struct PeerTable {
    pub peers: Vec<PeerEntry>,
    pub max_sessions: usize,
}

impl PeerTable {
    pub open spec fn wf(&self) -> bool {
        &&& pids_distinct(peers_view(self.peers@))
        &&& self.peers@.len() <= self.max_sessions
        &&& forall|i: int| 0 <= i < self.peers@.len() ==> peer_conduits_wf(#[trigger] peers_view(self.peers@)[i])
    }

    pub open spec fn view_peers(&self) -> Seq<PeerV> {
        peers_view(self.peers@)
    }

    pub fn new(max_sessions: usize) -> (r: PeerTable)
        ensures
            r.wf(),
            r.view_peers() == Seq::<PeerV>::empty(),
            r.max_sessions == max_sessions,
    {
        let r = PeerTable { peers: Vec::new(), max_sessions };
        assert(r.view_peers() =~= Seq::<PeerV>::empty());
        r
    }

    pub fn len(&self) -> (r: usize)
        ensures
            r == self.view_peers().len(),
    {
        self.peers.len()
    }

    /// Where the peer `pid` stands in the table.
    pub fn find(&self, pid: &PeerId) -> (r: Option<usize>)
        ensures
            match r {
                Some(i) => i < self.view_peers().len() && self.view_peers()[i as int].pid == pid@,
                None => forall|i: int| 0 <= i < self.view_peers().len() ==> #[trigger] self.view_peers()[i].pid != pid@,
            },
    {
        let mut i: usize = 0;
        while i < self.peers.len()
            invariant
                i <= self.peers@.len(),
                forall|k: int| 0 <= k < i ==> #[trigger] self.view_peers()[k].pid != pid@,
            decreases self.peers@.len() - i,
        {
            if self.peers[i].pid.same(pid) {
                return Some(i);
            }
            i = i + 1;
        }
        None
    }

    /// Takes in a join from `pid` at `now`: a known peer is refreshed and
    /// keeps its conduits; an unknown one is added, with conduits that expect
    /// what the join announces, while there is room and the announcement is
    /// valid, and is ignored otherwise.
    pub fn handle_join(&mut self, pid: PeerId, whatami: WhatAmI, lease: u64, sn: JoinSn, now: u64) -> (r: JoinOutcome)
        requires
            old(self).wf(),
        ensures
            final(self).wf(),
            final(self).max_sessions == old(self).max_sessions,
            ({
                let s = old(self).view_peers();
                if exists|i: int| 0 <= i < s.len() && #[trigger] s[i].pid == pid@ {
                    r == JoinOutcome::Refreshed && exists|i: int|
                        0 <= i < s.len() && #[trigger] s[i].pid == pid@ && final(self).view_peers() == s.update(
                            i,
                            PeerV { whatami, lease, last_seen: now, ..s[i] },
                        )
                } else if s.len() < old(self).max_sessions && join_sn_valid(sn) {
                    r == JoinOutcome::NewPeer && final(self).view_peers() == s.push(
                        joined_peer(pid@, whatami, lease, sn, now),
                    )
                } else {
                    r == JoinOutcome::Ignored && final(self).view_peers() == s
                }
            }),
    {
        let ghost s = self.view_peers();
        match self.find(&pid) {
            Some(i) => {
                let e = PeerEntry {
                    pid,
                    whatami,
                    lease,
                    last_seen: now,
                    rx_reliable: self.peers[i].rx_reliable,
                    rx_best_effort: self.peers[i].rx_best_effort,
                };
                self.peers.set(i, e);
                assert(self.view_peers() =~= s.update(i as int, PeerV { whatami, lease, last_seen: now, ..s[i as int] }));
                assert(s[i as int].pid == pid@);
                JoinOutcome::Refreshed
            },
            None => {
                let valid = 0 < sn.sn_resolution && sn.next_sn_reliable < sn.sn_resolution
                    && sn.next_sn_best_effort < sn.sn_resolution;
                if self.peers.len() < self.max_sessions && valid {
                    let ghost p = joined_peer(pid@, whatami, lease, sn, now);
                    self.peers.push(PeerEntry {
                        pid,
                        whatami,
                        lease,
                        last_seen: now,
                        rx_reliable: RxConduit {
                            reliability: Reliability::Reliable,
                            expected: sn.next_sn_reliable,
                            resolution: sn.sn_resolution,
                        },
                        rx_best_effort: RxConduit {
                            reliability: Reliability::BestEffort,
                            expected: sn.next_sn_best_effort,
                            resolution: sn.sn_resolution,
                        },
                    });
                    assert(self.view_peers() =~= s.push(p));
                    JoinOutcome::NewPeer
                } else {
                    JoinOutcome::Ignored
                }
            },
        }
    }

    /// Records that `pid` was heard from at `now`; says whether it is known.
    pub fn touch(&mut self, pid: &PeerId, now: u64) -> (r: bool)
        requires
            old(self).wf(),
        ensures
            final(self).wf(),
            final(self).max_sessions == old(self).max_sessions,
            ({
                let s = old(self).view_peers();
                if exists|i: int| 0 <= i < s.len() && #[trigger] s[i].pid == pid@ {
                    r && exists|i: int|
                        0 <= i < s.len() && #[trigger] s[i].pid == pid@ && final(self).view_peers()
                            == s.update(i, PeerV { last_seen: now, ..s[i] })
                } else {
                    !r && final(self).view_peers() == s
                }
            }),
    {
        let ghost s = self.view_peers();
        match self.find(pid) {
            Some(i) => {
                let e = PeerEntry {
                    pid: self.peers[i].pid.duplicate(),
                    whatami: self.peers[i].whatami,
                    lease: self.peers[i].lease,
                    last_seen: now,
                    rx_reliable: self.peers[i].rx_reliable,
                    rx_best_effort: self.peers[i].rx_best_effort,
                };
                self.peers.set(i, e);
                assert(self.view_peers() =~= s.update(i as int, PeerV { last_seen: now, ..s[i as int] }));
                true
            },
            None => false,
        }
    }

    /// Removes the peers that have expired at `now` and hands them back, in order.
    pub fn evict_expired(&mut self, now: u64) -> (r: Vec<PeerEntry>)
        requires
            old(self).wf(),
        ensures
            final(self).wf(),
            final(self).max_sessions == old(self).max_sessions,
            final(self).view_peers() == live_peers(old(self).view_peers(), now),
            peers_view(r@) == expired_peers(old(self).view_peers(), now),
    {
        let ghost s = self.view_peers();
        let mut kept: Vec<PeerEntry> = Vec::new();
        let mut gone: Vec<PeerEntry> = Vec::new();
        let n = self.peers.len();
        let mut i: usize = 0;
        assert(s.take(0) =~= Seq::<PeerV>::empty());
        assert(peers_view(kept@) =~= Seq::<PeerV>::empty());
        assert(peers_view(gone@) =~= Seq::<PeerV>::empty());
        while i < n
            invariant
                i <= n,
                n == s.len(),
                *self == *old(self),
                peers_view(kept@) == live_peers(s.take(i as int), now),
                peers_view(gone@) == expired_peers(s.take(i as int), now),
                old(self).wf(),
                s == old(self).view_peers(),
                forall|k: int| 0 <= k < kept@.len() ==> exists|j: int| 0 <= j < i && #[trigger] peers_view(kept@)[k] == s[j],
                pids_distinct(peers_view(kept@)),
                forall|k: int| 0 <= k < kept@.len() ==> peer_conduits_wf(#[trigger] peers_view(kept@)[k]),
                kept@.len() <= i,
            decreases n - i,
        {
            let e = PeerEntry {
                pid: self.peers[i].pid.duplicate(),
                whatami: self.peers[i].whatami,
                lease: self.peers[i].lease,
                last_seen: self.peers[i].last_seen,
                rx_reliable: self.peers[i].rx_reliable,
                rx_best_effort: self.peers[i].rx_best_effort,
            };
            assert(e@ == s[i as int]);
            let ghost t = s.take(i + 1);
            assert(t.drop_last() =~= s.take(i as int));
            assert(t.last() == s[i as int]);
            if now > e.last_seen && now - e.last_seen > e.lease {
                let ghost pre = peers_view(gone@);
                gone.push(e);
                assert(peers_view(gone@) =~= pre.push(s[i as int]));
            } else {
                let ghost pre = peers_view(kept@);
                proof {
                    assert forall|k: int| 0 <= k < pre.len() implies #[trigger] pre[k].pid != s[i as int].pid by {
                        let j = choose|j: int| 0 <= j < i && #[trigger] peers_view(kept@)[k] == s[j];
                        assert(s[j].pid != s[i as int].pid);
                    }
                }
                kept.push(e);
                assert(peers_view(kept@) =~= pre.push(s[i as int]));
                assert forall|k: int| 0 <= k < kept@.len() implies exists|j: int| 0 <= j < i + 1 && #[trigger] peers_view(kept@)[k] == s[j] by {
                    if k < pre.len() {
                        let j = choose|j: int| 0 <= j < i && #[trigger] pre[k] == s[j];
                        assert(peers_view(kept@)[k] == s[j]);
                    } else {
                        assert(peers_view(kept@)[k] == s[i as int]);
                    }
                }
            }
            i = i + 1;
        }
        assert(s.take(n as int) =~= s);
        self.peers = kept;
        gone
    }
}

/// Between two checks `tick` apart, a silent peer is evicted at the first
/// check past its lease: never before the lease has run out, and no later
/// than one tick after it.
pub proof fn lemma_lease_window(p: PeerV, t: u64, tick: u64)
    requires
        t <= p.last_seen + p.lease < t + tick,
        t + tick <= u64::MAX,
    ensures
        !expired(p, t),
        expired(p, (t + tick) as u64),
        (t + tick) - (p.last_seen + p.lease) <= tick,
{
}

/// A multicast transport: its locator, its configuration and its peers.
#[derive(Debug)]
pub struct TransportMulticast {
    pub locator: Locator,
    pub config: TransportManagerConfigMulticast,
    pub peers: PeerTable,
}

/// What the manager records of multicast: the protocols it has link
/// managers for, and the open transports, one per locator.
#[derive(Debug)]
pub struct TransportManagerStateMulticast {
    pub protocols: Vec<LocatorProtocol>,
    pub transports: Vec<TransportMulticast>,
}

pub open spec fn transport_locators(s: Seq<TransportMulticast>) -> Seq<LocatorAddressV> {
    s.map_values(|t: TransportMulticast| t.locator@)
}

impl Default for TransportManagerStateMulticast {
    fn default() -> (r: TransportManagerStateMulticast)
        ensures
            r.protocols@ == Seq::<LocatorProtocol>::empty(),
            r.transports@ == Seq::<TransportMulticast>::empty(),
    {
        TransportManagerStateMulticast { protocols: Vec::new(), transports: Vec::new() }
    }
}

} // verus!

verus! {

/// What a message from the group did to a multicast transport's peers.
#[derive(Clone, Copy, Debug, PartialEq, Eq, Structural)]
pub enum MulticastEvent {
    /// A join from an unknown peer added it.
    NewPeer,
    /// A join from a known peer refreshed it.
    Refreshed,
    /// A join from an unknown peer came while the table was full.
    Ignored,
    /// Another message from a known peer: it was heard from.
    Heard,
    /// Another message from a peer that has not joined.
    Unknown,
}

/// The conduit of peer `p` that frames of `rel` go through.
pub open spec fn peer_conduit(p: PeerV, rel: Reliability) -> RxConduit {
    if rel == Reliability::Reliable {
        p.rx_reliable
    } else {
        p.rx_best_effort
    }
}

impl PeerTable {
    /// Takes in a frame with `sn` on `rel` from the peer at `i`, heard at
    /// `now`: its conduit decides whether the frame is delivered.
    pub fn receive_frame(&mut self, i: usize, rel: Reliability, sn: u64, now: u64) -> (r: RxOutcome)
        requires
            old(self).wf(),
            i < old(self).view_peers().len(),
        ensures
            final(self).wf(),
            final(self).max_sessions == old(self).max_sessions,
            ({
                let s = old(self).view_peers();
                let c = peer_conduit(s[i as int], rel);
                if sn < c.resolution {
                    let c2 = RxConduit {
                        expected: crate::conduit::rx_expected_after(c.reliability, c.expected, sn, c.resolution),
                        ..c
                    };
                    &&& r == crate::conduit::rx_outcome(c.reliability, c.expected, sn, c.resolution)
                    &&& final(self).view_peers() == s.update(
                        i as int,
                        if rel == Reliability::Reliable {
                            PeerV { last_seen: now, rx_reliable: c2, ..s[i as int] }
                        } else {
                            PeerV { last_seen: now, rx_best_effort: c2, ..s[i as int] }
                        },
                    )
                } else {
                    r == RxOutcome::Duplicate && final(self).view_peers() == s.update(
                        i as int,
                        PeerV { last_seen: now, ..s[i as int] },
                    )
                }
            }),
    {
        let ghost s = self.view_peers();
        let mut rel_c = self.peers[i].rx_reliable;
        let mut be_c = self.peers[i].rx_best_effort;
        assert(peer_conduits_wf(s[i as int]));
        let r = match rel {
            Reliability::Reliable => if sn < rel_c.resolution {
                rel_c.receive(sn)
            } else {
                RxOutcome::Duplicate
            },
            Reliability::BestEffort => if sn < be_c.resolution {
                be_c.receive(sn)
            } else {
                RxOutcome::Duplicate
            },
        };
        let e = PeerEntry {
            pid: self.peers[i].pid.duplicate(),
            whatami: self.peers[i].whatami,
            lease: self.peers[i].lease,
            last_seen: now,
            rx_reliable: rel_c,
            rx_best_effort: be_c,
        };
        self.peers.set(i, e);
        proof {
            let c = peer_conduit(s[i as int], rel);
            if sn < c.resolution {
                let c2 = RxConduit {
                    expected: crate::conduit::rx_expected_after(c.reliability, c.expected, sn, c.resolution),
                    ..c
                };
                let p2 = if rel == Reliability::Reliable {
                    PeerV { last_seen: now, rx_reliable: c2, ..s[i as int] }
                } else {
                    PeerV { last_seen: now, rx_best_effort: c2, ..s[i as int] }
                };
                assert(self.view_peers() =~= s.update(i as int, p2));
            } else {
                assert(self.view_peers() =~= s.update(i as int, PeerV { last_seen: now, ..s[i as int] }));
            }
            assert forall|a: int, b: int| 0 <= a < b < self.view_peers().len() implies
                #[trigger] self.view_peers()[a].pid != #[trigger] self.view_peers()[b].pid by {
                assert(s[a].pid != s[b].pid);
            }
        }
        r
    }
}

impl TransportMulticast {
    /// Takes in `msg`, sent by `from`, at `now`: a join adds or refreshes its
    /// peer; a frame from a known peer goes through that peer's conduit and
    /// its messages are handed back where the conduit delivers it; any other
    /// message records that its sender was heard from. Fragments are not
    /// reassembled on a group: they deliver nothing.
    pub fn handle(&mut self, from: &PeerId, msg: crate::codec::TransportMessage, now: u64) -> (r: (
        MulticastEvent,
        Vec<crate::message::JanuMessage>,
    ))
        requires
            old(self).peers.wf(),
        ensures
            final(self).peers.wf(),
            final(self).locator == old(self).locator,
            final(self).config == old(self).config,
            ({
                let s = old(self).peers.view_peers();
                match msg {
                    crate::codec::TransportMessage::Join {
                        pid,
                        sn_resolution,
                        next_sn_reliable,
                        next_sn_best_effort,
                        ..
                    } => r.1@.len() == 0 && if exists|i: int| 0 <= i < s.len() && #[trigger] s[i].pid == pid@ {
                        r.0 == MulticastEvent::Refreshed
                    } else if s.len() < old(self).peers.max_sessions && join_sn_valid(
                        JoinSn { sn_resolution, next_sn_reliable, next_sn_best_effort },
                    ) {
                        r.0 == MulticastEvent::NewPeer
                    } else {
                        r.0 == MulticastEvent::Ignored && final(self).peers.view_peers() == s
                    },
                    crate::codec::TransportMessage::Frame { channel, sn, payload } => if exists|i: int|
                        0 <= i < s.len() && #[trigger] s[i].pid == from@ {
                        r.0 == MulticastEvent::Heard && exists|i: int|
                            0 <= i < s.len() && #[trigger] s[i].pid == from@ && ({
                                let c = peer_conduit(s[i], channel.reliability);
                                let delivers = sn < c.resolution && crate::conduit::rx_outcome(
                                    c.reliability,
                                    c.expected,
                                    sn,
                                    c.resolution,
                                ) == RxOutcome::Deliver;
                                if delivers && payload is Messages {
                                    crate::message::janu_msgs_view(r.1@) == crate::message::janu_msgs_view(
                                        payload->Messages_messages@,
                                    )
                                } else {
                                    r.1@.len() == 0
                                }
                            })
                    } else {
                        r.0 == MulticastEvent::Unknown && r.1@.len() == 0 && final(self).peers.view_peers() == s
                    },
                    _ => r.1@.len() == 0 && if exists|i: int| 0 <= i < s.len() && #[trigger] s[i].pid == from@ {
                        r.0 == MulticastEvent::Heard
                    } else {
                        r.0 == MulticastEvent::Unknown && final(self).peers.view_peers() == s
                    },
                }
            }),
    {
        let empty: Vec<crate::message::JanuMessage> = Vec::new();
        match msg {
            crate::codec::TransportMessage::Join {
                pid,
                whatami,
                lease,
                sn_resolution,
                next_sn_reliable,
                next_sn_best_effort,
                ..
            } => {
                let sn = JoinSn { sn_resolution, next_sn_reliable, next_sn_best_effort };
                let e = match self.peers.handle_join(pid, whatami, lease, sn, now) {
                    JoinOutcome::NewPeer => MulticastEvent::NewPeer,
                    JoinOutcome::Refreshed => MulticastEvent::Refreshed,
                    JoinOutcome::Ignored => MulticastEvent::Ignored,
                };
                (e, empty)
            },
            crate::codec::TransportMessage::Frame { channel, sn, payload } => {
                match self.peers.find(from) {
                    None => (MulticastEvent::Unknown, empty),
                    Some(i) => {
                        let o = self.peers.receive_frame(i, channel.reliability, sn, now);
                        match (o, payload) {
                            (RxOutcome::Deliver, crate::codec::FramePayload::Messages { messages }) => (
                                MulticastEvent::Heard,
                                messages,
                            ),
                            _ => (MulticastEvent::Heard, empty),
                        }
                    },
                }
            },
            _ => {
                if self.peers.touch(from, now) {
                    (MulticastEvent::Heard, empty)
                } else {
                    (MulticastEvent::Unknown, empty)
                }
            },
        }
    }
}

} // verus!
