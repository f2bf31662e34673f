//! The transport manager: the table of unicast sessions, one per peer, the
//! negotiation that opens them, and the registry of multicast transports.
use vstd::prelude::*;
use crate::codec::TransportMessage;
use crate::link::{address_proto, EndPoint, Link, Locator, LocatorAddressV, LocatorProtocol};
use crate::multicast::{
    transport_locators, PeerTable, TransportManagerConfigMulticast, TransportManagerStateMulticast,
    TransportMulticast,
};
use crate::properties::Properties;
use crate::protocol::{zerr, PeerId, WhatAmI, ZError, ZErrorKind, ZResult};
use crate::unicast::{links_view, TransportConfigUnicast, TransportUnicast, TransportUnicastInner};

verus! {

/// The version of the protocol that this library speaks.
pub const VERSION: u8 = 0;

/// Why a link or a session is closed, as a Close message says.
pub const CLOSE_GENERIC: u8 = 0x00;
pub const CLOSE_UNSUPPORTED: u8 = 0x01;
pub const CLOSE_INVALID: u8 = 0x02;
pub const CLOSE_MAX_SESSIONS: u8 = 0x03;
pub const CLOSE_MAX_LINKS: u8 = 0x04;

/// The reason that a Close sent on a failed establishment gives for `kind`.
pub open spec fn close_reason(kind: ZErrorKind) -> u8 {
    match kind {
        ZErrorKind::Unsupported => CLOSE_UNSUPPORTED,
        ZErrorKind::InvalidMessage => CLOSE_INVALID,
        ZErrorKind::MaxSessions => CLOSE_MAX_SESSIONS,
        ZErrorKind::MaxLinks => CLOSE_MAX_LINKS,
        _ => CLOSE_GENERIC,
    }
}

/// The Close that a failed establishment sends: on the link only, from `pid`,
/// with the reason that the error gives.
pub fn close_for(pid: &PeerId, kind: ZErrorKind) -> (r: TransportMessage)
    ensures
        r@ == (crate::codec::TransportMessageV::Close {
            pid: Some(pid@),
            reason: close_reason(kind),
            link_only: true,
        }),
{
    let reason = match kind {
        ZErrorKind::Unsupported => CLOSE_UNSUPPORTED,
        ZErrorKind::InvalidMessage => CLOSE_INVALID,
        ZErrorKind::MaxSessions => CLOSE_MAX_SESSIONS,
        ZErrorKind::MaxLinks => CLOSE_MAX_LINKS,
        _ => CLOSE_GENERIC,
    };
    TransportMessage::Close { pid: Some(pid.duplicate()), reason, link_only: true }
}

/// The configuration of a transport manager.
#[derive(Debug)]
pub struct TransportManagerConfig {
    pub pid: PeerId,
    pub whatami: WhatAmI,
    pub sn_resolution: u64,
    pub batch_size: usize,
    pub queue_capacity: usize,
    pub max_sessions: usize,
    pub max_links: usize,
    pub is_qos: bool,
    pub multicast: TransportManagerConfigMulticast,
    /// Per-protocol defaults for endpoint configuration.
    pub endpoint: Vec<(LocatorProtocol, Properties)>,
}

/// The manager of all transports of a process.
#[derive(Debug)]
pub struct TransportManager {
    pub config: TransportManagerConfig,
    pub sessions: Vec<TransportUnicast>,
    pub multicast: TransportManagerStateMulticast,
}

/// The peer of each session.
pub open spec fn session_pids(s: Seq<TransportUnicast>) -> Seq<Seq<u8>> {
    s.map_values(|t: TransportUnicast| t.inner->Some_0.config.peer@)
}

pub open spec fn distinct_pids(s: Seq<Seq<u8>>) -> bool {
    forall|i: int, j: int| 0 <= i < j < s.len() ==> #[trigger] s[i] != #[trigger] s[j]
}

/// The sessions that opening a session with `pid` leaves, and where the
/// session with `pid` then stands; `None` where there is no room for it.
pub open spec fn open_effect(pids: Seq<Seq<u8>>, max: nat, pid: Seq<u8>) -> (Seq<Seq<u8>>, Option<int>) {
    if exists|i: int| 0 <= i < pids.len() && #[trigger] pids[i] == pid {
        (pids, Some(choose|i: int| 0 <= i < pids.len() && #[trigger] pids[i] == pid))
    } else if pids.len() < max {
        (pids.push(pid), Some(pids.len() as int))
    } else {
        (pids, None)
    }
}

/// Opening a session with a peer twice gives the same session, and the
/// second opening changes nothing.
pub proof fn lemma_open_idempotent(pids: Seq<Seq<u8>>, max: nat, pid: Seq<u8>)
    requires
        open_effect(pids, max, pid).1 is Some,
    ensures
        open_effect(open_effect(pids, max, pid).0, max, pid) == open_effect(pids, max, pid),
        ({
            let p = open_effect(pids, max, pid).0;
            let i = open_effect(pids, max, pid).1->Some_0;
            0 <= i < p.len() && p[i] == pid
        }),
{
    let (p, o) = open_effect(pids, max, pid);
    if !(exists|i: int| 0 <= i < pids.len() && #[trigger] pids[i] == pid) {
        assert(p[pids.len() as int] == pid);
    }
}

/// The sequence number resolution both sides agree on: the smaller one.
pub open spec fn negotiated_resolution(local: u64, remote: u64) -> u64 {
    if local <= remote {
        local
    } else {
        remote
    }
}

impl TransportManager {
    pub open spec fn wf(&self) -> bool {
        &&& forall|i: int| 0 <= i < self.sessions@.len() ==> (#[trigger] self.sessions@[i]).inner is Some
            && self.sessions@[i].wf()
        &&& distinct_pids(session_pids(self.sessions@))
        &&& self.sessions@.len() <= self.config.max_sessions
        &&& forall|i: int| 0 <= i < self.sessions@.len() ==> (#[trigger] self.sessions@[i]).inner->Some_0.links@.len()
            <= self.config.max_links
        &&& self.multicast_wf()
    }

    /// The multicast records: link managers only for UDP, each once; one
    /// transport per locator.
    pub open spec fn multicast_wf(&self) -> bool {
        &&& self.multicast.protocols@.len() <= 1
        &&& forall|i: int| 0 <= i < self.multicast.protocols@.len() ==> #[trigger] self.multicast.protocols@[i]
            == LocatorProtocol::Udp
        &&& forall|i: int, j: int| 0 <= i < j < self.multicast.transports@.len() ==> #[trigger] transport_locators(
            self.multicast.transports@,
        )[i] != #[trigger] transport_locators(self.multicast.transports@)[j]
    }

    pub fn new(config: TransportManagerConfig) -> (r: TransportManager)
        ensures
            r.wf(),
            r.sessions@.len() == 0,
            r.multicast.protocols@.len() == 0,
            r.multicast.transports@.len() == 0,
    {
        TransportManager {
            config,
            sessions: Vec::new(),
            multicast: TransportManagerStateMulticast::default(),
        }
    }

    /// Where the session with `pid` stands.
    pub fn find_session(&self, pid: &PeerId) -> (r: Option<usize>)
        requires
            self.wf(),
        ensures
            match r {
                Some(i) => i < self.sessions@.len() && session_pids(self.sessions@)[i as int] == pid@,
                None => forall|i: int| 0 <= i < self.sessions@.len() ==> #[trigger] session_pids(self.sessions@)[i] != pid@,
            },
    {
        let ghost ps = session_pids(self.sessions@);
        let mut i: usize = 0;
        while i < self.sessions.len()
            invariant
                i <= self.sessions@.len(),
                self.wf(),
                ps == session_pids(self.sessions@),
                forall|k: int| 0 <= k < i ==> #[trigger] ps[k] != pid@,
            decreases self.sessions@.len() - i,
        {
            match &self.sessions[i].inner {
                Some(t) => {
                    if t.config.peer.same(pid) {
                        return Some(i);
                    }
                },
                None => {},
            }
            i = i + 1;
        }
        None
    }

    /// The session with `pid`, if there is one.
    pub fn get_transport_unicast(&self, pid: &PeerId) -> (r: Option<&TransportUnicast>)
        requires
            self.wf(),
        ensures
            match r {
                Some(t) => t.inner matches Some(x) && x.config.peer@ == pid@,
                None => !session_pids(self.sessions@).contains(pid@),
            },
    {
        match self.find_session(pid) {
            Some(i) => Some(&self.sessions[i]),
            None => None,
        }
    }

    /// Answers a peer's InitSyn: an InitAck with the smaller resolution and
    /// QoS where both offered it, carrying `cookie`. An error where the
    /// message is no InitSyn or speaks another version.
    pub fn accept_init_syn(&self, syn: &TransportMessage, cookie: Vec<u8>) -> (r: ZResult<TransportMessage>)
        ensures
            match syn {
                TransportMessage::InitSyn { version, sn_resolution, is_qos, .. } => if *version == VERSION {
                    r matches Ok(TransportMessage::InitAck { whatami, pid, sn_resolution: s, is_qos: q, cookie: c })
                        && whatami == self.config.whatami && pid@ == self.config.pid@
                        && s == negotiated_resolution(self.config.sn_resolution, *sn_resolution)
                        && q == (self.config.is_qos && *is_qos) && c@ == cookie@
                } else {
                    r == zerr::<TransportMessage>(ZErrorKind::Unsupported)
                },
                _ => r == zerr::<TransportMessage>(ZErrorKind::InvalidMessage),
            },
    {
        match syn {
            TransportMessage::InitSyn { version, sn_resolution, is_qos, .. } => {
                if *version != VERSION {
                    return Err(ZError { kind: ZErrorKind::Unsupported });
                }
                let s = if self.config.sn_resolution <= *sn_resolution {
                    self.config.sn_resolution
                } else {
                    *sn_resolution
                };
                Ok(TransportMessage::InitAck {
                    whatami: self.config.whatami,
                    pid: self.config.pid.duplicate(),
                    sn_resolution: s,
                    is_qos: self.config.is_qos && *is_qos,
                    cookie,
                })
            },
            _ => Err(ZError { kind: ZErrorKind::InvalidMessage }),
        }
    }

    /// Records the session that establishment opened with `config.peer` over
    /// `link`. A session that exists for that peer gets the link, if it is
    /// new to it and the session has room; otherwise a new session is made
    /// while there is room. Gives where the session stands.
    pub fn open_session(&mut self, config: TransportConfigUnicast, link: Link) -> (r: ZResult<usize>)
        requires
            old(self).wf(),
            0 < config.sn_resolution,
            config.initial_sn_tx < config.sn_resolution,
            config.initial_sn_rx < config.sn_resolution,
        ensures
            final(self).wf(),
            final(self).config == old(self).config,
            ({
                let ps = session_pids(old(self).sessions@);
                let (ps2, o) = open_effect(ps, old(self).config.max_sessions as nat, config.peer@);
                match o {
                    None => r == zerr::<usize>(ZErrorKind::MaxSessions) && final(self).sessions@ == old(self).sessions@,
                    Some(i) => if ps.contains(config.peer@) {
                        let ls = links_view(old(self).sessions@[i].inner->Some_0.links@);
                        let ls2 = links_view(final(self).sessions@[i].inner->Some_0.links@);
                        session_pids(final(self).sessions@) == ps
                        && if exists|k: int| 0 <= k < ls.len() && #[trigger] ls[k].src == link.src@ && ls[k].dst == link.dst@ {
                            r == Ok::<usize, ZError>(i as usize) && final(self).sessions@ == old(self).sessions@
                        } else if ls.len() < old(self).config.max_links {
                            r == Ok::<usize, ZError>(i as usize) && ls2 == ls.push(link@)
                        } else {
                            r == zerr::<usize>(ZErrorKind::MaxLinks) && final(self).sessions@ == old(self).sessions@
                        }
                    } else if old(self).config.max_links == 0 {
                        r == zerr::<usize>(ZErrorKind::MaxLinks) && final(self).sessions@ == old(self).sessions@
                    } else {
                        r == Ok::<usize, ZError>(i as usize) && session_pids(final(self).sessions@) == ps2
                            && links_view(final(self).sessions@[i].inner->Some_0.links@) == seq![link@]
                    },
                }
            }),
    {
        let ghost ps = session_pids(self.sessions@);
        match self.find_session(&config.peer) {
            Some(i) => {
                proof {
                    assert(ps.contains(config.peer@));
                    assert(forall|j: int| 0 <= j < ps.len() && #[trigger] ps[j] == config.peer@ ==> j == i);
                }
                let mut s = self.sessions.remove(i);
                let ghost old_s = self.sessions@;
                let res = match &mut s.inner {
                    Some(t) => {
                        let ghost ls = links_view(t.links@);
                        let mut k: usize = 0;
                        while k < t.links.len() && !t.links[k].same_ends(&link)
                            invariant
                                k <= t.links@.len(),
                                ls == links_view(t.links@),
                                forall|j: int| 0 <= j < k ==> !(#[trigger] ls[j].src == link.src@ && ls[j].dst == link.dst@),
                            decreases t.links@.len() - k,
                        {
                            k = k + 1;
                        }
                        if k < t.links.len() {
                            assert(ls[k as int].src == link.src@ && ls[k as int].dst == link.dst@);
                            Ok(i)
                        } else if t.links.len() < self.config.max_links {
                            t.links.push(link);
                            assert(links_view(t.links@) =~= ls.push(link@));
                            Ok(i)
                        } else {
                            Err(ZError { kind: ZErrorKind::MaxLinks })
                        }
                    },
                    None => Err(ZError { kind: ZErrorKind::InvalidReference }),
                };
                self.sessions.insert(i, s);
                proof {
                    assert(session_pids(self.sessions@) =~= ps);
                    assert forall|j: int| 0 <= j < self.sessions@.len() implies (#[trigger] self.sessions@[j]).inner is Some
                        && self.sessions@[j].wf() by {
                        if j != i {
                            assert(self.sessions@[j] == old(self).sessions@[j]);
                        }
                    }
                }
                if res.is_err() {
                    assert(self.sessions@ =~= old(self).sessions@);
                }
                res
            },
            None => {
                if self.sessions.len() >= self.config.max_sessions {
                    return Err(ZError { kind: ZErrorKind::MaxSessions });
                }
                if self.config.max_links == 0 {
                    return Err(ZError { kind: ZErrorKind::MaxLinks });
                }
                let n = self.sessions.len();
                let ghost lv = link@;
                let ghost pid = config.peer@;
                match TransportUnicastInner::new(config, link, self.config.queue_capacity) {
                    Ok(t) => {
                        self.sessions.push(TransportUnicast { inner: Some(t) });
                        proof {
                            assert(session_pids(self.sessions@) =~= ps.push(pid));
                            assert(links_view(self.sessions@[n as int].inner->Some_0.links@) =~= seq![lv]);
                            assert(!ps.contains(pid));
                        }
                        Ok(n)
                    },
                    Err(e) => Err(e),
                }
            },
        }
    }

    /// Closes and forgets the session with `pid`; an error where there is none.
    pub fn close_session(&mut self, pid: &PeerId) -> (r: ZResult<()>)
        requires
            old(self).wf(),
        ensures
            final(self).wf(),
            final(self).config == old(self).config,
            ({
                let ps = session_pids(old(self).sessions@);
                if exists|i: int| 0 <= i < ps.len() && #[trigger] ps[i] == pid@ {
                    r is Ok && exists|i: int| 0 <= i < ps.len() && #[trigger] ps[i] == pid@
                        && final(self).sessions@ == old(self).sessions@.remove(i)
                } else {
                    r == zerr::<()>(ZErrorKind::InvalidReference) && final(self).sessions@ == old(self).sessions@
                }
            }),
    {
        let ghost ps = session_pids(self.sessions@);
        match self.find_session(pid) {
            Some(i) => {
                let ghost before = self.sessions@;
                let mut s = self.sessions.remove(i);
                let _ = s.close();
                proof {
                    assert(session_pids(self.sessions@) =~= ps.remove(i as int));
                    assert forall|a: int, b: int| 0 <= a < b < ps.remove(i as int).len() implies
                        #[trigger] ps.remove(i as int)[a] != #[trigger] ps.remove(i as int)[b] by {
                        let a2 = if a < i { a } else { a + 1 };
                        let b2 = if b < i { b } else { b + 1 };
                        assert(ps.remove(i as int)[a] == ps[a2]);
                        assert(ps.remove(i as int)[b] == ps[b2]);
                    }
                    assert forall|j: int| 0 <= j < self.sessions@.len() implies (#[trigger] self.sessions@[j]).inner is Some
                        && self.sessions@[j].wf() by {
                        if j < i {
                            assert(self.sessions@[j] == before[j]);
                        } else {
                            assert(self.sessions@[j] == before[j + 1]);
                        }
                    }
                }
                Ok(())
            },
            None => Err(ZError { kind: ZErrorKind::InvalidReference }),
        }
    }
}

} // verus!

verus! {

/// Whether some transport of `s` has a locator of protocol `p`.
pub open spec fn uses_proto(s: Seq<LocatorAddressV>, p: LocatorProtocol) -> bool {
    exists|i: int| 0 <= i < s.len() && address_proto(#[trigger] s[i]) == p
}

impl TransportManager {
    /// The link manager for multicast over `protocol`, made where there is
    /// none yet. Only UDP carries multicast; another protocol is an error.
    pub fn new_link_manager_multicast(&mut self, protocol: LocatorProtocol) -> (r: ZResult<LocatorProtocol>)
        requires
            old(self).wf(),
        ensures
            final(self).wf(),
            protocol == LocatorProtocol::Udp ==> final(self).multicast.protocols@ == seq![LocatorProtocol::Udp],
            final(self).config == old(self).config,
            final(self).sessions == old(self).sessions,
            final(self).multicast.transports == old(self).multicast.transports,
            protocol != LocatorProtocol::Udp ==> r == zerr::<LocatorProtocol>(ZErrorKind::InvalidLocator)
                && final(self).multicast.protocols == old(self).multicast.protocols,
            protocol == LocatorProtocol::Udp ==> r == Ok::<LocatorProtocol, ZError>(protocol)
                && final(self).multicast.protocols@.contains(protocol)
                && (old(self).multicast.protocols@.contains(protocol) ==> final(self).multicast.protocols
                    == old(self).multicast.protocols)
                && (!old(self).multicast.protocols@.contains(protocol) ==> final(self).multicast.protocols@
                    == old(self).multicast.protocols@.push(protocol)),
    {
        match protocol {
            LocatorProtocol::Udp => {},
            _ => {
                return Err(ZError { kind: ZErrorKind::InvalidLocator });
            },
        }
        let mut i: usize = 0;
        while i < self.multicast.protocols.len()
            invariant
                i <= self.multicast.protocols@.len(),
                *self == *old(self),
                old(self).wf(),
                protocol == LocatorProtocol::Udp,
                forall|k: int| 0 <= k < i ==> self.multicast.protocols@[k] != protocol,
            decreases self.multicast.protocols@.len() - i,
        {
            if self.multicast.protocols[i] == protocol {
                assert(self.multicast.protocols@[i as int] == protocol);
                assert(self.multicast.protocols@ =~= seq![LocatorProtocol::Udp]);
                return Ok(protocol);
            }
            i = i + 1;
        }
        assert(self.multicast.protocols@.len() == 0) by {
            if self.multicast.protocols@.len() > 0 {
                assert(self.multicast.protocols@[0] == LocatorProtocol::Udp);
            }
        }
        self.multicast.protocols.push(protocol);
        assert(self.multicast.protocols@.last() == protocol);
        assert(self.multicast.protocols@ =~= seq![LocatorProtocol::Udp]);
        Ok(protocol)
    }

    /// Forgets the link manager for multicast over `protocol`; an error where there is none.
    pub fn del_link_manager_multicast(&mut self, protocol: LocatorProtocol) -> (r: ZResult<()>)
        requires
            old(self).wf(),
        ensures
            final(self).wf(),
            !final(self).multicast.protocols@.contains(protocol),
            final(self).config == old(self).config,
            final(self).sessions == old(self).sessions,
            final(self).multicast.transports == old(self).multicast.transports,
            old(self).multicast.protocols@.contains(protocol) ==> r is Ok && exists|i: int|
                0 <= i < old(self).multicast.protocols@.len() && old(self).multicast.protocols@[i] == protocol
                    && final(self).multicast.protocols@ == old(self).multicast.protocols@.remove(i),
            !old(self).multicast.protocols@.contains(protocol) ==> r == zerr::<()>(ZErrorKind::Other)
                && final(self).multicast.protocols == old(self).multicast.protocols,
    {
        let mut i: usize = 0;
        while i < self.multicast.protocols.len()
            invariant
                i <= self.multicast.protocols@.len(),
                *self == *old(self),
                old(self).wf(),
                forall|k: int| 0 <= k < i ==> self.multicast.protocols@[k] != protocol,
            decreases self.multicast.protocols@.len() - i,
        {
            if self.multicast.protocols[i] == protocol {
                let ghost ps = self.multicast.protocols@;
                self.multicast.protocols.remove(i);
                assert(self.multicast.protocols@ =~= ps.remove(i as int));
                assert(self.multicast.protocols@.len() == 0);
                return Ok(());
            }
            i = i + 1;
        }
        Err(ZError { kind: ZErrorKind::Other })
    }

    /// Where the multicast transport on `locator` stands.
    pub fn find_transport_multicast(&self, locator: &Locator) -> (r: Option<usize>)
        ensures
            match r {
                Some(i) => i < self.multicast.transports@.len()
                    && transport_locators(self.multicast.transports@)[i as int] == locator@,
                None => !transport_locators(self.multicast.transports@).contains(locator@),
            },
    {
        let ghost ls = transport_locators(self.multicast.transports@);
        let mut i: usize = 0;
        while i < self.multicast.transports.len()
            invariant
                i <= self.multicast.transports@.len(),
                ls == transport_locators(self.multicast.transports@),
                forall|k: int| 0 <= k < i ==> #[trigger] ls[k] != locator@,
            decreases self.multicast.transports@.len() - i,
        {
            if self.multicast.transports[i].locator.same(locator) {
                return Some(i);
            }
            i = i + 1;
        }
        None
    }

    /// The multicast transport on `locator`, if one is open.
    pub fn get_transport_multicast(&self, locator: &Locator) -> (r: Option<&TransportMulticast>)
        ensures
            match r {
                Some(t) => t.locator@ == locator@,
                None => !transport_locators(self.multicast.transports@).contains(locator@),
            },
    {
        match self.find_transport_multicast(locator) {
            Some(i) => Some(&self.multicast.transports[i]),
            None => None,
        }
    }

    /// The locators of the open multicast transports.
    pub fn get_transports_multicast(&self) -> (r: Vec<Locator>)
        ensures
            r@.map_values(|l: Locator| l@) == transport_locators(self.multicast.transports@),
    {
        let ghost ls = transport_locators(self.multicast.transports@);
        let mut out: Vec<Locator> = Vec::new();
        let mut i: usize = 0;
        while i < self.multicast.transports.len()
            invariant
                i <= self.multicast.transports@.len(),
                ls == transport_locators(self.multicast.transports@),
                out@.map_values(|l: Locator| l@) == ls.take(i as int),
            decreases self.multicast.transports@.len() - i,
        {
            let l = Locator { address: self.multicast.transports[i].locator.address.duplicate() };
            let ghost pre = out@.map_values(|l: Locator| l@);
            let ghost lv = l@;
            out.push(l);
            assert(out@.map_values(|l: Locator| l@) =~= pre.push(lv));
            assert(ls.take(i + 1) =~= ls.take(i as int).push(ls[i as int]));
            i = i + 1;
        }
        assert(ls.take(i as int) =~= ls);
        out
    }

    /// Records a multicast transport opened on `locator`; an error where one is already open there.
    pub fn add_transport_multicast(&mut self, locator: Locator) -> (r: ZResult<()>)
        requires
            old(self).wf(),
        ensures
            final(self).wf(),
            final(self).config == old(self).config,
            final(self).sessions == old(self).sessions,
            final(self).multicast.protocols == old(self).multicast.protocols,
            transport_locators(old(self).multicast.transports@).contains(locator@) ==> r == zerr::<()>(ZErrorKind::Other)
                && final(self).multicast.transports == old(self).multicast.transports,
            !transport_locators(old(self).multicast.transports@).contains(locator@) ==> r is Ok
                && transport_locators(final(self).multicast.transports@) == transport_locators(
                old(self).multicast.transports@,
            ).push(locator@),
    {
        if self.find_transport_multicast(&locator).is_some() {
            return Err(ZError { kind: ZErrorKind::Other });
        }
        let ghost ls = transport_locators(self.multicast.transports@);
        let ghost lv = locator@;
        let t = TransportMulticast {
            locator,
            config: self.config.multicast,
            peers: PeerTable::new(self.config.multicast.max_sessions),
        };
        self.multicast.transports.push(t);
        assert(transport_locators(self.multicast.transports@) =~= ls.push(lv));
        Ok(())
    }

    /// Forgets the multicast transport on `locator`, and the link manager of
    /// its protocol where no other transport uses it. An error where no
    /// transport is open there.
    pub fn del_transport_multicast(&mut self, locator: &Locator) -> (r: ZResult<()>)
        requires
            old(self).wf(),
        ensures
            final(self).wf(),
            !transport_locators(final(self).multicast.transports@).contains(locator@),
            !uses_proto(transport_locators(final(self).multicast.transports@), address_proto(locator@))
                ==> !final(self).multicast.protocols@.contains(address_proto(locator@)),
            final(self).config == old(self).config,
            final(self).sessions == old(self).sessions,
            ({
                let ls = transport_locators(old(self).multicast.transports@);
                let ls2 = transport_locators(final(self).multicast.transports@);
                let p = address_proto(locator@);
                let ps = old(self).multicast.protocols@;
                &&& ls.contains(locator@) ==> r is Ok && exists|i: int|
                    0 <= i < ls.len() && ls[i] == locator@ && ls2 == ls.remove(i)
                &&& !ls.contains(locator@) ==> r == zerr::<()>(ZErrorKind::Other) && ls2 == ls
                &&& (uses_proto(ls2, p) || !ps.contains(p)) ==> final(self).multicast.protocols == old(self).multicast.protocols
                &&& (!uses_proto(ls2, p) && ps.contains(p)) ==> exists|i: int|
                    0 <= i < ps.len() && ps[i] == p && final(self).multicast.protocols@ == ps.remove(i)
            }),
    {
        let ghost ls = transport_locators(self.multicast.transports@);
        let res = match self.find_transport_multicast(locator) {
            Some(i) => {
                self.multicast.transports.remove(i);
                assert(transport_locators(self.multicast.transports@) =~= ls.remove(i as int));
                Ok(())
            },
            None => Err(ZError { kind: ZErrorKind::Other }),
        };
        let proto = locator.address.get_proto();
        let ghost ls2 = transport_locators(self.multicast.transports@);
        let mut used = false;
        let mut i: usize = 0;
        while i < self.multicast.transports.len()
            invariant
                i <= self.multicast.transports@.len(),
                ls2 == transport_locators(self.multicast.transports@),
                used == exists|k: int| 0 <= k < i && address_proto(#[trigger] ls2[k]) == proto,
            decreases self.multicast.transports@.len() - i,
        {
            if self.multicast.transports[i].locator.address.get_proto() == proto {
                used = true;
                assert(address_proto(ls2[i as int]) == proto);
            } else {
                assert(address_proto(ls2[i as int]) != proto);
            }
            i = i + 1;
        }
        if !used {
            let _ = self.del_link_manager_multicast(proto);
        }
        res
    }
}

} // verus!

verus! {

/// The configuration defaults that `s` gives protocol `p`: those of its first entry for `p`.
pub open spec fn protocol_defaults(s: Seq<(LocatorProtocol, Properties)>, p: LocatorProtocol) -> Option<Map<Seq<char>, Seq<char>>>
    decreases s.len(),
{
    if s.len() == 0 {
        None
    } else if s[0].0 == p {
        Some(s[0].1@)
    } else {
        protocol_defaults(s.drop_first(), p)
    }
}

impl Properties {
    pub fn duplicate(&self) -> (r: Properties)
        ensures
            r@ == self@,
    {
        let mut p = Properties::new();
        p.merge(self);
        assert(Map::<Seq<char>, Seq<char>>::empty().union_prefer_right(self@) =~= self@);
        p
    }
}

impl TransportManager {
    /// The defaults for endpoints of `protocol`, if the configuration has some.
    pub fn endpoint_defaults(&self, protocol: LocatorProtocol) -> (r: Option<Properties>)
        ensures
            match protocol_defaults(self.config.endpoint@, protocol) {
                Some(m) => r matches Some(p) && p@ == m,
                None => r is None,
            },
    {
        let ghost s = self.config.endpoint@;
        let mut i: usize = 0;
        assert(s.skip(0) =~= s);
        while i < self.config.endpoint.len()
            invariant
                i <= s.len(),
                s == self.config.endpoint@,
                protocol_defaults(s, protocol) == protocol_defaults(s.skip(i as int), protocol),
            decreases s.len() - i,
        {
            assert(s.skip(i as int)[0] == s[i as int]);
            assert(s.skip(i as int).drop_first() =~= s.skip(i + 1));
            if self.config.endpoint[i].0 == protocol {
                return Some(self.config.endpoint[i].1.duplicate());
            }
            i = i + 1;
        }
        None
    }

    /// What opening a multicast transport on `endpoint` decides before the
    /// link is opened: the locator must be multicast, its protocol gets a
    /// link manager, and its configuration is the protocol's defaults
    /// overridden by the endpoint's own. Gives the endpoint to open.
    pub fn prepare_open_multicast(&mut self, endpoint: EndPoint) -> (r: ZResult<EndPoint>)
        requires
            old(self).wf(),
        ensures
            final(self).wf(),
            final(self).config == old(self).config,
            final(self).sessions == old(self).sessions,
            final(self).multicast.transports == old(self).multicast.transports,
            !crate::link::address_is_multicast(endpoint.locator@) ==> r == zerr::<EndPoint>(ZErrorKind::InvalidLocator)
                && final(self).multicast.protocols == old(self).multicast.protocols,
            crate::link::address_is_multicast(endpoint.locator@) ==> (r matches Ok(e) && e.locator@ == endpoint.locator@
                && final(self).multicast.protocols@.contains(LocatorProtocol::Udp)
                && match protocol_defaults(old(self).config.endpoint@, LocatorProtocol::Udp) {
                    Some(d) => (e.config matches Some(c) && c@ == match endpoint.config {
                        Some(ec) => d.union_prefer_right(ec@),
                        None => d,
                    }),
                    None => e.config == endpoint.config,
                }),
    {
        if !endpoint.locator.address.is_multicast() {
            return Err(ZError { kind: ZErrorKind::InvalidLocator });
        }
        let proto = endpoint.locator.address.get_proto();
        let _ = self.new_link_manager_multicast(proto)?;
        let mut endpoint = endpoint;
        match self.endpoint_defaults(proto) {
            Some(d) => {
                let mut merged = d;
                match &endpoint.config {
                    Some(ec) => merged.merge(ec),
                    None => {},
                }
                endpoint.config = Some(merged);
            },
            None => {},
        }
        Ok(endpoint)
    }
}

} // verus!
