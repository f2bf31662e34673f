//! Unicast sessions: the state of one session with one peer, what the
//! handle to it reports, scheduling onto conduits with congestion control,
//! draining conduits in priority order, and the receiving path.
use vstd::prelude::*;
use crate::batch::{
    fill_batch, fragment_capacity, fragment_count, fragment_msg, frame_of, lemma_frame_bytes,
    lemma_frame_header_len, serialize_message, FRAGMENT_OVERHEAD,
};
use crate::codec::{enc_transport, FramePayload, TransportMessage};
use crate::message::enc_janu;
use crate::conduit::{sn_next, RxConduit, RxOutcome, SeqNum};
use crate::link::Link;
use crate::message::{JanuMessage, JanuMessageV};
use crate::protocol::{
    zerr, Channel, CongestionControl, PeerId, Priority, Reliability, WhatAmI, ZError, ZErrorKind,
    ZInt, ZResult,
};

verus! {

/// Counters of a session's traffic.
#[derive(Clone, Copy, Debug, PartialEq, Eq, Structural)]
pub struct TransportStatsUnicast {
    pub tx_msgs: usize,
    pub tx_bytes: usize,
    pub rx_msgs: usize,
    pub rx_bytes: usize,
    pub tx_dropped: usize,
}

pub open spec fn sat_add(a: usize, b: usize) -> usize {
    if a + b > usize::MAX {
        usize::MAX
    } else {
        (a + b) as usize
    }
}

pub fn saturating_add(a: usize, b: usize) -> (r: usize)
    ensures
        r == sat_add(a, b),
{
    if a > usize::MAX - b {
        usize::MAX
    } else {
        a + b
    }
}

impl TransportStatsUnicast {
    pub fn new() -> (r: TransportStatsUnicast)
        ensures
            r == (TransportStatsUnicast { tx_msgs: 0, tx_bytes: 0, rx_msgs: 0, rx_bytes: 0, tx_dropped: 0 }),
    {
        TransportStatsUnicast { tx_msgs: 0, tx_bytes: 0, rx_msgs: 0, rx_bytes: 0, tx_dropped: 0 }
    }
}

/// What was negotiated for a session.
#[derive(Debug)]
pub struct TransportConfigUnicast {
    pub peer: PeerId,
    pub whatami: WhatAmI,
    pub sn_resolution: ZInt,
    pub initial_sn_tx: ZInt,
    pub initial_sn_rx: ZInt,
    pub is_shm: bool,
    pub is_qos: bool,
}

/// The number of conduits of a session: two per priority with QoS, two without.
pub open spec fn conduit_count(is_qos: bool) -> nat {
    if is_qos {
        16
    } else {
        2
    }
}

/// The conduit that carries messages of `ch`.
pub open spec fn conduit_index(is_qos: bool, ch: Channel) -> nat {
    let p = if is_qos { ch.priority.spec_index() } else { 0 };
    p * 2 + if ch.reliability == Reliability::Reliable { 0nat } else { 1nat }
}

/// The channel that frames of conduit `i` carry.
pub open spec fn conduit_channel(is_qos: bool, i: nat) -> Channel {
    Channel {
        priority: if is_qos { Priority::spec_from_index((i / 2) as u64)->Some_0 } else { Priority::Data },
        reliability: if i % 2 == 0 { Reliability::Reliable } else { Reliability::BestEffort },
    }
}

fn conduit_index_of(is_qos: bool, ch: Channel) -> (r: usize)
    ensures
        r == conduit_index(is_qos, ch),
        r < conduit_count(is_qos),
{
    let p: usize = if is_qos { ch.priority.index() } else { 0 };
    p * 2 + match ch.reliability {
        Reliability::Reliable => 0,
        Reliability::BestEffort => 1,
    }
}

fn conduit_channel_of(is_qos: bool, i: usize) -> (r: Channel)
    requires
        i < conduit_count(is_qos),
    ensures
        r == conduit_channel(is_qos, i as nat),
{
    let priority = if is_qos {
        match Priority::from_index((i / 2) as u64) {
            Some(p) => p,
            None => Priority::Data,
        }
    } else {
        Priority::Data
    };
    let reliability = if i % 2 == 0 { Reliability::Reliable } else { Reliability::BestEffort };
    Channel { priority, reliability }
}

/// A piece-by-piece reassembly of a message cut into fragments.
#[derive(Debug)]
pub struct Defragmenter {
    pub buffer: Vec<u8>,
    pub active: bool,
    pub next_sn: u64,
    pub resolution: u64,
    /// Reassemblies aborted by a fragment out of sequence.
    pub errors: usize,
    /// Reassemblies completed.
    pub completed: usize,
}

impl Defragmenter {
    pub open spec fn wf(&self) -> bool {
        0 < self.resolution
    }

    pub fn new(resolution: u64) -> (r: Defragmenter)
        requires
            0 < resolution,
        ensures
            r.wf(),
            r.buffer@ == Seq::<u8>::empty(),
            !r.active,
            r.resolution == resolution,
            r.errors == 0,
            r.completed == 0,
    {
        Defragmenter { buffer: Vec::new(), active: false, next_sn: 0, resolution, errors: 0, completed: 0 }
    }

    /// Takes in fragment `sn`. A fragment out of sequence aborts the
    /// reassembly under way and is dropped; the final one hands back the message's bytes.
    pub fn push(&mut self, sn: u64, chunk: &Vec<u8>, is_final: bool) -> (r: Option<Vec<u8>>)
        requires
            old(self).wf(),
            sn < old(self).resolution,
        ensures
            final(self).wf(),
            final(self).resolution == old(self).resolution,
            old(self).active && sn != old(self).next_sn ==> r is None && !final(self).active
                && final(self).buffer@ == Seq::<u8>::empty()
                && final(self).errors == sat_add(old(self).errors, 1)
                && final(self).completed == old(self).completed,
            !(old(self).active && sn != old(self).next_sn) && is_final ==> (r matches Some(b) && b@
                == old(self).buffer@ + chunk@) && !final(self).active && final(self).buffer@ == Seq::<u8>::empty()
                && final(self).completed == sat_add(old(self).completed, 1)
                && final(self).errors == old(self).errors,
            !(old(self).active && sn != old(self).next_sn) && !is_final ==> r is None && final(self).active
                && final(self).buffer@ == old(self).buffer@ + chunk@
                && final(self).next_sn == sn_next(sn, old(self).resolution)
                && final(self).errors == old(self).errors
                && final(self).completed == old(self).completed,
    {
        if self.active && sn != self.next_sn {
            self.buffer.clear();
            self.active = false;
            self.errors = saturating_add(self.errors, 1);
            return None;
        }
        let ghost pre = self.buffer@;
        let mut i: usize = 0;
        while i < chunk.len()
            invariant
                i <= chunk@.len(),
                self.buffer@ == pre + chunk@.subrange(0, i as int),
                self.resolution == old(self).resolution,
                self.errors == old(self).errors,
                self.completed == old(self).completed,
                0 < self.resolution,
            decreases chunk@.len() - i,
        {
            self.buffer.push(chunk[i]);
            assert(chunk@.subrange(0, i + 1) =~= chunk@.subrange(0, i as int).push(chunk@[i as int]));
            i = i + 1;
        }
        assert(chunk@.subrange(0, i as int) =~= chunk@);
        if is_final {
            let mut out: Vec<u8> = Vec::new();
            std::mem::swap(&mut out, &mut self.buffer);
            self.active = false;
            self.completed = saturating_add(self.completed, 1);
            Some(out)
        } else {
            self.active = true;
            self.next_sn = if sn + 1 >= self.resolution { 0 } else { sn + 1 };
            None
        }
    }
}

/// The state of a session with one peer.
#[derive(Debug)]
pub struct TransportUnicastInner {
    pub config: TransportConfigUnicast,
    pub links: Vec<Link>,
    /// Messages waiting to be sent, one queue per conduit.
    pub tx_queues: Vec<Vec<JanuMessage>>,
    /// The bound on each queue.
    pub queue_capacity: usize,
    /// The next sequence number of each sending conduit.
    pub tx_sn: Vec<SeqNum>,
    pub rx: Vec<RxConduit>,
    pub defrag: Vec<Defragmenter>,
    pub stats: TransportStatsUnicast,
}

impl TransportUnicastInner {
    pub open spec fn wf(&self) -> bool {
        let n = conduit_count(self.config.is_qos);
        &&& self.links@.len() >= 1
        &&& links_distinct(links_view(self.links@))
        &&& 0 < self.config.sn_resolution
        &&& self.tx_queues@.len() == n
        &&& self.tx_sn@.len() == n
        &&& self.rx@.len() == n
        &&& self.defrag@.len() == n
        &&& forall|i: int| 0 <= i < n ==> (#[trigger] self.tx_sn@[i]).wf()
            && self.tx_sn@[i].resolution == self.config.sn_resolution
        &&& forall|i: int| 0 <= i < n ==> (#[trigger] self.rx@[i]).wf()
            && self.rx@[i].resolution == self.config.sn_resolution
            && self.rx@[i].reliability == conduit_channel(self.config.is_qos, i as nat).reliability
        &&& forall|i: int| 0 <= i < n ==> (#[trigger] self.defrag@[i]).wf()
            && self.defrag@[i].resolution == self.config.sn_resolution
        &&& forall|i: int| 0 <= i < n ==> (#[trigger] self.tx_queues@[i])@.len() <= self.queue_capacity
    }

    /// A new session with one link, as establishment negotiated it.
    pub fn new(config: TransportConfigUnicast, link: Link, queue_capacity: usize) -> (r: ZResult<TransportUnicastInner>)
        ensures
            (0 < config.sn_resolution && config.initial_sn_tx < config.sn_resolution
                && config.initial_sn_rx < config.sn_resolution) ==> (r matches Ok(t) && t.wf()
                && t.config.peer@ == config.peer@ && t.config.whatami == config.whatami
                && t.config.sn_resolution == config.sn_resolution && t.config.is_qos == config.is_qos
                && t.config.is_shm == config.is_shm && t.links@.len() == 1 && t.links@[0]@ == link@
                && t.stats == TransportStatsUnicast { tx_msgs: 0, tx_bytes: 0, rx_msgs: 0, rx_bytes: 0, tx_dropped: 0 }
                && t.queue_capacity == queue_capacity
                && forall|i: int| 0 <= i < t.tx_queues@.len() ==> (#[trigger] t.tx_queues@[i])@.len() == 0),
            !(0 < config.sn_resolution && config.initial_sn_tx < config.sn_resolution
                && config.initial_sn_rx < config.sn_resolution) ==> r == zerr::<TransportUnicastInner>(ZErrorKind::Other),
    {
        let res = config.sn_resolution;
        if res == 0 || config.initial_sn_tx >= res || config.initial_sn_rx >= res {
            return Err(ZError { kind: ZErrorKind::Other });
        }
        let n: usize = if config.is_qos { 16 } else { 2 };
        let mut tx_queues: Vec<Vec<JanuMessage>> = Vec::new();
        let mut tx_sn: Vec<SeqNum> = Vec::new();
        let mut rx: Vec<RxConduit> = Vec::new();
        let mut defrag: Vec<Defragmenter> = Vec::new();
        let mut i: usize = 0;
        while i < n
            invariant
                i <= n,
                n == conduit_count(config.is_qos),
                0 < res,
                res == config.sn_resolution,
                config.initial_sn_tx < res,
                config.initial_sn_rx < res,
                tx_queues@.len() == i,
                tx_sn@.len() == i,
                rx@.len() == i,
                defrag@.len() == i,
                forall|j: int| 0 <= j < i ==> (#[trigger] tx_sn@[j]).wf() && tx_sn@[j].resolution == res,
                forall|j: int| 0 <= j < i ==> (#[trigger] rx@[j]).wf() && rx@[j].resolution == res
                    && rx@[j].reliability == conduit_channel(config.is_qos, j as nat).reliability,
                forall|j: int| 0 <= j < i ==> (#[trigger] defrag@[j]).wf() && defrag@[j].resolution == res,
                forall|j: int| 0 <= j < i ==> (#[trigger] tx_queues@[j])@.len() == 0,
            decreases n - i,
        {
            tx_queues.push(Vec::new());
            tx_sn.push(SeqNum { value: config.initial_sn_tx, resolution: res });
            let rel = if i % 2 == 0 { Reliability::Reliable } else { Reliability::BestEffort };
            rx.push(RxConduit { reliability: rel, expected: config.initial_sn_rx, resolution: res });
            defrag.push(Defragmenter::new(res));
            i = i + 1;
        }
        let mut links: Vec<Link> = Vec::new();
        links.push(link);
        Ok(TransportUnicastInner {
            config,
            links,
            tx_queues,
            queue_capacity,
            tx_sn,
            rx,
            defrag,
            stats: TransportStatsUnicast::new(),
        })
    }
}

/// What a session reports of its peer.
#[derive(Debug)]
pub struct TransportPeer {
    pub pid: PeerId,
    pub whatami: WhatAmI,
    pub is_qos: bool,
    pub is_shm: bool,
    pub links: Vec<Link>,
}

pub open spec fn links_view(s: Seq<Link>) -> Seq<crate::link::LinkV> {
    s.map_values(|l: Link| l@)
}

/// No two links join the same two ends.
pub open spec fn links_distinct(s: Seq<crate::link::LinkV>) -> bool {
    forall|i: int, j: int| 0 <= i < j < s.len() ==> !(#[trigger] s[i].src == #[trigger] s[j].src && s[i].dst == s[j].dst)
}

fn copy_links(links: &Vec<Link>) -> (r: Vec<Link>)
    ensures
        links_view(r@) == links_view(links@),
{
    let mut out: Vec<Link> = Vec::new();
    let mut i: usize = 0;
    while i < links.len()
        invariant
            i <= links@.len(),
            links_view(out@) == links_view(links@).take(i as int),
        decreases links@.len() - i,
    {
        let ghost pre = links_view(out@);
        let l = links[i].duplicate();
        let ghost lv = l@;
        out.push(l);
        assert(links_view(out@) =~= pre.push(lv));
        assert(links_view(links@).take(i + 1) =~= links_view(links@).take(i as int).push(links@[i as int]@));
        assert(links_view(out@) =~= links_view(links@).take(i + 1));
        i = i + 1;
    }
    assert(links_view(links@).take(i as int) =~= links_view(links@));
    out
}

/// The handle to a unicast session; it holds no state once the session is closed.
#[derive(Debug)]
pub struct TransportUnicast {
    pub inner: Option<TransportUnicastInner>,
}

pub open spec fn closed_err<T>() -> ZResult<T> {
    zerr::<T>(ZErrorKind::InvalidReference)
}

impl TransportUnicast {
    pub open spec fn wf(&self) -> bool {
        self.inner matches Some(t) ==> t.wf()
    }

    fn get_transport(&self) -> (r: ZResult<&TransportUnicastInner>)
        ensures
            match self.inner {
                Some(t) => r == Ok::<&TransportUnicastInner, ZError>(&t),
                None => r == closed_err::<&TransportUnicastInner>(),
            },
    {
        match &self.inner {
            Some(t) => Ok(t),
            None => Err(ZError { kind: ZErrorKind::InvalidReference }),
        }
    }

    pub fn get_pid(&self) -> (r: ZResult<PeerId>)
        ensures
            match self.inner {
                Some(t) => r matches Ok(p) && p@ == t.config.peer@,
                None => r == closed_err::<PeerId>(),
            },
    {
        let t = self.get_transport()?;
        Ok(t.config.peer.duplicate())
    }

    pub fn get_whatami(&self) -> (r: ZResult<WhatAmI>)
        ensures
            match self.inner {
                Some(t) => r == Ok::<WhatAmI, ZError>(t.config.whatami),
                None => r == closed_err::<WhatAmI>(),
            },
    {
        let t = self.get_transport()?;
        Ok(t.config.whatami)
    }

    pub fn get_sn_resolution(&self) -> (r: ZResult<ZInt>)
        ensures
            match self.inner {
                Some(t) => r == Ok::<ZInt, ZError>(t.config.sn_resolution),
                None => r == closed_err::<ZInt>(),
            },
    {
        let t = self.get_transport()?;
        Ok(t.config.sn_resolution)
    }

    pub fn is_shm(&self) -> (r: ZResult<bool>)
        ensures
            match self.inner {
                Some(t) => r == Ok::<bool, ZError>(t.config.is_shm),
                None => r == closed_err::<bool>(),
            },
    {
        let t = self.get_transport()?;
        Ok(t.config.is_shm)
    }

    pub fn is_qos(&self) -> (r: ZResult<bool>)
        ensures
            match self.inner {
                Some(t) => r == Ok::<bool, ZError>(t.config.is_qos),
                None => r == closed_err::<bool>(),
            },
    {
        let t = self.get_transport()?;
        Ok(t.config.is_qos)
    }

    pub fn get_peer(&self) -> (r: ZResult<TransportPeer>)
        ensures
            match self.inner {
                Some(t) => r matches Ok(p) && p.pid@ == t.config.peer@ && p.whatami == t.config.whatami
                    && p.is_qos == t.config.is_qos && p.is_shm == t.config.is_shm
                    && links_view(p.links@) == links_view(t.links@),
                None => r is Err && r->Err_0 == (ZError { kind: ZErrorKind::InvalidReference }),
            },
    {
        let t = self.get_transport()?;
        Ok(TransportPeer {
            pid: t.config.peer.duplicate(),
            whatami: t.config.whatami,
            is_qos: t.config.is_qos,
            is_shm: t.config.is_shm,
            links: copy_links(&t.links),
        })
    }

    pub fn get_links(&self) -> (r: ZResult<Vec<Link>>)
        ensures
            match self.inner {
                Some(t) => r matches Ok(l) && links_view(l@) == links_view(t.links@),
                None => r is Err && r->Err_0 == (ZError { kind: ZErrorKind::InvalidReference }),
            },
    {
        let t = self.get_transport()?;
        Ok(copy_links(&t.links))
    }

    pub fn get_stats(&self) -> (r: ZResult<TransportStatsUnicast>)
        ensures
            match self.inner {
                Some(t) => r == Ok::<TransportStatsUnicast, ZError>(t.stats),
                None => r == closed_err::<TransportStatsUnicast>(),
            },
    {
        let t = self.get_transport()?;
        Ok(t.stats)
    }
}

} // verus!

verus! {

pub open spec fn queues_view(q: Seq<Vec<JanuMessage>>) -> Seq<Seq<JanuMessageV>> {
    q.map_values(|v: Vec<JanuMessage>| crate::message::janu_msgs_view(v@))
}

/// The first conduit, in priority order, with a message waiting.
pub open spec fn first_busy(q: Seq<Seq<JanuMessageV>>, i: int) -> bool {
    &&& 0 <= i < q.len()
    &&& q[i].len() > 0
    &&& forall|j: int| 0 <= j < i ==> (#[trigger] q[j]).len() == 0
}

impl TransportUnicastInner {
    /// Queues `message` on its conduit. Where the queue is full, a message
    /// that may be dropped is dropped and counted, and one that must not is
    /// refused with `WouldBlock` so that its producer waits.
    pub fn schedule(&mut self, message: JanuMessage) -> (r: ZResult<()>)
        requires
            old(self).wf(),
        ensures
            final(self).wf(),
            final(self).config == old(self).config,
            final(self).queue_capacity == old(self).queue_capacity,
            final(self).tx_sn == old(self).tx_sn,
            final(self).rx == old(self).rx,
            ({
                let i = conduit_index(old(self).config.is_qos, message.channel) as int;
                let q = queues_view(old(self).tx_queues@);
                if q[i].len() < old(self).queue_capacity {
                    r is Ok && queues_view(final(self).tx_queues@) == q.update(i, q[i].push(message@))
                        && final(self).stats == old(self).stats
                } else if message.congestion_control == CongestionControl::Drop {
                    r is Ok && queues_view(final(self).tx_queues@) == q
                        && final(self).stats == (TransportStatsUnicast {
                        tx_dropped: sat_add(old(self).stats.tx_dropped, 1),
                        ..old(self).stats
                    })
                } else {
                    r == zerr::<()>(ZErrorKind::WouldBlock) && queues_view(final(self).tx_queues@) == q
                        && final(self).stats == old(self).stats
                }
            }),
    {
        let i = conduit_index_of(self.config.is_qos, message.channel);
        let ghost q = queues_view(self.tx_queues@);
        if self.tx_queues[i].len() < self.queue_capacity {
            let mut queue = self.tx_queues.remove(i);
            let ghost mv = message@;
            let ghost pre = crate::message::janu_msgs_view(queue@);
            queue.push(message);
            assert(crate::message::janu_msgs_view(queue@) =~= pre.push(mv));
            self.tx_queues.insert(i, queue);
            assert(queues_view(self.tx_queues@) =~= q.update(i as int, q[i as int].push(mv)));
            Ok(())
        } else {
            match message.congestion_control {
                CongestionControl::Drop => {
                    self.stats.tx_dropped = saturating_add(self.stats.tx_dropped, 1);
                    Ok(())
                },
                CongestionControl::Block => Err(ZError { kind: ZErrorKind::WouldBlock }),
            }
        }
    }

    /// The pipeliner's step: from the first conduit in priority order with
    /// messages waiting, the batches that carry as many of its messages as
    /// fit one frame, or the fragments of its first message where even that
    /// one does not fit. `None` where nothing waits.
    pub fn next_batch(&mut self, mtu: usize) -> (r: Option<Vec<Vec<u8>>>)
        requires
            old(self).wf(),
            mtu > FRAGMENT_OVERHEAD,
        ensures
            final(self).wf(),
            final(self).config == old(self).config,
            final(self).rx == old(self).rx,
            ({
                let q = queues_view(old(self).tx_queues@);
                let q2 = queues_view(final(self).tx_queues@);
                match r {
                    None => (forall|j: int| 0 <= j < q.len() ==> (#[trigger] q[j]).len() == 0) && q2 == q,
                    Some(bs) => exists|i: int, k: int| first_busy(q, i) && 1 <= k <= q[i].len()
                        && q2 == #[trigger] q.update(i, q[i].skip(k))
                        && bs@.len() >= 1
                        && (forall|b: int| 0 <= b < bs@.len() ==> (#[trigger] bs@[b])@.len() <= mtu)
                        && ({
                            let ch = conduit_channel(old(self).config.is_qos, i as nat);
                            let sn = old(self).tx_sn@[i].value;
                            let res = old(self).config.sn_resolution;
                            let m = q[i][0];
                            let cap = fragment_capacity(mtu as nat);
                            ||| (bs@.len() == 1 && bs@[0]@ == enc_transport(frame_of(ch, sn, q[i].take(k)))
                                && final(self).tx_sn@[i].value == sn_next(sn, res))
                            ||| (k == 1 && enc_transport(frame_of(ch, sn, seq![m])).len() > mtu
                                && bs@.len() == fragment_count(enc_janu(m).len(), cap)
                                && (forall|b: int| 0 <= b < bs@.len() ==> #[trigger] bs@[b]@ == enc_transport(
                                    fragment_msg(ch, sn, res, enc_janu(m), cap, b as nat),
                                ))
                                && final(self).tx_sn@[i].value == (sn + bs@.len()) % (res as int))
                        }),
                }
            }),
    {
        let ghost q = queues_view(self.tx_queues@);
        let n = self.tx_queues.len();
        let mut i: usize = 0;
        while i < n && self.tx_queues[i].len() == 0
            invariant
                i <= n,
                n == self.tx_queues@.len(),
                q == queues_view(self.tx_queues@),
                forall|j: int| 0 <= j < i ==> (#[trigger] q[j]).len() == 0,
            decreases n - i,
        {
            i = i + 1;
        }
        if i >= n {
            return None;
        }
        assert(q[i as int].len() > 0);
        let ch = conduit_channel_of(self.config.is_qos, i);
        let mut gen = self.tx_sn[i];
        let sn = gen.value;
        let mut queue = self.tx_queues.remove(i);
        let ghost qi = crate::message::janu_msgs_view(queue@);
        let (b, k) = fill_batch(mtu, ch, sn, &queue);
        let mut out: Vec<Vec<u8>> = Vec::new();
        let mut taken: usize = 1;
        if k > 0 {
            let blen = b.buffer.len();
            out.push(b.buffer);
            gen.increment();
            self.stats.tx_msgs = saturating_add(self.stats.tx_msgs, k);
            self.stats.tx_bytes = saturating_add(self.stats.tx_bytes, blen);
            taken = k;
        } else {
            proof {
                lemma_frame_header_len(ch, sn);
                let m0 = qi[0];
                lemma_frame_bytes(ch, sn, seq![m0]);
                lemma_frame_bytes(ch, sn, Seq::empty());
                assert(qi.take(0) =~= Seq::<JanuMessageV>::empty());
                assert(seq![m0].drop_first() =~= Seq::<JanuMessageV>::empty());
                assert(crate::message::enc_janu_all(seq![m0]) =~= enc_janu(m0)
                    + crate::message::enc_janu_all(Seq::<JanuMessageV>::empty()));
                assert(crate::message::enc_janu_all(Seq::<JanuMessageV>::empty()) =~= Seq::<u8>::empty());
                assert(queue@[0]@ == m0);
            }
            let frags = serialize_message(ch, sn, self.config.sn_resolution, &queue[0], mtu);
            let mut c: usize = 0;
            let mut bytes: usize = 0;
            proof {
                vstd::arithmetic::div_mod::lemma_small_mod(sn as nat, self.config.sn_resolution as nat);
            }
            while c < frags.len()
                invariant
                    c <= frags@.len(),
                    gen.wf(),
                    gen.resolution == self.config.sn_resolution,
                    gen.value == (sn + c) % (self.config.sn_resolution as int),
                    forall|b: int| 0 <= b < frags@.len() ==> (#[trigger] frags@[b])@.len() <= mtu,
                    forall|b: int| 0 <= b < c ==> (#[trigger] out@[b])@.len() <= mtu,
                    forall|b: int| 0 <= b < c ==> (#[trigger] out@[b])@ == frags@[b]@,
                    out@.len() == c,
                decreases frags@.len() - c,
            {
                proof {
                    crate::conduit::lemma_mod_next((sn + c) as int, self.config.sn_resolution as int);
                }
                gen.increment();
                bytes = saturating_add(bytes, frags[c].len());
                out.push(crate::protocol::bytes_copy(&frags[c]));
                c = c + 1;
            }
            self.stats.tx_msgs = saturating_add(self.stats.tx_msgs, 1);
            self.stats.tx_bytes = saturating_add(self.stats.tx_bytes, bytes);
        }
        let mut j: usize = 0;
        assert(qi.skip(0) =~= qi);
        while j < taken
            invariant
                j <= taken <= qi.len(),
                crate::message::janu_msgs_view(queue@) == qi.skip(j as int),
                queue@.len() == qi.len() - j,
            decreases taken - j,
        {
            let ghost pre = crate::message::janu_msgs_view(queue@);
            queue.remove(0);
            assert(crate::message::janu_msgs_view(queue@) =~= pre.drop_first());
            assert(crate::message::janu_msgs_view(queue@) =~= qi.skip(j + 1));
            j = j + 1;
        }
        self.tx_sn.set(i, gen);
        self.tx_queues.insert(i, queue);
        assert(queues_view(self.tx_queues@) =~= q.update(i as int, q[i as int].skip(taken as int)));
        assert(first_busy(q, i as int));
        Some(out)
    }
}

} // verus!

verus! {

impl TransportUnicastInner {
    /// Takes in a transport message from the peer and hands back the
    /// application messages to deliver: those of a frame that its conduit
    /// delivers, or the message that a final fragment completes.
    pub fn receive(&mut self, msg: TransportMessage) -> (r: Vec<JanuMessage>)
        requires
            old(self).wf(),
        ensures
            final(self).wf(),
            final(self).config == old(self).config,
            final(self).tx_queues == old(self).tx_queues,
            final(self).tx_sn == old(self).tx_sn,
            !(msg is Frame) ==> r@.len() == 0 && final(self).rx == old(self).rx,
            msg matches TransportMessage::Frame { channel, sn, payload } ==> {
                let i = conduit_index(old(self).config.is_qos, channel) as int;
                let c = old(self).rx@[i];
                if sn < c.resolution {
                    let o = crate::conduit::rx_outcome(c.reliability, c.expected, sn, c.resolution);
                    &&& final(self).rx@ == old(self).rx@.update(
                        i,
                        RxConduit {
                            expected: crate::conduit::rx_expected_after(c.reliability, c.expected, sn, c.resolution),
                            ..c
                        },
                    )
                    &&& o != RxOutcome::Deliver ==> r@.len() == 0
                    &&& (o == RxOutcome::Deliver && payload is Messages) ==> crate::message::janu_msgs_view(r@)
                        == crate::message::janu_msgs_view(payload->Messages_messages@)
                    &&& (o == RxOutcome::Deliver && payload is Fragment) ==> r@.len() <= 1
                } else {
                    r@.len() == 0 && final(self).rx == old(self).rx
                }
            },
    {
        let empty: Vec<JanuMessage> = Vec::new();
        match msg {
            TransportMessage::Frame { channel, sn, payload } => {
                let i = conduit_index_of(self.config.is_qos, channel);
                let mut c = self.rx[i];
                if sn >= c.resolution {
                    return empty;
                }
                let o = c.receive(sn);
                self.rx.set(i, c);
                match o {
                    RxOutcome::Deliver => {},
                    _ => {
                        return empty;
                    },
                }
                match payload {
                    FramePayload::Messages { messages } => {
                        let n = messages.len();
                        self.stats.rx_msgs = saturating_add(self.stats.rx_msgs, n);
                        messages
                    },
                    FramePayload::Fragment { buffer, is_final } => {
                        let mut d = self.defrag.remove(i);
                        let done = d.push(sn, &buffer, is_final);
                        self.defrag.insert(i, d);
                        match done {
                            None => empty,
                            Some(bytes) => {
                                let mut out: Vec<JanuMessage> = Vec::new();
                                match JanuMessage::decode(&bytes, 0, channel) {
                                    Some((m, p)) => {
                                        if p == bytes.len() {
                                            self.stats.rx_msgs = saturating_add(self.stats.rx_msgs, 1);
                                            self.stats.rx_bytes = saturating_add(self.stats.rx_bytes, p);
                                            out.push(m);
                                        }
                                    },
                                    None => {},
                                }
                                out
                            },
                        }
                    },
                }
            },
            _ => empty,
        }
    }
}

impl TransportUnicast {
    /// A handle to `inner`.
    pub fn from_inner(inner: TransportUnicastInner) -> (r: TransportUnicast)
        ensures
            r.inner == Some(inner),
    {
        TransportUnicast { inner: Some(inner) }
    }

    /// Queues `message` on the session; an error where the session is closed.
    pub fn schedule(&mut self, message: JanuMessage) -> (r: ZResult<()>)
        requires
            old(self).wf(),
        ensures
            final(self).wf(),
            old(self).inner is None ==> r == closed_err::<()>() && final(self).inner is None,
            old(self).inner matches Some(t) ==> final(self).inner matches Some(t2) && ({
                let i = conduit_index(t.config.is_qos, message.channel) as int;
                let q = queues_view(t.tx_queues@);
                if q[i].len() < t.queue_capacity {
                    r is Ok && queues_view(t2.tx_queues@) == q.update(i, q[i].push(message@))
                        && t2.stats == t.stats
                } else if message.congestion_control == CongestionControl::Drop {
                    r is Ok && queues_view(t2.tx_queues@) == q && t2.stats == (TransportStatsUnicast {
                        tx_dropped: sat_add(t.stats.tx_dropped, 1),
                        ..t.stats
                    })
                } else {
                    r == zerr::<()>(ZErrorKind::WouldBlock) && queues_view(t2.tx_queues@) == q
                        && t2.stats == t.stats
                }
            }),
    {
        match &mut self.inner {
            Some(t) => t.schedule(message),
            None => Err(ZError { kind: ZErrorKind::InvalidReference }),
        }
    }

    /// Whether the conduit of `ch` has room for one more message; an error
    /// where the session is closed.
    pub fn has_room(&self, ch: Channel) -> (r: ZResult<bool>)
        requires
            self.wf(),
        ensures
            match self.inner {
                Some(t) => r == Ok::<bool, ZError>(
                    queues_view(t.tx_queues@)[conduit_index(t.config.is_qos, ch) as int].len() < t.queue_capacity,
                ),
                None => r == closed_err::<bool>(),
            },
    {
        let t = self.get_transport()?;
        let i = conduit_index_of(t.config.is_qos, ch);
        Ok(t.tx_queues[i].len() < t.queue_capacity)
    }

    /// Handles a message from the layer above: it is scheduled.
    pub fn handle_message(&mut self, message: JanuMessage) -> (r: ZResult<()>)
        requires
            old(self).wf(),
        ensures
            final(self).wf(),
            old(self).inner is None ==> r == closed_err::<()>() && final(self).inner is None,
            old(self).inner matches Some(t) ==> final(self).inner matches Some(t2) && ({
                let i = conduit_index(t.config.is_qos, message.channel) as int;
                let q = queues_view(t.tx_queues@);
                if q[i].len() < t.queue_capacity {
                    r is Ok && queues_view(t2.tx_queues@) == q.update(i, q[i].push(message@))
                        && t2.stats == t.stats
                } else if message.congestion_control == CongestionControl::Drop {
                    r is Ok && queues_view(t2.tx_queues@) == q && t2.stats == (TransportStatsUnicast {
                        tx_dropped: sat_add(t.stats.tx_dropped, 1),
                        ..t.stats
                    })
                } else {
                    r == zerr::<()>(ZErrorKind::WouldBlock) && queues_view(t2.tx_queues@) == q
                        && t2.stats == t.stats
                }
            }),
    {
        self.schedule(message)
    }

    /// Closes the session; closing a closed session succeeds.
    pub fn close(&mut self) -> (r: ZResult<()>)
        ensures
            r is Ok,
            final(self).inner is None,
    {
        self.inner = None;
        Ok(())
    }

    /// Closes the session's link with the ends of `link`; the session closes
    /// with its last link. An error where the session is closed or has no such link.
    pub fn close_link(&mut self, link: &Link) -> (r: ZResult<()>)
        requires
            old(self).wf(),
        ensures
            final(self).wf(),
            old(self).inner is None ==> r == closed_err::<()>() && final(self).inner is None,
            old(self).inner matches Some(t) ==> {
                let ls = links_view(t.links@);
                if exists|i: int| 0 <= i < ls.len() && #[trigger] ls[i].src == link.src@ && ls[i].dst == link.dst@ {
                    r is Ok && exists|i: int|
                        0 <= i < ls.len() && #[trigger] ls[i].src == link.src@ && ls[i].dst == link.dst@ && (
                        if ls.len() == 1 {
                            final(self).inner is None
                        } else {
                            final(self).inner matches Some(t2) && links_view(t2.links@) == ls.remove(i)
                                && t2.config == t.config
                        })
                } else {
                    r == zerr::<()>(ZErrorKind::InvalidLink) && final(self).inner == old(self).inner
                }
            },
    {
        let last: bool;
        match &mut self.inner {
            None => {
                return Err(ZError { kind: ZErrorKind::InvalidReference });
            },
            Some(t) => {
                let ghost ls = links_view(t.links@);
                let mut i: usize = 0;
                while i < t.links.len() && !t.links[i].same_ends(link)
                    invariant
                        i <= t.links@.len(),
                        ls == links_view(t.links@),
                        forall|k: int| 0 <= k < i ==> !(#[trigger] ls[k].src == link.src@ && ls[k].dst == link.dst@),
                    decreases t.links@.len() - i,
                {
                    i = i + 1;
                }
                if i >= t.links.len() {
                    return Err(ZError { kind: ZErrorKind::InvalidLink });
                }
                assert(ls[i as int].src == link.src@ && ls[i as int].dst == link.dst@);
                t.links.remove(i);
                assert(links_view(t.links@) =~= ls.remove(i as int));
                last = t.links.len() == 0;
            },
        }
        if last {
            self.inner = None;
        }
        Ok(())
    }
}

} // verus!

verus! {

/// What a session's timer does at a tick.
#[derive(Clone, Copy, Debug, PartialEq, Eq, Structural)]
pub enum TimerAction {
    Idle,
    /// Nothing was sent for a keep-alive period: send a KeepAlive.
    SendKeepAlive,
    /// Nothing was received for longer than the lease: the session is dead.
    Expire,
}

/// When a session last sent and received, and its periods, in milliseconds.
#[derive(Clone, Copy, Debug, PartialEq, Eq, Structural)]
pub struct Liveness {
    pub lease: u64,
    pub keep_alive: u64,
    pub last_rx: u64,
    pub last_tx: u64,
}

pub open spec fn timer_action(l: Liveness, now: u64) -> TimerAction {
    if now > l.last_rx + l.lease {
        TimerAction::Expire
    } else if now >= l.last_tx + l.keep_alive {
        TimerAction::SendKeepAlive
    } else {
        TimerAction::Idle
    }
}

impl Liveness {
    pub fn new(lease: u64, keep_alive: u64, now: u64) -> (r: Liveness)
        ensures
            r == (Liveness { lease, keep_alive, last_rx: now, last_tx: now }),
    {
        Liveness { lease, keep_alive, last_rx: now, last_tx: now }
    }

    /// Something was received at `now`.
    pub fn on_rx(&mut self, now: u64)
        ensures
            *final(self) == (Liveness { last_rx: now, ..*old(self) }),
    {
        self.last_rx = now;
    }

    /// Something was sent at `now`.
    pub fn on_tx(&mut self, now: u64)
        ensures
            *final(self) == (Liveness { last_tx: now, ..*old(self) }),
    {
        self.last_tx = now;
    }

    /// What to do at `now`: expire past the lease, else keep alive once a
    /// keep-alive period has passed without sending.
    pub fn tick(&self, now: u64) -> (r: TimerAction)
        ensures
            r == timer_action(*self, now),
    {
        if now > self.last_rx && now - self.last_rx > self.lease {
            TimerAction::Expire
        } else if now >= self.last_tx && now - self.last_tx >= self.keep_alive {
            TimerAction::SendKeepAlive
        } else {
            TimerAction::Idle
        }
    }
}

/// The life of a session.
#[derive(Clone, Copy, Debug, PartialEq, Eq, Structural)]
pub enum SessionState {
    Opening,
    Established,
    Closing,
    Closed,
}

/// What happens to a session.
#[derive(Clone, Copy, Debug, PartialEq, Eq, Structural)]
pub enum SessionEvent {
    /// The handshake completed.
    Opened,
    /// A close was asked for, or the lease expired.
    Close,
    /// What was pending is drained, or the grace period ran out.
    Drained,
    /// The last link went down, or the peer sent Close.
    LinkLost,
}

/// The state after `e` in state `s`; `None` where `e` cannot happen in `s`.
pub open spec fn session_next(s: SessionState, e: SessionEvent) -> Option<SessionState> {
    match (s, e) {
        (SessionState::Opening, SessionEvent::Opened) => Some(SessionState::Established),
        (SessionState::Opening, SessionEvent::Close) => Some(SessionState::Closed),
        (SessionState::Opening, SessionEvent::LinkLost) => Some(SessionState::Closed),
        (SessionState::Established, SessionEvent::Close) => Some(SessionState::Closing),
        (SessionState::Established, SessionEvent::LinkLost) => Some(SessionState::Closed),
        (SessionState::Closing, SessionEvent::Drained) => Some(SessionState::Closed),
        (SessionState::Closing, SessionEvent::LinkLost) => Some(SessionState::Closed),
        (SessionState::Closing, SessionEvent::Close) => Some(SessionState::Closing),
        (SessionState::Closed, SessionEvent::Close) => Some(SessionState::Closed),
        _ => None,
    }
}

impl SessionState {
    /// Moves the session on by `e`; an error, and no change, where `e` cannot happen now.
    pub fn step(&mut self, e: SessionEvent) -> (r: ZResult<()>)
        ensures
            match session_next(*old(self), e) {
                Some(n) => r is Ok && *final(self) == n,
                None => r == zerr::<()>(ZErrorKind::Other) && *final(self) == *old(self),
            },
    {
        let n = match (*self, e) {
            (SessionState::Opening, SessionEvent::Opened) => SessionState::Established,
            (SessionState::Opening, SessionEvent::Close) => SessionState::Closed,
            (SessionState::Opening, SessionEvent::LinkLost) => SessionState::Closed,
            (SessionState::Established, SessionEvent::Close) => SessionState::Closing,
            (SessionState::Established, SessionEvent::LinkLost) => SessionState::Closed,
            (SessionState::Closing, SessionEvent::Drained) => SessionState::Closed,
            (SessionState::Closing, SessionEvent::LinkLost) => SessionState::Closed,
            (SessionState::Closing, SessionEvent::Close) => SessionState::Closing,
            (SessionState::Closed, SessionEvent::Close) => SessionState::Closed,
            _ => {
                return Err(ZError { kind: ZErrorKind::Other });
            },
        };
        *self = n;
        Ok(())
    }
}

/// Closed is terminal: every event there leaves the session closed or is refused.
pub proof fn lemma_closed_is_terminal(e: SessionEvent)
    ensures
        match session_next(SessionState::Closed, e) {
            Some(n) => n == SessionState::Closed,
            None => true,
        },
{
}

} // verus!

verus! {

/// The number that spreads a conduit's traffic for `key` over links.
pub open spec fn stripe(ch: Channel, key: crate::message::ResKeyV) -> nat {
    let k: nat = match key {
        crate::message::ResKeyV::RId(id) => id as nat,
        crate::message::ResKeyV::RIdWithSuffix(id, _) => id as nat,
        crate::message::ResKeyV::RName(n) => n.len(),
    };
    ch.priority.spec_index() + k
}

impl TransportUnicastInner {
    /// The link that carries messages of `ch` for `key`: the stripe modulo
    /// the number of links, or, where that link just failed (`failed`), the
    /// next one. `None` where no other link is left.
    pub fn select_link(&self, ch: Channel, key: &crate::message::ResKey, failed: Option<usize>) -> (r: Option<usize>)
        ensures
            ({
                let n = self.links@.len();
                let first = if n > 0 { (stripe(ch, key@) % n) as int } else { 0 };
                if n == 0 {
                    r is None
                } else if failed == Some(first as usize) {
                    if n == 1 {
                        r is None
                    } else {
                        r == Some(((first + 1) % (n as int)) as usize)
                    }
                } else {
                    r == Some(first as usize)
                }
            }),
            r matches Some(i) ==> i < self.links@.len(),
    {
        let n = self.links.len();
        if n == 0 {
            return None;
        }
        let k: u64 = match key {
            crate::message::ResKey::RId(id) => *id % (n as u64),
            crate::message::ResKey::RIdWithSuffix(id, _) => *id % (n as u64),
            crate::message::ResKey::RName(name) => (name.len() % n) as u64,
        };
        let p = ch.priority.index() % n;
        let first = ((p as u128 + k as u128) % (n as u128)) as usize;
        proof {
            let kk: nat = match key@ {
                crate::message::ResKeyV::RId(id) => id as nat,
                crate::message::ResKeyV::RIdWithSuffix(id, _) => id as nat,
                crate::message::ResKeyV::RName(nm) => nm.len(),
            };
            let pi = ch.priority.spec_index();
            vstd::arithmetic::div_mod::lemma_add_mod_noop(pi as int, kk as int, n as int);
            assert(k == kk % (n as nat));
            assert(p == pi % (n as nat));
            assert(first == (pi + kk) % (n as nat));
        }
        match failed {
            Some(f) => if f == first {
                if n == 1 {
                    None
                } else {
                    Some((first + 1) % n)
                }
            } else {
                Some(first)
            },
            None => Some(first),
        }
    }
}

} // verus!

verus! {

/// With QoS, every channel has a conduit of its own whose frames carry that
/// very channel, so each priority arrives with its priority.
pub proof fn lemma_conduit_keeps_channel(ch: Channel)
    ensures
        conduit_channel(true, conduit_index(true, ch)) == ch,
        conduit_index(true, ch) < conduit_count(true),
{
    let i = conduit_index(true, ch);
    let p = ch.priority.spec_index();
    assert(i / 2 == p);
    assert(i % 2 == if ch.reliability == Reliability::Reliable { 0nat } else { 1nat });
}

} // verus!

verus! {

/// A session whose peer falls silent is declared dead at the first timer
/// tick past its lease: never before the lease has run out, and no later
/// than one tick after it.
pub proof fn lemma_session_lease_window(l: Liveness, t: u64, tick: u64)
    requires
        t <= l.last_rx + l.lease < t + tick,
        t + tick <= u64::MAX,
    ensures
        timer_action(l, t) != TimerAction::Expire,
        timer_action(l, (t + tick) as u64) == TimerAction::Expire,
{
}

} // verus!
