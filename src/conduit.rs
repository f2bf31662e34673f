//! Sequence numbers modulo a resolution, and the receiving side of a conduit.
use vstd::prelude::*;
use crate::protocol::{zerr, Reliability, ZError, ZErrorKind, ZResult};

verus! {

/// The default resolution of sequence numbers: two to the twenty-eighth.
pub const SN_RESOLUTION_DEFAULT: u64 = 0x1000_0000;

/// The sequence number after `sn`, modulo `res`.
pub open spec fn sn_next(sn: u64, res: u64) -> u64 {
    if sn + 1 >= res {
        0
    } else {
        (sn + 1) as u64
    }
}

/// How far `to` is ahead of `from`, modulo `res`.
pub open spec fn sn_gap(from: u64, to: u64, res: u64) -> nat {
    if to >= from {
        (to - from) as nat
    } else {
        (res - from + to) as nat
    }
}

/// Whether `sn` is ahead of `base` by at most half the resolution (it may be equal).
pub open spec fn sn_ahead(base: u64, sn: u64, res: u64) -> bool {
    sn_gap(base, sn, res) <= res / 2
}

/// A sequence number and its resolution.
#[derive(Clone, Copy, Debug, PartialEq, Eq, Structural)]
pub struct SeqNum {
    pub value: u64,
    pub resolution: u64,
}

impl SeqNum {
    pub open spec fn wf(self) -> bool {
        0 < self.resolution && self.value < self.resolution
    }

    /// A sequence number `value` of resolution `resolution`; an error where
    /// the resolution is zero or the value is not below it.
    pub fn make(value: u64, resolution: u64) -> (r: ZResult<SeqNum>)
        ensures
            0 < resolution && value < resolution ==> r == Ok::<SeqNum, ZError>(SeqNum { value, resolution }),
            !(0 < resolution && value < resolution) ==> r == zerr::<SeqNum>(ZErrorKind::Other),
    {
        if resolution == 0 || value >= resolution {
            Err(ZError { kind: ZErrorKind::Other })
        } else {
            Ok(SeqNum { value, resolution })
        }
    }

    pub fn get(&self) -> (r: u64)
        ensures
            r == self.value,
    {
        self.value
    }

    /// Sets the value; an error, and no change, where it is not below the resolution.
    pub fn set(&mut self, value: u64) -> (r: ZResult<()>)
        requires
            old(self).wf(),
        ensures
            final(self).wf(),
            final(self).resolution == old(self).resolution,
            value < old(self).resolution ==> r is Ok && final(self).value == value,
            value >= old(self).resolution ==> r == zerr::<()>(ZErrorKind::Other) && *final(self) == *old(self),
    {
        if value >= self.resolution {
            return Err(ZError { kind: ZErrorKind::Other });
        }
        self.value = value;
        Ok(())
    }

    /// Moves to the next value, wrapping to zero at the resolution.
    pub fn increment(&mut self)
        requires
            old(self).wf(),
        ensures
            final(self).wf(),
            final(self).resolution == old(self).resolution,
            final(self).value == sn_next(old(self).value, old(self).resolution),
    {
        self.value = if self.value + 1 >= self.resolution { 0 } else { self.value + 1 };
    }

    /// Whether `sn` comes after this value, within half the resolution.
    pub fn precedes(&self, sn: u64) -> (r: bool)
        requires
            self.wf(),
            sn < self.resolution,
        ensures
            r == (sn != self.value && sn_ahead(self.value, sn, self.resolution)),
    {
        if sn == self.value {
            return false;
        }
        let gap = if sn >= self.value { sn - self.value } else { self.resolution - self.value + sn };
        gap <= self.resolution / 2
    }
}

/// Hands out the sequence numbers of one sending conduit, in turn.
pub struct SeqNumGenerator {
    pub sn: SeqNum,
}

impl SeqNumGenerator {
    pub fn new(initial: u64, resolution: u64) -> (r: ZResult<SeqNumGenerator>)
        ensures
            0 < resolution && initial < resolution ==> (r matches Ok(g) && g.sn == (SeqNum { value: initial, resolution })),
            !(0 < resolution && initial < resolution) ==> r is Err,
    {
        match SeqNum::make(initial, resolution) {
            Ok(sn) => Ok(SeqNumGenerator { sn }),
            Err(e) => Err(e),
        }
    }

    /// The next sequence number to use; the one after it is next in turn.
    pub fn get(&mut self) -> (r: u64)
        requires
            old(self).sn.wf(),
        ensures
            r == old(self).sn.value,
            final(self).sn.wf(),
            final(self).sn.resolution == old(self).sn.resolution,
            final(self).sn.value == sn_next(old(self).sn.value, old(self).sn.resolution),
    {
        let r = self.sn.get();
        self.sn.increment();
        r
    }
}

/// What a receiving conduit does with an incoming sequence number.
#[derive(Clone, Copy, Debug, PartialEq, Eq, Structural)]
pub enum RxOutcome {
    /// Hand the message to the callback.
    Deliver,
    /// Already delivered: drop it.
    Duplicate,
    /// Ahead of what is expected: drop it and ask for what is missing.
    Gap,
}

/// The receiving side of a conduit: the sequence number expected next.
#[derive(Clone, Copy, Debug, PartialEq, Eq, Structural)]
pub struct RxConduit {
    pub reliability: Reliability,
    pub expected: u64,
    pub resolution: u64,
}

/// What a conduit does with `sn` while it expects `expected`.
pub open spec fn rx_outcome(reliability: Reliability, expected: u64, sn: u64, res: u64) -> RxOutcome {
    if sn == expected {
        RxOutcome::Deliver
    } else if sn_ahead(expected, sn, res) {
        if reliability == Reliability::Reliable {
            RxOutcome::Gap
        } else {
            RxOutcome::Deliver
        }
    } else {
        RxOutcome::Duplicate
    }
}

/// What a conduit expects after it saw `sn` while it expected `expected`.
pub open spec fn rx_expected_after(reliability: Reliability, expected: u64, sn: u64, res: u64) -> u64 {
    if rx_outcome(reliability, expected, sn, res) == RxOutcome::Deliver {
        sn_next(sn, res)
    } else {
        expected
    }
}

impl RxConduit {
    pub open spec fn wf(self) -> bool {
        0 < self.resolution && self.expected < self.resolution
    }

    pub fn new(reliability: Reliability, initial: u64, resolution: u64) -> (r: ZResult<RxConduit>)
        ensures
            0 < resolution && initial < resolution ==> r == Ok::<RxConduit, ZError>(
                RxConduit { reliability, expected: initial, resolution },
            ),
            !(0 < resolution && initial < resolution) ==> r == zerr::<RxConduit>(ZErrorKind::Other),
    {
        if resolution == 0 || initial >= resolution {
            Err(ZError { kind: ZErrorKind::Other })
        } else {
            Ok(RxConduit { reliability, expected: initial, resolution })
        }
    }

    /// Takes in a frame's sequence number: a reliable conduit delivers only
    /// the expected one, a best-effort one also any that is ahead of it.
    pub fn receive(&mut self, sn: u64) -> (r: RxOutcome)
        requires
            old(self).wf(),
            sn < old(self).resolution,
        ensures
            final(self).wf(),
            final(self).reliability == old(self).reliability,
            final(self).resolution == old(self).resolution,
            r == rx_outcome(old(self).reliability, old(self).expected, sn, old(self).resolution),
            final(self).expected == rx_expected_after(
                old(self).reliability,
                old(self).expected,
                sn,
                old(self).resolution,
            ),
    {
        let base = SeqNum { value: self.expected, resolution: self.resolution };
        let r = if sn == self.expected {
            RxOutcome::Deliver
        } else if base.precedes(sn) {
            match self.reliability {
                Reliability::Reliable => RxOutcome::Gap,
                Reliability::BestEffort => RxOutcome::Deliver,
            }
        } else {
            RxOutcome::Duplicate
        };
        if let RxOutcome::Deliver = r {
            self.expected = if sn + 1 >= self.resolution { 0 } else { sn + 1 };
        }
        r
    }
}

/// What a reliable conduit that first expects `e` expects after seeing `sns`.
pub open spec fn reliable_expected(e: u64, res: u64, sns: Seq<u64>) -> u64
    decreases sns.len(),
{
    if sns.len() == 0 {
        e
    } else {
        let x = reliable_expected(e, res, sns.drop_last());
        rx_expected_after(Reliability::Reliable, x, sns.last(), res)
    }
}

/// The sequence numbers that a reliable conduit that first expects `e`
/// delivers, in order, when it sees `sns`.
pub open spec fn reliable_delivered(e: u64, res: u64, sns: Seq<u64>) -> Seq<u64>
    decreases sns.len(),
{
    if sns.len() == 0 {
        Seq::empty()
    } else {
        let d = reliable_delivered(e, res, sns.drop_last());
        let x = reliable_expected(e, res, sns.drop_last());
        if rx_outcome(Reliability::Reliable, x, sns.last(), res) == RxOutcome::Deliver {
            d.push(sns.last())
        } else {
            d
        }
    }
}

/// A reliable conduit delivers a contiguous run of sequence numbers, modulo
/// the resolution, starting at the one it first expects, whatever it is
/// sent; and it then expects the number after the run.
pub proof fn lemma_reliable_continuity(e: u64, res: u64, sns: Seq<u64>)
    requires
        e < res,
    ensures
        forall|i: int| 0 <= i < reliable_delivered(e, res, sns).len() ==>
            #[trigger] reliable_delivered(e, res, sns)[i] == (e + i) % (res as int),
        reliable_expected(e, res, sns) == (e + reliable_delivered(e, res, sns).len()) % (res as int),
    decreases sns.len(),
{
    vstd::arithmetic::div_mod::lemma_small_mod(e as nat, res as nat);
    if sns.len() > 0 {
        let p = sns.drop_last();
        lemma_reliable_continuity(e, res, p);
        let x = reliable_expected(e, res, p);
        let n = reliable_delivered(e, res, p).len();
        if rx_outcome(Reliability::Reliable, x, sns.last(), res) == RxOutcome::Deliver {
            assert(sns.last() == x);
            lemma_mod_next(e as int + n, res as int);
        }
    }
}

pub proof fn lemma_mod_next(a: int, m: int)
    requires
        a >= 0,
        0 < m <= u64::MAX,
    ensures
        (a + 1) % m == sn_next((a % m) as u64, m as u64),
        a % m < m,
{
    if m == 1 {
        assert((a + 1) % m == 0) by (nonlinear_arith)
            requires m == 1;
        assert(a % m == 0) by (nonlinear_arith)
            requires m == 1;
    } else {
        vstd::arithmetic::div_mod::lemma_add_mod_noop(a, 1, m);
        vstd::arithmetic::div_mod::lemma_small_mod(1, m as nat);
        vstd::arithmetic::div_mod::lemma_mod_bound(a, m);
        if a % m + 1 == m {
            vstd::arithmetic::div_mod::lemma_mod_self_0(m);
        } else {
            vstd::arithmetic::div_mod::lemma_small_mod((a % m + 1) as nat, m as nat);
        }
    }
}

/// A reliable conduit never delivers one sequence number twice among fewer
/// deliveries than the resolution, whatever it is sent, retransmissions included.
pub proof fn lemma_reliable_at_most_once(e: u64, res: u64, sns: Seq<u64>, i: int, j: int)
    requires
        e < res,
        0 <= i < j < reliable_delivered(e, res, sns).len(),
        j - i < res,
    ensures
        reliable_delivered(e, res, sns)[i] != reliable_delivered(e, res, sns)[j],
{
    lemma_reliable_continuity(e, res, sns);
    let d = reliable_delivered(e, res, sns);
    assert(d[i] == (e + i) % (res as int));
    assert(d[j] == (e + j) % (res as int));
    if (e + i) % (res as int) == (e + j) % (res as int) {
        vstd::arithmetic::div_mod::lemma_fundamental_div_mod(e + i, res as int);
        vstd::arithmetic::div_mod::lemma_fundamental_div_mod(e + j, res as int);
        let qi = (e + i) / (res as int);
        let qj = (e + j) / (res as int);
        assert(false) by (nonlinear_arith)
            requires
                e + i == res * qi + (e + i) % (res as int),
                e + j == res * qj + (e + j) % (res as int),
                (e + i) % (res as int) == (e + j) % (res as int),
                0 < j - i < res,
                res > 0;
    }
}

} // verus!

verus! {

/// The batches of `s` whose bit is set in `mask`, lowest bit first.
pub open spec fn masked(s: Seq<Seq<u8>>, mask: nat) -> Seq<Seq<u8>>
    decreases s.len(),
{
    if s.len() == 0 {
        Seq::empty()
    } else {
        (if mask % 2 == 1 { seq![s[0]] } else { Seq::empty() }) + masked(s.drop_first(), mask / 2)
    }
}

/// The mask with the `k` lowest bits set.
pub open spec fn low_bits(k: nat) -> nat
    decreases k,
{
    if k == 0 {
        0
    } else {
        2 * low_bits((k - 1) as nat) + 1
    }
}

pub open spec fn bytes_seqs(v: Seq<Vec<u8>>) -> Seq<Seq<u8>> {
    v.map_values(|b: Vec<u8>| b@)
}

/// The sending side of a reliable conduit: the batches sent and not yet
/// acknowledged, for the sequence numbers from `base` on, at most `capacity` of them.
#[derive(Debug)]
pub struct TxWindow {
    pub resolution: u64,
    pub base: u64,
    pub entries: Vec<Vec<u8>>,
    pub capacity: usize,
}

/// How many batches an acknowledgement of everything before `sn` frees, where
/// it falls within the window; none where it does not.
pub open spec fn acked_count(base: u64, sn: u64, res: u64, len: nat) -> nat {
    if sn_gap(base, sn, res) <= len {
        sn_gap(base, sn, res)
    } else {
        0
    }
}

impl TxWindow {
    pub open spec fn wf(&self) -> bool {
        &&& 0 < self.resolution
        &&& self.base < self.resolution
        &&& self.entries@.len() <= self.capacity
        &&& self.capacity < self.resolution
    }

    pub open spec fn view_entries(&self) -> Seq<Seq<u8>> {
        bytes_seqs(self.entries@)
    }

    /// The sequence number that the next batch must carry.
    pub open spec fn next_sn(&self) -> u64 {
        ((self.base + self.entries@.len()) % (self.resolution as int)) as u64
    }

    pub fn new(base: u64, resolution: u64, capacity: usize) -> (r: ZResult<TxWindow>)
        ensures
            (0 < resolution && base < resolution && capacity < resolution) ==> (r matches Ok(w) && w.wf()
                && w.base == base && w.resolution == resolution && w.capacity == capacity
                && w.entries@.len() == 0),
            !(0 < resolution && base < resolution && capacity < resolution) ==> r == zerr::<TxWindow>(ZErrorKind::Other),
    {
        if resolution == 0 || base >= resolution || capacity as u64 >= resolution {
            return Err(ZError { kind: ZErrorKind::Other });
        }
        Ok(TxWindow { resolution, base, entries: Vec::new(), capacity })
    }

    /// Keeps `batch` until it is acknowledged; an error, and no change, where the window is full.
    pub fn push(&mut self, batch: Vec<u8>) -> (r: ZResult<()>)
        requires
            old(self).wf(),
        ensures
            final(self).wf(),
            final(self).base == old(self).base,
            final(self).resolution == old(self).resolution,
            final(self).capacity == old(self).capacity,
            old(self).entries@.len() < old(self).capacity ==> r is Ok && final(self).view_entries()
                == old(self).view_entries().push(batch@),
            old(self).entries@.len() >= old(self).capacity ==> r == zerr::<()>(ZErrorKind::WouldBlock)
                && final(self).entries == old(self).entries,
    {
        if self.entries.len() >= self.capacity {
            return Err(ZError { kind: ZErrorKind::WouldBlock });
        }
        let ghost pre = self.view_entries();
        let ghost bv = batch@;
        self.entries.push(batch);
        assert(self.view_entries() =~= pre.push(bv));
        Ok(())
    }

    /// Takes in an AckNack: the peer has everything before `sn`, and misses
    /// the batches from `sn` on whose bits `mask` sets. Frees what is
    /// acknowledged and hands back what to send again, in order.
    pub fn acknack(&mut self, sn: u64, mask: Option<u64>) -> (r: Vec<Vec<u8>>)
        requires
            old(self).wf(),
            sn < old(self).resolution,
        ensures
            final(self).wf(),
            final(self).resolution == old(self).resolution,
            final(self).capacity == old(self).capacity,
            ({
                let k = acked_count(old(self).base, sn, old(self).resolution, old(self).entries@.len());
                let rest = old(self).view_entries().skip(k as int);
                &&& final(self).view_entries() == rest
                &&& final(self).base == if sn_gap(old(self).base, sn, old(self).resolution)
                    <= old(self).entries@.len() {
                    sn
                } else {
                    old(self).base
                }
                &&& bytes_seqs(r@) == match mask {
                    Some(m) => masked(rest, m as nat),
                    None => Seq::<Seq<u8>>::empty(),
                }
            }),
    {
        let len = self.entries.len();
        let gap: u64 = if sn >= self.base { sn - self.base } else { self.resolution - self.base + sn };
        let ghost all = self.view_entries();
        if gap <= len as u64 {
            let k = gap as usize;
            let mut j: usize = 0;
            assert(all.skip(0) =~= all);
            while j < k
                invariant
                    j <= k <= all.len(),
                    self.view_entries() == all.skip(j as int),
                    self.entries@.len() == all.len() - j,
                    self.resolution == old(self).resolution,
                    self.capacity == old(self).capacity,
                    self.base == old(self).base,
                    self.entries@.len() <= self.capacity,
                decreases k - j,
            {
                let ghost pre = self.view_entries();
                self.entries.remove(0);
                assert(self.view_entries() =~= pre.drop_first());
                assert(all.skip(j as int).drop_first() =~= all.skip(j + 1));
                j = j + 1;
            }
            self.base = sn;
        } else {
            assert(all.skip(0) =~= all);
        }
        let mut out: Vec<Vec<u8>> = Vec::new();
        match mask {
            None => {
                assert(bytes_seqs(out@) =~= Seq::<Seq<u8>>::empty());
                out
            },
            Some(m0) => {
                let ghost rest = self.view_entries();
                let mut m: u64 = m0;
                let mut i: usize = 0;
                assert(rest.skip(0) =~= rest);
                assert(bytes_seqs(out@) =~= Seq::<Seq<u8>>::empty());
                while i < self.entries.len()
                    invariant
                        i <= self.entries@.len(),
                        rest == self.view_entries(),
                        bytes_seqs(out@) + masked(rest.skip(i as int), m as nat) == masked(rest, m0 as nat),
                    decreases self.entries@.len() - i,
                {
                    let ghost t = rest.skip(i as int);
                    assert(t[0] == rest[i as int]);
                    assert(t.drop_first() =~= rest.skip(i + 1));
                    let ghost pre = bytes_seqs(out@);
                    if m % 2 == 1 {
                        let b = crate::protocol::bytes_copy(&self.entries[i]);
                        out.push(b);
                        assert(bytes_seqs(out@) =~= pre.push(rest[i as int]));
                        assert(pre + masked(t, m as nat) =~= bytes_seqs(out@) + masked(rest.skip(i + 1), (m / 2) as nat));
                    } else {
                        assert(pre + masked(t, m as nat) =~= bytes_seqs(out@) + masked(rest.skip(i + 1), (m / 2) as nat));
                    }
                    m = m / 2;
                    i = i + 1;
                }
                assert(rest.skip(i as int) =~= Seq::<Seq<u8>>::empty());
                assert(bytes_seqs(out@) + Seq::<Seq<u8>>::empty() =~= bytes_seqs(out@));
                out
            },
        }
    }

    /// The Sync that asks the peer which of the kept batches it misses.
    pub fn sync_message(&self) -> (r: crate::codec::TransportMessage)
        ensures
            r@ == (crate::codec::TransportMessageV::Sync {
                reliability: Reliability::Reliable,
                sn: self.base,
                count: Some(self.entries@.len() as u64),
            }),
    {
        crate::codec::TransportMessage::Sync {
            reliability: Reliability::Reliable,
            sn: self.base,
            count: Some(self.entries.len() as u64),
        }
    }
}

/// The mask with the `k` lowest bits set, for `k` up to 64.
pub fn low_mask(k: u64) -> (r: u64)
    requires
        k <= 64,
    ensures
        r == low_bits(k as nat),
{
    let mut r: u64 = 0;
    let mut i: u64 = 0;
    proof {
        vstd::arithmetic::power2::lemma2_to64();
    }
    while i < k
        invariant
            i <= k <= 64,
            r == low_bits(i as nat),
            r < vstd::arithmetic::power2::pow2(i as nat),
        decreases k - i,
    {
        proof {
            vstd::arithmetic::power2::lemma_pow2_unfold((i + 1) as nat);
            vstd::arithmetic::power2::lemma2_to64();
            if i + 1 < 64 {
                vstd::arithmetic::power2::lemma_pow2_strictly_increases((i + 1) as nat, 64);
            }
            assert(2 * r + 1 < vstd::arithmetic::power2::pow2((i + 1) as nat));
        }
        r = 2 * r + 1;
        i = i + 1;
    }
    r
}

impl RxConduit {
    /// The AckNack that answers a Sync for `count` batches from `sn`: the
    /// peer is told what is expected next, and that every batch from there
    /// to the end of what it holds is missing, at most 64 of them. Where
    /// what is expected lies past that end, nothing is missing.
    pub fn acknack_for_sync(&self, sn: u64, count: u64) -> (r: crate::codec::TransportMessage)
        requires
            self.wf(),
            sn < self.resolution,
        ensures
            ({
                let end = ((sn + count) % (self.resolution as int)) as u64;
                let g = sn_gap(self.expected, end, self.resolution);
                let missing = if g <= count { g } else { 0 };
                r@ == (crate::codec::TransportMessageV::AckNack {
                    sn: self.expected,
                    mask: Some(low_bits(if missing > 64 { 64 } else { missing }) as u64),
                })
            }),
    {
        let end: u64 = ((sn as u128 + count as u128) % (self.resolution as u128)) as u64;
        let g: u64 = if end >= self.expected { end - self.expected } else { self.resolution - self.expected + end };
        let missing: u64 = if g <= count { g } else { 0 };
        let k: u64 = if missing > 64 { 64 } else { missing };
        crate::codec::TransportMessage::AckNack { sn: self.expected, mask: Some(low_mask(k)) }
    }
}

} // verus!
