//! Batches: what one send on a link carries, bounded by the link's MTU.
//! Messages are appended to a frame while they fit; a message too large for
//! one batch is cut into fragments.
use vstd::prelude::*;
use crate::codec::{
    dec_transport, enc_transport, lemma_transport_round_trip, transport_valid, FramePayload,
    FramePayloadV, TransportMessage, TransportMessageV,
};
use crate::message::{enc_janu, enc_janu_all, janu_msgs_view, janu_valid, JanuMessage, JanuMessageV};
use crate::protocol::Channel;
use crate::varint::{lemma_varint_u64_len, varint};
use crate::fields::{enc_field, enc_fields, FieldV};

verus! {

/// The most bytes that a fragment's header, sequence number and length take.
pub const FRAGMENT_OVERHEAD: usize = 22;

/// A batch under construction: encoded bytes that never exceed `mtu`.
pub struct WBatch {
    pub buffer: Vec<u8>,
    pub mtu: usize,
    pub mark: usize,
}

impl WBatch {
    pub open spec fn wf(&self) -> bool {
        &&& self.buffer@.len() <= self.mtu
        &&& self.mark <= self.buffer@.len()
    }

    /// An empty batch for a link with the given MTU.
    pub fn new(mtu: usize) -> (r: WBatch)
        ensures
            r.wf(),
            r.buffer@ == Seq::<u8>::empty(),
            r.mtu == mtu,
            r.mark == 0,
    {
        WBatch { buffer: Vec::new(), mtu, mark: 0 }
    }

    pub fn len(&self) -> (r: usize)
        ensures
            r == self.buffer@.len(),
    {
        self.buffer.len()
    }

    pub fn is_empty(&self) -> (r: bool)
        ensures
            r == (self.buffer@.len() == 0),
    {
        self.buffer.len() == 0
    }

    /// Remembers the current length, to go back to it later.
    pub fn mark(&mut self)
        requires
            old(self).wf(),
        ensures
            final(self).wf(),
            final(self).buffer@ == old(self).buffer@,
            final(self).mtu == old(self).mtu,
            final(self).mark == old(self).buffer@.len(),
    {
        self.mark = self.buffer.len();
    }

    /// Drops what was written since the last mark.
    pub fn revert_to_mark(&mut self)
        requires
            old(self).wf(),
        ensures
            final(self).wf(),
            final(self).buffer@ == old(self).buffer@.subrange(0, old(self).mark as int),
            final(self).mtu == old(self).mtu,
            final(self).mark == old(self).mark,
    {
        self.buffer.truncate(self.mark);
    }

    /// Empties the batch.
    pub fn clear(&mut self)
        ensures
            final(self).wf(),
            final(self).buffer@ == Seq::<u8>::empty(),
            final(self).mtu == old(self).mtu,
    {
        self.buffer.clear();
        self.mark = 0;
    }

    /// Appends `bytes` if the batch stays within its MTU; says whether it did.
    pub fn append(&mut self, bytes: &Vec<u8>) -> (r: bool)
        requires
            old(self).wf(),
        ensures
            final(self).wf(),
            final(self).mtu == old(self).mtu,
            final(self).mark == old(self).mark,
            r == (old(self).buffer@.len() + bytes@.len() <= old(self).mtu),
            r ==> final(self).buffer@ == old(self).buffer@ + bytes@,
            !r ==> final(self).buffer@ == old(self).buffer@,
    {
        if bytes.len() > self.mtu - self.buffer.len() {
            return false;
        }
        let ghost pre = self.buffer@;
        let mut i: usize = 0;
        while i < bytes.len()
            invariant
                i <= bytes@.len(),
                self.buffer@ == pre + bytes@.subrange(0, i as int),
                pre.len() + bytes@.len() <= self.mtu,
                self.mtu == old(self).mtu,
                self.mark == old(self).mark,
                self.mark <= pre.len(),
            decreases bytes@.len() - i,
        {
            self.buffer.push(bytes[i]);
            assert(bytes@.subrange(0, i + 1) =~= bytes@.subrange(0, i as int).push(bytes@[i as int]));
            i = i + 1;
        }
        assert(bytes@.subrange(0, i as int) =~= bytes@);
        true
    }

    /// Writes a transport message if it fits; says whether it did.
    pub fn write_transport_message(&mut self, m: &TransportMessage) -> (r: bool)
        requires
            old(self).wf(),
        ensures
            final(self).wf(),
            final(self).mtu == old(self).mtu,
            r == (old(self).buffer@.len() + enc_transport(m@).len() <= old(self).mtu),
            r ==> final(self).buffer@ == old(self).buffer@ + enc_transport(m@),
            !r ==> final(self).buffer@ == old(self).buffer@,
    {
        let mut tmp: Vec<u8> = Vec::new();
        m.encode(&mut tmp);
        assert(tmp@ =~= enc_transport(m@));
        self.append(&tmp)
    }

    /// Opens a frame for whole messages on `channel` with sequence number `sn`, if it fits.
    pub fn write_frame_header(&mut self, channel: Channel, sn: u64) -> (r: bool)
        requires
            old(self).wf(),
        ensures
            final(self).wf(),
            final(self).mtu == old(self).mtu,
            r == (old(self).buffer@.len() + enc_transport(frame_of(channel, sn, Seq::empty())).len()
                <= old(self).mtu),
            r ==> final(self).buffer@ == old(self).buffer@ + enc_transport(
                frame_of(channel, sn, Seq::empty()),
            ),
            !r ==> final(self).buffer@ == old(self).buffer@,
    {
        let e: Vec<JanuMessage> = Vec::new();
        let f = TransportMessage::Frame { channel, sn, payload: FramePayload::Messages { messages: e } };
        assert(f@ == frame_of(channel, sn, Seq::empty())) by {
            assert(janu_msgs_view(e@) =~= Seq::<JanuMessageV>::empty());
        }
        self.write_transport_message(&f)
    }

    /// Appends an application message to the open frame, if it fits.
    pub fn write_janu_message(&mut self, m: &JanuMessage) -> (r: bool)
        requires
            old(self).wf(),
        ensures
            final(self).wf(),
            final(self).mtu == old(self).mtu,
            r == (old(self).buffer@.len() + enc_janu(m@).len() <= old(self).mtu),
            r ==> final(self).buffer@ == old(self).buffer@ + enc_janu(m@),
            !r ==> final(self).buffer@ == old(self).buffer@,
    {
        let mut tmp: Vec<u8> = Vec::new();
        m.encode(&mut tmp);
        assert(tmp@ =~= enc_janu(m@));
        self.append(&tmp)
    }
}

/// A frame of whole messages.
pub open spec fn frame_of(channel: Channel, sn: u64, ms: Seq<JanuMessageV>) -> TransportMessageV {
    TransportMessageV::Frame { channel, sn, payload: FramePayloadV::Messages { messages: ms } }
}

/// A frame's encoding is its header's followed by its messages'.
pub proof fn lemma_frame_bytes(channel: Channel, sn: u64, ms: Seq<JanuMessageV>)
    ensures
        enc_transport(frame_of(channel, sn, ms)) == enc_transport(frame_of(channel, sn, Seq::empty()))
            + enc_janu_all(ms),
{
    assert(enc_janu_all(Seq::<JanuMessageV>::empty()) =~= Seq::<u8>::empty());
    assert(enc_transport(frame_of(channel, sn, Seq::empty())) =~= enc_transport(
        frame_of(channel, sn, Seq::empty()),
    ) + Seq::<u8>::empty());
}

pub proof fn lemma_enc_janu_all_push(ms: Seq<JanuMessageV>, m: JanuMessageV)
    ensures
        enc_janu_all(ms.push(m)) == enc_janu_all(ms) + enc_janu(m),
    decreases ms.len(),
{
    if ms.len() == 0 {
        assert(ms.push(m).drop_first() =~= Seq::<JanuMessageV>::empty());
        assert(enc_janu_all(Seq::<JanuMessageV>::empty()) =~= Seq::<u8>::empty());
        assert(enc_janu_all(ms) =~= Seq::<u8>::empty());
        assert(enc_janu_all(ms.push(m)) =~= enc_janu(m));
    } else {
        assert(ms.push(m).drop_first() =~= ms.drop_first().push(m));
        lemma_enc_janu_all_push(ms.drop_first(), m);
        assert(enc_janu_all(ms.push(m)) =~= enc_janu_all(ms) + enc_janu(m));
    }
}

/// Fills a batch for a link of MTU `mtu` with a frame on `channel` holding
/// `msgs` in order, for as long as they fit. Returns the batch and how many
/// messages it holds; the batch is exactly the frame of those messages, and
/// where some are left the next one would not have fit.
pub fn fill_batch(mtu: usize, channel: Channel, sn: u64, msgs: &Vec<JanuMessage>) -> (r: (WBatch, usize))
    ensures
        r.0.wf(),
        r.0.mtu == mtu,
        r.1 <= msgs@.len(),
        r.0.buffer@.len() > 0 ==> r.0.buffer@ == enc_transport(
            frame_of(channel, sn, janu_msgs_view(msgs@).take(r.1 as int)),
        ),
        r.0.buffer@.len() == 0 ==> r.1 == 0 && enc_transport(frame_of(channel, sn, Seq::empty())).len() > mtu,
        r.1 < msgs@.len() && r.0.buffer@.len() > 0 ==> r.0.buffer@.len() + enc_janu(msgs@[r.1 as int]@).len() > mtu,
{
    let mut b = WBatch::new(mtu);
    if !b.write_frame_header(channel, sn) {
        return (b, 0);
    }
    let ghost ms = janu_msgs_view(msgs@);
    proof {
        assert(ms.take(0) =~= Seq::<JanuMessageV>::empty());
        lemma_frame_bytes(channel, sn, Seq::empty());
        assert(enc_janu_all(Seq::<JanuMessageV>::empty()) =~= Seq::<u8>::empty());
    }
    let mut k: usize = 0;
    while k < msgs.len()
        invariant
            b.wf(),
            b.mtu == mtu,
            k <= msgs@.len(),
            ms == janu_msgs_view(msgs@),
            b.buffer@ == enc_transport(frame_of(channel, sn, ms.take(k as int))),
            b.buffer@.len() > 0,
        decreases msgs@.len() - k,
    {
        let ghost pre = b.buffer@;
        if !b.write_janu_message(&msgs[k]) {
            return (b, k);
        }
        proof {
            lemma_frame_bytes(channel, sn, ms.take(k as int));
            lemma_frame_bytes(channel, sn, ms.take(k + 1));
            assert(ms.take(k + 1) =~= ms.take(k as int).push(ms[k as int]));
            lemma_enc_janu_all_push(ms.take(k as int), ms[k as int]);
            assert(b.buffer@ =~= enc_transport(frame_of(channel, sn, ms.take(k + 1))));
        }
        k = k + 1;
    }
    (b, k)
}

/// Decoding a filled batch gives back exactly the messages written into it, in order.
pub proof fn lemma_batch_round_trip(channel: Channel, sn: u64, ms: Seq<JanuMessageV>, k: nat)
    requires
        k <= ms.len(),
        forall|i: int| 0 <= i < ms.len() ==> janu_valid(#[trigger] ms[i]) && ms[i].channel == channel,
    ensures
        dec_transport(enc_transport(frame_of(channel, sn, ms.take(k as int)))) == Some(
            (
                frame_of(channel, sn, ms.take(k as int)),
                enc_transport(frame_of(channel, sn, ms.take(k as int))).len(),
            ),
        ),
{
    let t = ms.take(k as int);
    assert forall|i: int| 0 <= i < t.len() implies janu_valid(#[trigger] t[i]) && t[i].channel == channel by {
        assert(t[i] == ms[i]);
    }
    lemma_transport_round_trip(frame_of(channel, sn, t));
}

} // verus!

verus! {

/// How many message bytes one fragment carries on a link of MTU `mtu`.
pub open spec fn fragment_capacity(mtu: nat) -> nat {
    (mtu - FRAGMENT_OVERHEAD) as nat
}

/// How many fragments `len` bytes take, `cap` bytes to a fragment.
pub open spec fn fragment_count(len: nat, cap: nat) -> nat {
    ((len + cap - 1) as nat / cap) as nat
}

/// The bytes that fragment `i` carries.
pub open spec fn chunk(payload: Seq<u8>, i: nat, cap: nat) -> Seq<u8> {
    let start = i * cap;
    let end = if (i + 1) * cap <= payload.len() { (i + 1) * cap } else { payload.len() };
    payload.subrange(start as int, end as int)
}

/// Fragment `i` of `payload`, starting at sequence number `sn`.
pub open spec fn fragment_msg(channel: Channel, sn: u64, resolution: u64, payload: Seq<u8>, cap: nat, i: nat) -> TransportMessageV {
    TransportMessageV::Frame {
        channel,
        sn: ((sn + i) % (resolution as int)) as u64,
        payload: FramePayloadV::Fragment {
            buffer: chunk(payload, i, cap),
            is_final: i + 1 == fragment_count(payload.len(), cap),
        },
    }
}

/// A fragment's encoding is at most its bytes plus the overhead.
pub proof fn lemma_fragment_len(channel: Channel, sn: u64, buffer: Seq<u8>, is_final: bool)
    requires
        buffer.len() <= u64::MAX,
    ensures
        enc_transport(TransportMessageV::Frame { channel, sn, payload: FramePayloadV::Fragment { buffer, is_final } }).len()
            <= buffer.len() + FRAGMENT_OVERHEAD,
{
    let m = TransportMessageV::Frame { channel, sn, payload: FramePayloadV::Fragment { buffer, is_final } };
    let fs = crate::codec::transport_fields(m);
    let p = channel.priority.spec_index() as u64;
    assert(fs =~= seq![FieldV::Int(p), FieldV::Int(sn), FieldV::Bytes(buffer)]);
    reveal_with_fuel(enc_fields, 4);
    assert(fs.drop_first() =~= seq![FieldV::Int(sn), FieldV::Bytes(buffer)]);
    assert(fs.drop_first().drop_first() =~= seq![FieldV::Bytes(buffer)]);
    assert(fs.drop_first().drop_first().drop_first() =~= Seq::<FieldV>::empty());
    lemma_varint_u64_len(p);
    lemma_varint_u64_len(sn);
    lemma_varint_u64_len(buffer.len() as u64);
}

/// A frame's header takes three to twelve bytes.
pub proof fn lemma_frame_header_len(channel: Channel, sn: u64)
    ensures
        3 <= enc_transport(frame_of(channel, sn, Seq::empty())).len() <= 12,
{
    let m = frame_of(channel, sn, Seq::empty());
    let fs = crate::codec::transport_fields(m);
    let p = channel.priority.spec_index() as u64;
    assert(fs =~= seq![FieldV::Int(p), FieldV::Int(sn)]);
    reveal_with_fuel(enc_fields, 3);
    assert(fs.drop_first() =~= seq![FieldV::Int(sn)]);
    assert(fs.drop_first().drop_first() =~= Seq::<FieldV>::empty());
    assert(enc_janu_all(Seq::<JanuMessageV>::empty()) =~= Seq::<u8>::empty());
    lemma_varint_u64_len(p);
    lemma_varint_u64_len(sn);
    crate::varint::lemma_varint_len(p as nat);
    crate::varint::lemma_varint_len(sn as nat);
}

proof fn lemma_count_step(off: nat, i: nat, cap: nat, len: nat)
    requires
        cap > 0,
        off == i * cap,
        off < len,
        off + cap >= len,
    ensures
        fragment_count(len, cap) == i + 1,
{
    assert((len + cap - 1) as nat / cap == i + 1) by (nonlinear_arith)
        requires cap > 0, off == i * cap, off < len, off + cap >= len;
}

proof fn lemma_count_more(off: nat, i: nat, cap: nat, len: nat)
    requires
        cap > 0,
        off == i * cap,
        off + cap < len,
    ensures
        fragment_count(len, cap) > i + 1,
{
    assert((len + cap - 1) as nat / cap > i + 1) by (nonlinear_arith)
        requires cap > 0, off == i * cap, off + cap < len;
}

/// Cuts `payload` into fragments for a link of MTU `mtu`, on `channel`, with
/// sequence numbers from `sn` on, modulo `resolution`. Every fragment fits the
/// MTU; only the last is marked final.
pub fn fragment(channel: Channel, sn: u64, resolution: u64, payload: &Vec<u8>, mtu: usize) -> (r: Vec<Vec<u8>>)
    requires
        mtu > FRAGMENT_OVERHEAD,
        sn < resolution,
        payload@.len() > 0,
    ensures
        r@.len() == fragment_count(payload@.len(), fragment_capacity(mtu as nat)),
        forall|i: int| 0 <= i < r@.len() ==> #[trigger] r@[i]@ == enc_transport(
            fragment_msg(channel, sn, resolution, payload@, fragment_capacity(mtu as nat), i as nat),
        ),
        forall|i: int| 0 <= i < r@.len() ==> #[trigger] r@[i]@.len() <= mtu,
{
    let cap: usize = mtu - FRAGMENT_OVERHEAD;
    let ghost capn = fragment_capacity(mtu as nat);
    let len = payload.len();
    let mut out: Vec<Vec<u8>> = Vec::new();
    let mut off: usize = 0;
    let mut i: usize = 0;
    let mut cur: u64 = sn;
    proof {
        vstd::arithmetic::div_mod::lemma_small_mod(sn as nat, resolution as nat);
        assert((len + capn - 1) as nat / capn >= 1) by (nonlinear_arith)
            requires capn > 0, len >= 1;
    }
    while off < len
        invariant
            cap == capn,
            cap > 0,
            cap + FRAGMENT_OVERHEAD == mtu,
            capn == fragment_capacity(mtu as nat),
            len == payload@.len(),
            off < len ==> off == i * cap,
            off <= len,
            i <= off,
            off < len ==> fragment_count(len as nat, capn) > i,
            off >= len ==> fragment_count(len as nat, capn) == i,
            out@.len() == i,
            cur < resolution,
            cur == (sn + i) % (resolution as int),
            forall|j: int| 0 <= j < out@.len() ==> #[trigger] out@[j]@ == enc_transport(
                fragment_msg(channel, sn, resolution, payload@, capn, j as nat),
            ),
            forall|j: int| 0 <= j < out@.len() ==> #[trigger] out@[j]@.len() <= mtu,
        decreases len - off,
    {
        let end: usize = if cap <= len - off { off + cap } else { len };
        let mut buf: Vec<u8> = Vec::new();
        let mut j: usize = off;
        while j < end
            invariant
                off <= j <= end <= len,
                len == payload@.len(),
                buf@ == payload@.subrange(off as int, j as int),
            decreases end - j,
        {
            buf.push(payload[j]);
            assert(payload@.subrange(off as int, j + 1) =~= payload@.subrange(off as int, j as int).push(payload@[j as int]));
            j = j + 1;
        }
        let is_final = end == len;
        proof {
            assert((i + 1) * cap == off + cap) by (nonlinear_arith)
                requires off == i * cap;
            if is_final {
                lemma_count_step(off as nat, i as nat, capn, len as nat);
            } else {
                lemma_count_more(off as nat, i as nat, capn, len as nat);
            }
            assert(buf@ == chunk(payload@, i as nat, capn));
            assert(buf@.len() <= cap);
        }
        let ghost chunk_bytes = buf@;
        let m = TransportMessage::Frame {
            channel,
            sn: cur,
            payload: FramePayload::Fragment { buffer: buf, is_final },
        };
        let mut bytes: Vec<u8> = Vec::new();
        m.encode(&mut bytes);
        proof {
            assert(bytes@ =~= enc_transport(m@));
            assert(m@ == fragment_msg(channel, sn, resolution, payload@, capn, i as nat));
            lemma_fragment_len(channel, cur, chunk_bytes, is_final);
            assert(bytes@.len() <= mtu);
        }
        out.push(bytes);
        proof {
            if resolution == 1 {
                assert((sn + i + 1) % (resolution as int) == 0) by (nonlinear_arith)
                    requires resolution == 1;
            } else {
                vstd::arithmetic::div_mod::lemma_add_mod_noop((sn + i) as int, 1, resolution as int);
                vstd::arithmetic::div_mod::lemma_small_mod(1, resolution as nat);
                if cur + 1 == resolution {
                    vstd::arithmetic::div_mod::lemma_mod_self_0(resolution as int);
                } else {
                    vstd::arithmetic::div_mod::lemma_small_mod((cur + 1) as nat, resolution as nat);
                }
            }
            assert(i + 1 <= off + cap) by (nonlinear_arith)
                requires i <= off, cap >= 1;
        }
        cur = if cur + 1 == resolution { 0 } else { cur + 1 };
        off = end;
        i = i + 1;
        proof {
            if !is_final {
                assert(off == i * cap) by (nonlinear_arith)
                    requires off == (i - 1) * cap + cap;
            }
        }
    }
    out
}

/// The batches that carry one message on `channel` with sequence number `sn`:
/// one frame where the frame fits the MTU, fragments of its encoding where it does not.
pub fn serialize_message(channel: Channel, sn: u64, resolution: u64, m: &JanuMessage, mtu: usize) -> (r: Vec<Vec<u8>>)
    requires
        mtu > FRAGMENT_OVERHEAD,
        sn < resolution,
    ensures
        enc_transport(frame_of(channel, sn, seq![m@])).len() <= mtu ==> r@.len() == 1 && r@[0]@
            == enc_transport(frame_of(channel, sn, seq![m@])),
        enc_transport(frame_of(channel, sn, seq![m@])).len() > mtu ==> r@.len() == fragment_count(
            enc_janu(m@).len(),
            fragment_capacity(mtu as nat),
        ) && forall|i: int| 0 <= i < r@.len() ==> #[trigger] r@[i]@ == enc_transport(
            fragment_msg(channel, sn, resolution, enc_janu(m@), fragment_capacity(mtu as nat), i as nat),
        ),
        forall|i: int| 0 <= i < r@.len() ==> #[trigger] r@[i]@.len() <= mtu,
        r@.len() >= 1,
{
    let mut body: Vec<u8> = Vec::new();
    m.encode(&mut body);
    assert(body@ =~= enc_janu(m@));
    let mut frame: Vec<u8> = Vec::new();
    let e: Vec<JanuMessage> = Vec::new();
    let head = TransportMessage::Frame { channel, sn, payload: FramePayload::Messages { messages: e } };
    head.encode(&mut frame);
    proof {
        assert(janu_msgs_view(e@) =~= Seq::<JanuMessageV>::empty());
        lemma_frame_bytes(channel, sn, seq![m@]);
        assert(seq![m@].drop_first() =~= Seq::<JanuMessageV>::empty());
        assert(enc_janu_all(seq![m@]) =~= enc_janu(m@) + enc_janu_all(Seq::<JanuMessageV>::empty()));
        assert(enc_janu_all(Seq::<JanuMessageV>::empty()) =~= Seq::<u8>::empty());
    }
    if body.len() <= mtu && frame.len() <= mtu - body.len() {
        let mut i: usize = 0;
        let ghost pre = frame@;
        while i < body.len()
            invariant
                i <= body@.len(),
                frame@ == pre + body@.subrange(0, i as int),
            decreases body@.len() - i,
        {
            frame.push(body[i]);
            assert(body@.subrange(0, i + 1) =~= body@.subrange(0, i as int).push(body@[i as int]));
            i = i + 1;
        }
        assert(body@.subrange(0, i as int) =~= body@);
        assert(frame@ =~= enc_transport(frame_of(channel, sn, seq![m@])));
        let mut r: Vec<Vec<u8>> = Vec::new();
        r.push(frame);
        r
    } else {
        proof {
            let l = enc_janu(m@).len();
            let cap = fragment_capacity(mtu as nat);
            assert((l + cap - 1) as nat / cap >= 1) by (nonlinear_arith)
                requires cap > 0, l >= 1;
        }
        fragment(channel, sn, resolution, &body, mtu)
    }
}

/// A message whose frame is one byte over the MTU is cut into exactly two
/// fragments, on every link whose MTU and frame header together reach 45
/// bytes; on smaller links one fragment carries too little for two to do.
pub proof fn lemma_one_over_two_fragments(channel: Channel, sn: u64, m: JanuMessageV, mtu: nat)
    requires
        mtu + enc_transport(frame_of(channel, sn, Seq::empty())).len() >= 45,
        enc_transport(frame_of(channel, sn, seq![m])).len() == mtu + 1,
    ensures
        fragment_count(enc_janu(m).len(), fragment_capacity(mtu)) == 2,
{
    lemma_frame_bytes(channel, sn, seq![m]);
    assert(seq![m].drop_first() =~= Seq::<JanuMessageV>::empty());
    assert(enc_janu_all(seq![m]) =~= enc_janu(m) + enc_janu_all(Seq::<JanuMessageV>::empty()));
    assert(enc_janu_all(Seq::<JanuMessageV>::empty()) =~= Seq::<u8>::empty());
    lemma_frame_header_len(channel, sn);
    let l = enc_janu(m).len();
    let cap = fragment_capacity(mtu);
    assert(cap < l <= 2 * cap);
    assert((l + cap - 1) as nat / cap == 2) by (nonlinear_arith)
        requires cap > 0, cap < l, l <= 2 * cap;
}

/// Where the MTU and the frame header fall short of 45 bytes, a frame one
/// byte over the MTU takes more than two fragments.
pub proof fn lemma_one_over_small_link(channel: Channel, sn: u64, m: JanuMessageV, mtu: nat)
    requires
        mtu > FRAGMENT_OVERHEAD,
        mtu + enc_transport(frame_of(channel, sn, Seq::empty())).len() < 45,
        enc_transport(frame_of(channel, sn, seq![m])).len() == mtu + 1,
    ensures
        fragment_count(enc_janu(m).len(), fragment_capacity(mtu)) > 2,
{
    lemma_frame_bytes(channel, sn, seq![m]);
    assert(seq![m].drop_first() =~= Seq::<JanuMessageV>::empty());
    assert(enc_janu_all(seq![m]) =~= enc_janu(m) + enc_janu_all(Seq::<JanuMessageV>::empty()));
    assert(enc_janu_all(Seq::<JanuMessageV>::empty()) =~= Seq::<u8>::empty());
    let l = enc_janu(m).len();
    let cap = fragment_capacity(mtu);
    assert(l > 2 * cap);
    assert((l + cap - 1) as nat / cap > 2) by (nonlinear_arith)
        requires cap > 0, l > 2 * cap;
}

} // verus!

verus! {

/// The bytes of the first `n` fragments, joined in order.
pub open spec fn joined_chunks(payload: Seq<u8>, cap: nat, n: nat) -> Seq<u8>
    decreases n,
{
    if n == 0 {
        Seq::empty()
    } else {
        joined_chunks(payload, cap, (n - 1) as nat) + chunk(payload, (n - 1) as nat, cap)
    }
}

proof fn lemma_joined_prefix(payload: Seq<u8>, cap: nat, n: nat)
    requires
        cap > 0,
        n <= fragment_count(payload.len(), cap),
    ensures
        joined_chunks(payload, cap, n) == payload.take(if n * cap <= payload.len() { n * cap } else { payload.len() } as int),
    decreases n,
{
    let len = payload.len();
    if n == 0 {
        assert(payload.take(0) =~= Seq::<u8>::empty());
    } else {
        let k = (n - 1) as nat;
        lemma_joined_prefix(payload, cap, k);
        assert(k * cap < len) by (nonlinear_arith)
            requires n <= (len + cap - 1) as nat / cap, k + 1 == n, cap > 0;
        assert((k + 1) * cap == k * cap + cap) by (nonlinear_arith);
        let end = if n * cap <= len { n * cap } else { len };
        assert(joined_chunks(payload, cap, n) =~= payload.take(end as int));
    }
}

/// Joining the bytes of all the fragments of `payload`, in order, gives
/// `payload` back: what the receiver reassembles is what was cut.
pub proof fn lemma_fragments_reassemble(payload: Seq<u8>, mtu: nat)
    requires
        mtu > FRAGMENT_OVERHEAD,
        payload.len() > 0,
    ensures
        joined_chunks(payload, fragment_capacity(mtu), fragment_count(payload.len(), fragment_capacity(mtu)))
            == payload,
{
    let cap = fragment_capacity(mtu);
    let n = fragment_count(payload.len(), cap);
    lemma_joined_prefix(payload, cap, n);
    assert(n * cap >= payload.len()) by (nonlinear_arith)
        requires n == (payload.len() + cap - 1) as nat / cap, cap > 0;
    assert(payload.take(payload.len() as int) =~= payload);
}

} // verus!
