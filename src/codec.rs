//! Transport messages, the wire unit between peers, and their codec.
use vstd::prelude::*;
use crate::fields::{
    bytes_at, bytes_fit, dec_fields, enc_fields, field_bytes, field_fits, field_int, fields_view,
    int_at, kinds_of, lemma_fields_round_trip, read_fields, write_fields, Field, FieldKind, FieldV,
};
use crate::message::{
    dec_janu, dec_janu_all, enc_janu, enc_janu_all, hflag1, hflag2, hflag3, hkind,
    janu_msgs_view, janu_valid, lemma_header, lemma_janu_all_round_trip, make_header, mk_header,
    JanuMessage, JanuMessageV,
};
use crate::protocol::{pid_valid, Channel, PeerId, Priority, Reliability, WhatAmI};

verus! {

/// The payload of a frame: a piece of a larger message, or whole messages back to back.
#[derive(Debug, PartialEq, Eq)]
pub enum FramePayload {
    Fragment { buffer: Vec<u8>, is_final: bool },
    Messages { messages: Vec<JanuMessage> },
}

pub enum FramePayloadV {
    Fragment { buffer: Seq<u8>, is_final: bool },
    Messages { messages: Seq<JanuMessageV> },
}

impl View for FramePayload {
    type V = FramePayloadV;

    open spec fn view(&self) -> FramePayloadV {
        match self {
            FramePayload::Fragment { buffer, is_final } => FramePayloadV::Fragment {
                buffer: buffer@,
                is_final: *is_final,
            },
            FramePayload::Messages { messages } => FramePayloadV::Messages {
                messages: janu_msgs_view(messages@),
            },
        }
    }
}

/// A message of the wire protocol between two peers.
#[derive(Debug, PartialEq, Eq)]
pub enum TransportMessage {
    InitSyn { version: u8, whatami: WhatAmI, pid: PeerId, sn_resolution: u64, is_qos: bool },
    InitAck { whatami: WhatAmI, pid: PeerId, sn_resolution: u64, is_qos: bool, cookie: Vec<u8> },
    OpenSyn { lease: u64, initial_sn: u64, cookie: Vec<u8> },
    OpenAck { lease: u64, initial_sn: u64 },
    Close { pid: Option<PeerId>, reason: u8, link_only: bool },
    KeepAlive { pid: Option<PeerId> },
    Sync { reliability: Reliability, sn: u64, count: Option<u64> },
    AckNack { sn: u64, mask: Option<u64> },
    Join {
        version: u8,
        whatami: WhatAmI,
        pid: PeerId,
        lease: u64,
        sn_resolution: u64,
        next_sn_reliable: u64,
        next_sn_best_effort: u64,
        is_qos: bool,
    },
    Frame { channel: Channel, sn: u64, payload: FramePayload },
}

pub enum TransportMessageV {
    InitSyn { version: u8, whatami: WhatAmI, pid: Seq<u8>, sn_resolution: u64, is_qos: bool },
    InitAck { whatami: WhatAmI, pid: Seq<u8>, sn_resolution: u64, is_qos: bool, cookie: Seq<u8> },
    OpenSyn { lease: u64, initial_sn: u64, cookie: Seq<u8> },
    OpenAck { lease: u64, initial_sn: u64 },
    Close { pid: Option<Seq<u8>>, reason: u8, link_only: bool },
    KeepAlive { pid: Option<Seq<u8>> },
    Sync { reliability: Reliability, sn: u64, count: Option<u64> },
    AckNack { sn: u64, mask: Option<u64> },
    Join {
        version: u8,
        whatami: WhatAmI,
        pid: Seq<u8>,
        lease: u64,
        sn_resolution: u64,
        next_sn_reliable: u64,
        next_sn_best_effort: u64,
        is_qos: bool,
    },
    Frame { channel: Channel, sn: u64, payload: FramePayloadV },
}

pub open spec fn opt_pid_view(p: Option<PeerId>) -> Option<Seq<u8>> {
    match p {
        Some(x) => Some(x@),
        None => None,
    }
}

impl View for TransportMessage {
    type V = TransportMessageV;

    open spec fn view(&self) -> TransportMessageV {
        match self {
            TransportMessage::InitSyn { version, whatami, pid, sn_resolution, is_qos } =>
                TransportMessageV::InitSyn {
                version: *version,
                whatami: *whatami,
                pid: pid@,
                sn_resolution: *sn_resolution,
                is_qos: *is_qos,
            },
            TransportMessage::InitAck { whatami, pid, sn_resolution, is_qos, cookie } =>
                TransportMessageV::InitAck {
                whatami: *whatami,
                pid: pid@,
                sn_resolution: *sn_resolution,
                is_qos: *is_qos,
                cookie: cookie@,
            },
            TransportMessage::OpenSyn { lease, initial_sn, cookie } => TransportMessageV::OpenSyn {
                lease: *lease,
                initial_sn: *initial_sn,
                cookie: cookie@,
            },
            TransportMessage::OpenAck { lease, initial_sn } => TransportMessageV::OpenAck {
                lease: *lease,
                initial_sn: *initial_sn,
            },
            TransportMessage::Close { pid, reason, link_only } => TransportMessageV::Close {
                pid: opt_pid_view(*pid),
                reason: *reason,
                link_only: *link_only,
            },
            TransportMessage::KeepAlive { pid } => TransportMessageV::KeepAlive {
                pid: opt_pid_view(*pid),
            },
            TransportMessage::Sync { reliability, sn, count } => TransportMessageV::Sync {
                reliability: *reliability,
                sn: *sn,
                count: *count,
            },
            TransportMessage::AckNack { sn, mask } => TransportMessageV::AckNack {
                sn: *sn,
                mask: *mask,
            },
            TransportMessage::Join {
                version,
                whatami,
                pid,
                lease,
                sn_resolution,
                next_sn_reliable,
                next_sn_best_effort,
                is_qos,
            } => TransportMessageV::Join {
                version: *version,
                whatami: *whatami,
                pid: pid@,
                lease: *lease,
                sn_resolution: *sn_resolution,
                next_sn_reliable: *next_sn_reliable,
                next_sn_best_effort: *next_sn_best_effort,
                is_qos: *is_qos,
            },
            TransportMessage::Frame { channel, sn, payload } => TransportMessageV::Frame {
                channel: *channel,
                sn: *sn,
                payload: payload@,
            },
        }
    }
}

pub const INIT_SYN: u8 = 0x01;
pub const INIT_ACK: u8 = 0x02;
pub const OPEN_SYN: u8 = 0x03;
pub const OPEN_ACK: u8 = 0x04;
pub const CLOSE: u8 = 0x05;
pub const KEEP_ALIVE: u8 = 0x06;
pub const SYNC: u8 = 0x07;
pub const ACK_NACK: u8 = 0x08;
pub const JOIN: u8 = 0x09;
pub const FRAME: u8 = 0x0a;

pub open spec fn opt_pid_valid(p: Option<Seq<u8>>) -> bool {
    match p {
        Some(x) => pid_valid(x),
        None => true,
    }
}

/// A message that the codec can write: identifiers of one to sixteen bytes,
/// and a frame's messages valid and on the frame's own channel.
pub open spec fn transport_valid(m: TransportMessageV) -> bool {
    match m {
        TransportMessageV::InitSyn { pid, .. } => pid_valid(pid),
        TransportMessageV::InitAck { pid, cookie, .. } => pid_valid(pid) && bytes_fit(cookie),
        TransportMessageV::OpenSyn { cookie, .. } => bytes_fit(cookie),
        TransportMessageV::OpenAck { .. } => true,
        TransportMessageV::Close { pid, .. } => opt_pid_valid(pid),
        TransportMessageV::KeepAlive { pid } => opt_pid_valid(pid),
        TransportMessageV::Sync { .. } => true,
        TransportMessageV::AckNack { .. } => true,
        TransportMessageV::Join { pid, .. } => pid_valid(pid),
        TransportMessageV::Frame { channel, payload, .. } => match payload {
            FramePayloadV::Fragment { buffer, .. } => bytes_fit(buffer),
            FramePayloadV::Messages { messages } => forall|i: int|
                0 <= i < messages.len() ==> janu_valid(#[trigger] messages[i])
                    && messages[i].channel == channel,
        },
    }
}

pub open spec fn is_reliable(r: Reliability) -> bool {
    r == Reliability::Reliable
}

pub open spec fn transport_header(m: TransportMessageV) -> u8 {
    match m {
        TransportMessageV::InitSyn { is_qos, .. } => mk_header(INIT_SYN, is_qos, false, false),
        TransportMessageV::InitAck { is_qos, .. } => mk_header(INIT_ACK, is_qos, false, false),
        TransportMessageV::OpenSyn { .. } => mk_header(OPEN_SYN, false, false, false),
        TransportMessageV::OpenAck { .. } => mk_header(OPEN_ACK, false, false, false),
        TransportMessageV::Close { pid, link_only, .. } => mk_header(CLOSE, pid is Some, link_only, false),
        TransportMessageV::KeepAlive { pid } => mk_header(KEEP_ALIVE, pid is Some, false, false),
        TransportMessageV::Sync { reliability, count, .. } => mk_header(
            SYNC,
            is_reliable(reliability),
            count is Some,
            false,
        ),
        TransportMessageV::AckNack { mask, .. } => mk_header(ACK_NACK, mask is Some, false, false),
        TransportMessageV::Join { is_qos, .. } => mk_header(JOIN, is_qos, false, false),
        TransportMessageV::Frame { channel, payload, .. } => match payload {
            FramePayloadV::Fragment { is_final, .. } => mk_header(
                FRAME,
                is_reliable(channel.reliability),
                true,
                is_final,
            ),
            FramePayloadV::Messages { .. } => mk_header(
                FRAME,
                is_reliable(channel.reliability),
                false,
                false,
            ),
        },
    }
}

pub open spec fn opt_pid_fields(p: Option<Seq<u8>>) -> Seq<FieldV> {
    match p {
        Some(x) => seq![FieldV::Bytes(x)],
        None => Seq::empty(),
    }
}

pub open spec fn opt_int_fields(p: Option<u64>) -> Seq<FieldV> {
    match p {
        Some(x) => seq![FieldV::Int(x)],
        None => Seq::empty(),
    }
}

pub open spec fn transport_fields(m: TransportMessageV) -> Seq<FieldV> {
    match m {
        TransportMessageV::InitSyn { version, whatami, pid, sn_resolution, .. } => seq![
            FieldV::Int(version as u64),
            FieldV::Int(whatami.spec_to_zint()),
            FieldV::Bytes(pid),
            FieldV::Int(sn_resolution),
        ],
        TransportMessageV::InitAck { whatami, pid, sn_resolution, cookie, .. } => seq![
            FieldV::Int(whatami.spec_to_zint()),
            FieldV::Bytes(pid),
            FieldV::Int(sn_resolution),
            FieldV::Bytes(cookie),
        ],
        TransportMessageV::OpenSyn { lease, initial_sn, cookie } => seq![
            FieldV::Int(lease),
            FieldV::Int(initial_sn),
            FieldV::Bytes(cookie),
        ],
        TransportMessageV::OpenAck { lease, initial_sn } => seq![
            FieldV::Int(lease),
            FieldV::Int(initial_sn),
        ],
        TransportMessageV::Close { pid, reason, .. } => opt_pid_fields(pid) + seq![
            FieldV::Int(reason as u64),
        ],
        TransportMessageV::KeepAlive { pid } => opt_pid_fields(pid),
        TransportMessageV::Sync { sn, count, .. } => seq![FieldV::Int(sn)] + opt_int_fields(count),
        TransportMessageV::AckNack { sn, mask } => seq![FieldV::Int(sn)] + opt_int_fields(mask),
        TransportMessageV::Join {
            version,
            whatami,
            pid,
            lease,
            sn_resolution,
            next_sn_reliable,
            next_sn_best_effort,
            ..
        } => seq![
            FieldV::Int(version as u64),
            FieldV::Int(whatami.spec_to_zint()),
            FieldV::Bytes(pid),
            FieldV::Int(lease),
            FieldV::Int(sn_resolution),
            FieldV::Int(next_sn_reliable),
            FieldV::Int(next_sn_best_effort),
        ],
        TransportMessageV::Frame { channel, sn, payload } => {
            let head = seq![FieldV::Int(channel.priority.spec_index() as u64), FieldV::Int(sn)];
            match payload {
                FramePayloadV::Fragment { buffer, .. } => head + seq![FieldV::Bytes(buffer)],
                FramePayloadV::Messages { .. } => head,
            }
        },
    }
}

pub open spec fn opt_kinds(present: bool, k: FieldKind) -> Seq<FieldKind> {
    if present {
        seq![k]
    } else {
        Seq::empty()
    }
}

/// The kinds of the fields that follow header `h`, if it is the header of a transport message.
pub open spec fn transport_schema(h: u8) -> Option<Seq<FieldKind>> {
    let k = hkind(h);
    if k == INIT_SYN {
        Some(seq![FieldKind::Int, FieldKind::Int, FieldKind::Bytes, FieldKind::Int])
    } else if k == INIT_ACK {
        Some(seq![FieldKind::Int, FieldKind::Bytes, FieldKind::Int, FieldKind::Bytes])
    } else if k == OPEN_SYN {
        Some(seq![FieldKind::Int, FieldKind::Int, FieldKind::Bytes])
    } else if k == OPEN_ACK {
        Some(seq![FieldKind::Int, FieldKind::Int])
    } else if k == CLOSE {
        Some(opt_kinds(hflag1(h), FieldKind::Bytes) + seq![FieldKind::Int])
    } else if k == KEEP_ALIVE {
        Some(opt_kinds(hflag1(h), FieldKind::Bytes))
    } else if k == SYNC {
        Some(seq![FieldKind::Int] + opt_kinds(hflag2(h), FieldKind::Int))
    } else if k == ACK_NACK {
        Some(seq![FieldKind::Int] + opt_kinds(hflag1(h), FieldKind::Int))
    } else if k == JOIN {
        Some(
            seq![
                FieldKind::Int,
                FieldKind::Int,
                FieldKind::Bytes,
                FieldKind::Int,
                FieldKind::Int,
                FieldKind::Int,
                FieldKind::Int,
            ],
        )
    } else if k == FRAME {
        Some(seq![FieldKind::Int, FieldKind::Int] + opt_kinds(hflag2(h), FieldKind::Bytes))
    } else {
        None
    }
}

pub open spec fn version_at(fs: Seq<FieldV>, i: int) -> Option<u8> {
    match int_at(fs, i) {
        Some(v) => if v <= 255 {
            Some(v as u8)
        } else {
            None
        },
        None => None,
    }
}

pub open spec fn whatami_at(fs: Seq<FieldV>, i: int) -> Option<WhatAmI> {
    match int_at(fs, i) {
        Some(v) => WhatAmI::spec_from_zint(v),
        None => None,
    }
}

pub open spec fn pid_at(fs: Seq<FieldV>, i: int) -> Option<Seq<u8>> {
    match bytes_at(fs, i) {
        Some(b) => if pid_valid(b) {
            Some(b)
        } else {
            None
        },
        None => None,
    }
}

/// The channel and sequence number of a frame with header `h` and fields `fs`.
pub open spec fn frame_head_from(h: u8, fs: Seq<FieldV>) -> Option<(Channel, u64)> {
    let rel = if hflag1(h) { Reliability::Reliable } else { Reliability::BestEffort };
    match (int_at(fs, 0), int_at(fs, 1)) {
        (Some(p), Some(sn)) => match Priority::spec_from_index(p) {
            Some(prio) => Some((Channel { priority: prio, reliability: rel }, sn)),
            None => None,
        },
        _ => None,
    }
}

/// The message that header `h` and fields `fs` stand for; a frame of whole
/// messages comes out with none, and `dec_transport` adds them.
pub open spec fn transport_from(h: u8, fs: Seq<FieldV>) -> Option<TransportMessageV> {
    let k = hkind(h);
    if k == INIT_SYN {
        match (version_at(fs, 0), whatami_at(fs, 1), pid_at(fs, 2), int_at(fs, 3)) {
            (Some(version), Some(whatami), Some(pid), Some(sn_resolution)) => Some(
                TransportMessageV::InitSyn { version, whatami, pid, sn_resolution, is_qos: hflag1(h) },
            ),
            _ => None,
        }
    } else if k == INIT_ACK {
        match (whatami_at(fs, 0), pid_at(fs, 1), int_at(fs, 2), bytes_at(fs, 3)) {
            (Some(whatami), Some(pid), Some(sn_resolution), Some(cookie)) => Some(
                TransportMessageV::InitAck { whatami, pid, sn_resolution, is_qos: hflag1(h), cookie },
            ),
            _ => None,
        }
    } else if k == OPEN_SYN {
        match (int_at(fs, 0), int_at(fs, 1), bytes_at(fs, 2)) {
            (Some(lease), Some(initial_sn), Some(cookie)) => Some(
                TransportMessageV::OpenSyn { lease, initial_sn, cookie },
            ),
            _ => None,
        }
    } else if k == OPEN_ACK {
        match (int_at(fs, 0), int_at(fs, 1)) {
            (Some(lease), Some(initial_sn)) => Some(TransportMessageV::OpenAck { lease, initial_sn }),
            _ => None,
        }
    } else if k == CLOSE {
        if hflag1(h) {
            match (pid_at(fs, 0), version_at(fs, 1)) {
                (Some(pid), Some(reason)) => Some(
                    TransportMessageV::Close { pid: Some(pid), reason, link_only: hflag2(h) },
                ),
                _ => None,
            }
        } else {
            match version_at(fs, 0) {
                Some(reason) => Some(
                    TransportMessageV::Close { pid: None, reason, link_only: hflag2(h) },
                ),
                None => None,
            }
        }
    } else if k == KEEP_ALIVE {
        if hflag1(h) {
            match pid_at(fs, 0) {
                Some(pid) => Some(TransportMessageV::KeepAlive { pid: Some(pid) }),
                None => None,
            }
        } else {
            Some(TransportMessageV::KeepAlive { pid: None })
        }
    } else if k == SYNC {
        let rel = if hflag1(h) { Reliability::Reliable } else { Reliability::BestEffort };
        match int_at(fs, 0) {
            Some(sn) => if hflag2(h) {
                match int_at(fs, 1) {
                    Some(c) => Some(TransportMessageV::Sync { reliability: rel, sn, count: Some(c) }),
                    None => None,
                }
            } else {
                Some(TransportMessageV::Sync { reliability: rel, sn, count: None })
            },
            None => None,
        }
    } else if k == ACK_NACK {
        match int_at(fs, 0) {
            Some(sn) => if hflag1(h) {
                match int_at(fs, 1) {
                    Some(m) => Some(TransportMessageV::AckNack { sn, mask: Some(m) }),
                    None => None,
                }
            } else {
                Some(TransportMessageV::AckNack { sn, mask: None })
            },
            None => None,
        }
    } else if k == JOIN {
        match (
            version_at(fs, 0),
            whatami_at(fs, 1),
            pid_at(fs, 2),
            int_at(fs, 3),
            int_at(fs, 4),
            int_at(fs, 5),
            int_at(fs, 6),
        ) {
            (Some(version), Some(whatami), Some(pid), Some(lease), Some(sn_resolution), Some(nr), Some(nb)) =>
                Some(
                TransportMessageV::Join {
                    version,
                    whatami,
                    pid,
                    lease,
                    sn_resolution,
                    next_sn_reliable: nr,
                    next_sn_best_effort: nb,
                    is_qos: hflag1(h),
                },
            ),
            _ => None,
        }
    } else if k == FRAME {
        match frame_head_from(h, fs) {
            Some((channel, sn)) => if hflag2(h) {
                match bytes_at(fs, 2) {
                    Some(b) => Some(
                        TransportMessageV::Frame {
                            channel,
                            sn,
                            payload: FramePayloadV::Fragment { buffer: b, is_final: hflag3(h) },
                        },
                    ),
                    None => None,
                }
            } else {
                Some(
                    TransportMessageV::Frame {
                        channel,
                        sn,
                        payload: FramePayloadV::Messages { messages: Seq::empty() },
                    },
                )
            },
            None => None,
        }
    } else {
        None
    }
}

/// Whether a message's payload runs to the end of its batch.
pub open spec fn runs_to_end(m: TransportMessageV) -> bool {
    m matches TransportMessageV::Frame { payload: FramePayloadV::Messages { .. }, .. }
}

/// The encoding of a transport message.
pub open spec fn enc_transport(m: TransportMessageV) -> Seq<u8> {
    let head = seq![transport_header(m)] + enc_fields(transport_fields(m));
    match m {
        TransportMessageV::Frame { payload: FramePayloadV::Messages { messages }, .. } => head
            + enc_janu_all(messages),
        _ => head,
    }
}

/// A transport message read from the start of `s`, and its length. A frame
/// of whole messages takes every byte that is left.
pub open spec fn dec_transport(s: Seq<u8>) -> Option<(TransportMessageV, nat)> {
    if s.len() == 0 {
        None
    } else {
        match transport_schema(s[0]) {
            Some(ks) => match dec_fields(ks, s.skip(1)) {
                Some((fs, n)) => match transport_from(s[0], fs) {
                    Some(m) => match m {
                        TransportMessageV::Frame {
                            channel,
                            sn,
                            payload: FramePayloadV::Messages { .. },
                        } => match dec_janu_all(s.skip(1 + n as int), channel) {
                            Some(ms) => Some(
                                (
                                    TransportMessageV::Frame {
                                        channel,
                                        sn,
                                        payload: FramePayloadV::Messages { messages: ms },
                                    },
                                    s.len(),
                                ),
                            ),
                            None => None,
                        },
                        _ => Some((m, 1 + n)),
                    },
                    None => None,
                },
                None => None,
            },
            None => None,
        }
    }
}

pub proof fn lemma_transport_fields(m: TransportMessageV)
    requires
        transport_valid(m),
    ensures
        transport_schema(transport_header(m)) == Some(kinds_of(transport_fields(m))),
        forall|i: int|
            0 <= i < transport_fields(m).len() ==> field_fits(#[trigger] transport_fields(m)[i]),
        match m {
            TransportMessageV::Frame { channel, sn, payload: FramePayloadV::Messages { .. } } =>
                transport_from(transport_header(m), transport_fields(m)) == Some(
                TransportMessageV::Frame {
                    channel,
                    sn,
                    payload: FramePayloadV::Messages { messages: Seq::empty() },
                },
            ),
            _ => transport_from(transport_header(m), transport_fields(m)) == Some(m),
        },
{
    let fs = transport_fields(m);
    match m {
        TransportMessageV::InitSyn { is_qos, .. } => {
            lemma_header(INIT_SYN, is_qos, false, false);
            assert(kinds_of(fs) =~= seq![FieldKind::Int, FieldKind::Int, FieldKind::Bytes, FieldKind::Int]);
        },
        TransportMessageV::InitAck { is_qos, .. } => {
            lemma_header(INIT_ACK, is_qos, false, false);
            assert(kinds_of(fs) =~= seq![FieldKind::Int, FieldKind::Bytes, FieldKind::Int, FieldKind::Bytes]);
        },
        TransportMessageV::OpenSyn { .. } => {
            lemma_header(OPEN_SYN, false, false, false);
            assert(kinds_of(fs) =~= seq![FieldKind::Int, FieldKind::Int, FieldKind::Bytes]);
        },
        TransportMessageV::OpenAck { .. } => {
            lemma_header(OPEN_ACK, false, false, false);
            assert(kinds_of(fs) =~= seq![FieldKind::Int, FieldKind::Int]);
        },
        TransportMessageV::Close { pid, link_only, .. } => {
            lemma_header(CLOSE, pid is Some, link_only, false);
            assert(kinds_of(fs) =~= opt_kinds(pid is Some, FieldKind::Bytes) + seq![FieldKind::Int]);
        },
        TransportMessageV::KeepAlive { pid } => {
            lemma_header(KEEP_ALIVE, pid is Some, false, false);
            assert(kinds_of(fs) =~= opt_kinds(pid is Some, FieldKind::Bytes));
        },
        TransportMessageV::Sync { reliability, count, .. } => {
            lemma_header(SYNC, is_reliable(reliability), count is Some, false);
            assert(kinds_of(fs) =~= seq![FieldKind::Int] + opt_kinds(count is Some, FieldKind::Int));
        },
        TransportMessageV::AckNack { mask, .. } => {
            lemma_header(ACK_NACK, mask is Some, false, false);
            assert(kinds_of(fs) =~= seq![FieldKind::Int] + opt_kinds(mask is Some, FieldKind::Int));
        },
        TransportMessageV::Join { is_qos, .. } => {
            lemma_header(JOIN, is_qos, false, false);
            assert(kinds_of(fs) =~= seq![
                FieldKind::Int,
                FieldKind::Int,
                FieldKind::Bytes,
                FieldKind::Int,
                FieldKind::Int,
                FieldKind::Int,
                FieldKind::Int,
            ]);
        },
        TransportMessageV::Frame { channel, sn, payload } => {
            match payload {
                FramePayloadV::Fragment { is_final, .. } => {
                    lemma_header(FRAME, is_reliable(channel.reliability), true, is_final);
                    assert(kinds_of(fs) =~= seq![FieldKind::Int, FieldKind::Int] + opt_kinds(true, FieldKind::Bytes));
                },
                FramePayloadV::Messages { .. } => {
                    lemma_header(FRAME, is_reliable(channel.reliability), false, false);
                    assert(kinds_of(fs) =~= seq![FieldKind::Int, FieldKind::Int] + opt_kinds(false, FieldKind::Bytes));
                },
            }
        },
    }
}

/// Decoding the encoding of a valid transport message gives back the message,
/// and the decoder advances over exactly the encoded bytes.
pub proof fn lemma_transport_round_trip(m: TransportMessageV)
    requires
        transport_valid(m),
    ensures
        dec_transport(enc_transport(m)) == Some((m, enc_transport(m).len())),
{
    lemma_transport_fields(m);
    let fs = transport_fields(m);
    let s = enc_transport(m);
    match m {
        TransportMessageV::Frame { channel, sn, payload: FramePayloadV::Messages { messages } } => {
            assert(s.skip(1) =~= enc_fields(fs) + enc_janu_all(messages));
            lemma_fields_round_trip(fs, enc_janu_all(messages));
            let n = enc_fields(fs).len();
            assert(s.skip(1 + n as int) =~= enc_janu_all(messages));
            lemma_janu_all_round_trip(messages, channel);
        },
        _ => {
            assert(s.skip(1) =~= enc_fields(fs) + Seq::<u8>::empty());
            lemma_fields_round_trip(fs, Seq::<u8>::empty());
        },
    }
}

} // verus!

verus! {

fn version_of(fs: &Vec<Field>, i: usize) -> (r: Option<u8>)
    ensures
        r == version_at(fields_view(fs@), i as int),
{
    match field_int(fs, i) {
        Some(v) => if v <= 255 {
            Some(v as u8)
        } else {
            None
        },
        None => None,
    }
}

fn whatami_of(fs: &Vec<Field>, i: usize) -> (r: Option<WhatAmI>)
    ensures
        r == whatami_at(fields_view(fs@), i as int),
{
    match field_int(fs, i) {
        Some(v) => WhatAmI::from_zint(v),
        None => None,
    }
}

fn pid_of(fs: &Vec<Field>, i: usize) -> (r: Option<PeerId>)
    ensures
        match pid_at(fields_view(fs@), i as int) {
            Some(b) => r matches Some(x) && x@ == b,
            None => r is None,
        },
{
    match field_bytes(fs, i) {
        Some(b) => PeerId::from_bytes(b),
        None => None,
    }
}

fn push_pid(out: &mut Vec<Field>, pid: &PeerId)
    ensures
        fields_view(final(out)@) == fields_view(old(out)@).push(FieldV::Bytes(pid@)),
{
    let ghost pre = fields_view(out@);
    out.push(Field::Bytes(crate::protocol::bytes_copy(&pid.id)));
    assert(fields_view(out@) =~= pre.push(FieldV::Bytes(pid@)));
}

fn push_int(out: &mut Vec<Field>, v: u64)
    ensures
        fields_view(final(out)@) == fields_view(old(out)@).push(FieldV::Int(v)),
{
    let ghost pre = fields_view(out@);
    out.push(Field::Int(v));
    assert(fields_view(out@) =~= pre.push(FieldV::Int(v)));
}

fn push_bytes(out: &mut Vec<Field>, b: &Vec<u8>)
    ensures
        fields_view(final(out)@) == fields_view(old(out)@).push(FieldV::Bytes(b@)),
{
    let ghost pre = fields_view(out@);
    out.push(Field::Bytes(crate::protocol::bytes_copy(b)));
    assert(fields_view(out@) =~= pre.push(FieldV::Bytes(b@)));
}

fn reliable(r: Reliability) -> (b: bool)
    ensures
        b == is_reliable(r),
{
    match r {
        Reliability::Reliable => true,
        Reliability::BestEffort => false,
    }
}

fn transport_schema_of(h: u8) -> (r: Option<Vec<FieldKind>>)
    ensures
        match transport_schema(h) {
            Some(ks) => r matches Some(x) && x@ == ks,
            None => r is None,
        },
{
    let k = h % 32;
    let f1 = (h / 32) % 2 == 1;
    let f2 = (h / 64) % 2 == 1;
    let mut v: Vec<FieldKind> = Vec::new();
    if k == INIT_SYN {
        v.push(FieldKind::Int);
        v.push(FieldKind::Int);
        v.push(FieldKind::Bytes);
        v.push(FieldKind::Int);
    } else if k == INIT_ACK {
        v.push(FieldKind::Int);
        v.push(FieldKind::Bytes);
        v.push(FieldKind::Int);
        v.push(FieldKind::Bytes);
    } else if k == OPEN_SYN {
        v.push(FieldKind::Int);
        v.push(FieldKind::Int);
        v.push(FieldKind::Bytes);
    } else if k == OPEN_ACK {
        v.push(FieldKind::Int);
        v.push(FieldKind::Int);
    } else if k == CLOSE {
        if f1 {
            v.push(FieldKind::Bytes);
        }
        v.push(FieldKind::Int);
    } else if k == KEEP_ALIVE {
        if f1 {
            v.push(FieldKind::Bytes);
        }
    } else if k == SYNC {
        v.push(FieldKind::Int);
        if f2 {
            v.push(FieldKind::Int);
        }
    } else if k == ACK_NACK {
        v.push(FieldKind::Int);
        if f1 {
            v.push(FieldKind::Int);
        }
    } else if k == JOIN {
        v.push(FieldKind::Int);
        v.push(FieldKind::Int);
        v.push(FieldKind::Bytes);
        v.push(FieldKind::Int);
        v.push(FieldKind::Int);
        v.push(FieldKind::Int);
        v.push(FieldKind::Int);
    } else if k == FRAME {
        v.push(FieldKind::Int);
        v.push(FieldKind::Int);
        if f2 {
            v.push(FieldKind::Bytes);
        }
    } else {
        return None;
    }
    assert(v@ =~= transport_schema(h)->Some_0);
    Some(v)
}

fn frame_head_of(h: u8, fs: &Vec<Field>) -> (r: Option<(Channel, u64)>)
    ensures
        r == frame_head_from(h, fields_view(fs@)),
{
    let rel = if (h / 32) % 2 == 1 { Reliability::Reliable } else { Reliability::BestEffort };
    match (field_int(fs, 0), field_int(fs, 1)) {
        (Some(p), Some(sn)) => match Priority::from_index(p) {
            Some(prio) => Some((Channel { priority: prio, reliability: rel }, sn)),
            None => None,
        },
        _ => None,
    }
}

fn transport_from_fields(h: u8, fs: &Vec<Field>) -> (r: Option<TransportMessage>)
    ensures
        match transport_from(h, fields_view(fs@)) {
            Some(m) => r matches Some(x) && x@ == m,
            None => r is None,
        },
{
    let k = h % 32;
    let f1 = (h / 32) % 2 == 1;
    let f2 = (h / 64) % 2 == 1;
    let f3 = h >= 128;
    if k == INIT_SYN {
        match (version_of(fs, 0), whatami_of(fs, 1), pid_of(fs, 2), field_int(fs, 3)) {
            (Some(version), Some(whatami), Some(pid), Some(sn_resolution)) => Some(
                TransportMessage::InitSyn { version, whatami, pid, sn_resolution, is_qos: f1 },
            ),
            _ => None,
        }
    } else if k == INIT_ACK {
        match (whatami_of(fs, 0), pid_of(fs, 1), field_int(fs, 2), field_bytes(fs, 3)) {
            (Some(whatami), Some(pid), Some(sn_resolution), Some(cookie)) => Some(
                TransportMessage::InitAck { whatami, pid, sn_resolution, is_qos: f1, cookie },
            ),
            _ => None,
        }
    } else if k == OPEN_SYN {
        match (field_int(fs, 0), field_int(fs, 1), field_bytes(fs, 2)) {
            (Some(lease), Some(initial_sn), Some(cookie)) => Some(
                TransportMessage::OpenSyn { lease, initial_sn, cookie },
            ),
            _ => None,
        }
    } else if k == OPEN_ACK {
        match (field_int(fs, 0), field_int(fs, 1)) {
            (Some(lease), Some(initial_sn)) => Some(TransportMessage::OpenAck { lease, initial_sn }),
            _ => None,
        }
    } else if k == CLOSE {
        if f1 {
            match (pid_of(fs, 0), version_of(fs, 1)) {
                (Some(pid), Some(reason)) => Some(
                    TransportMessage::Close { pid: Some(pid), reason, link_only: f2 },
                ),
                _ => None,
            }
        } else {
            match version_of(fs, 0) {
                Some(reason) => Some(TransportMessage::Close { pid: None, reason, link_only: f2 }),
                None => None,
            }
        }
    } else if k == KEEP_ALIVE {
        if f1 {
            match pid_of(fs, 0) {
                Some(pid) => Some(TransportMessage::KeepAlive { pid: Some(pid) }),
                None => None,
            }
        } else {
            Some(TransportMessage::KeepAlive { pid: None })
        }
    } else if k == SYNC {
        let rel = if f1 { Reliability::Reliable } else { Reliability::BestEffort };
        match field_int(fs, 0) {
            Some(sn) => if f2 {
                match field_int(fs, 1) {
                    Some(c) => Some(TransportMessage::Sync { reliability: rel, sn, count: Some(c) }),
                    None => None,
                }
            } else {
                Some(TransportMessage::Sync { reliability: rel, sn, count: None })
            },
            None => None,
        }
    } else if k == ACK_NACK {
        match field_int(fs, 0) {
            Some(sn) => if f1 {
                match field_int(fs, 1) {
                    Some(m) => Some(TransportMessage::AckNack { sn, mask: Some(m) }),
                    None => None,
                }
            } else {
                Some(TransportMessage::AckNack { sn, mask: None })
            },
            None => None,
        }
    } else if k == JOIN {
        match (
            version_of(fs, 0),
            whatami_of(fs, 1),
            pid_of(fs, 2),
            field_int(fs, 3),
            field_int(fs, 4),
            field_int(fs, 5),
            field_int(fs, 6),
        ) {
            (Some(version), Some(whatami), Some(pid), Some(lease), Some(sn_resolution), Some(nr), Some(nb)) =>
                Some(
                TransportMessage::Join {
                    version,
                    whatami,
                    pid,
                    lease,
                    sn_resolution,
                    next_sn_reliable: nr,
                    next_sn_best_effort: nb,
                    is_qos: f1,
                },
            ),
            _ => None,
        }
    } else if k == FRAME {
        match frame_head_of(h, fs) {
            Some((channel, sn)) => if f2 {
                match field_bytes(fs, 2) {
                    Some(b) => Some(
                        TransportMessage::Frame {
                            channel,
                            sn,
                            payload: FramePayload::Fragment { buffer: b, is_final: f3 },
                        },
                    ),
                    None => None,
                }
            } else {
                let e: Vec<JanuMessage> = Vec::new();
                assert(janu_msgs_view(e@) =~= Seq::<JanuMessageV>::empty());
                Some(
                    TransportMessage::Frame {
                        channel,
                        sn,
                        payload: FramePayload::Messages { messages: e },
                    },
                )
            },
            None => None,
        }
    } else {
        None
    }
}

/// Reads application messages on channel `ch` from `pos` to the end of `buf`.
pub fn decode_janu_all(buf: &Vec<u8>, pos: usize, ch: Channel) -> (r: Option<Vec<JanuMessage>>)
    requires
        pos <= buf@.len(),
    ensures
        match dec_janu_all(buf@.skip(pos as int), ch) {
            Some(ms) => r matches Some(x) && janu_msgs_view(x@) == ms,
            None => r is None,
        },
{
    let mut out: Vec<JanuMessage> = Vec::new();
    let mut p: usize = pos;
    assert(janu_msgs_view(out@) =~= Seq::<JanuMessageV>::empty());
    while p < buf.len()
        invariant
            pos <= p <= buf@.len(),
            dec_janu_all(buf@.skip(pos as int), ch) == match dec_janu_all(buf@.skip(p as int), ch) {
                Some(ms) => Some(janu_msgs_view(out@) + ms),
                None => None,
            },
        decreases buf@.len() - p,
    {
        let ghost s = buf@.skip(p as int);
        match JanuMessage::decode(buf, p, ch) {
            None => {
                return None;
            },
            Some((m, q)) => {
                assert(buf@.skip(q as int) =~= s.skip(q - p));
                let ghost mv = m@;
                let ghost pre = janu_msgs_view(out@);
                out.push(m);
                assert(janu_msgs_view(out@) =~= pre.push(mv));
                proof {
                    match dec_janu_all(buf@.skip(q as int), ch) {
                        Some(ms) => {
                            assert(pre + (seq![mv] + ms) =~= pre.push(mv) + ms);
                        },
                        None => {},
                    }
                }
                p = q;
            },
        }
    }
    assert(buf@.skip(p as int) =~= Seq::<u8>::empty());
    assert(janu_msgs_view(out@) + Seq::<JanuMessageV>::empty() =~= janu_msgs_view(out@));
    Some(out)
}

impl TransportMessage {
    pub fn header(&self) -> (h: u8)
        ensures
            h == transport_header(self@),
    {
        match self {
            TransportMessage::InitSyn { is_qos, .. } => make_header(INIT_SYN, *is_qos, false, false),
            TransportMessage::InitAck { is_qos, .. } => make_header(INIT_ACK, *is_qos, false, false),
            TransportMessage::OpenSyn { .. } => make_header(OPEN_SYN, false, false, false),
            TransportMessage::OpenAck { .. } => make_header(OPEN_ACK, false, false, false),
            TransportMessage::Close { pid, link_only, .. } => make_header(
                CLOSE,
                pid.is_some(),
                *link_only,
                false,
            ),
            TransportMessage::KeepAlive { pid } => make_header(KEEP_ALIVE, pid.is_some(), false, false),
            TransportMessage::Sync { reliability, count, .. } => make_header(
                SYNC,
                reliable(*reliability),
                count.is_some(),
                false,
            ),
            TransportMessage::AckNack { mask, .. } => make_header(ACK_NACK, mask.is_some(), false, false),
            TransportMessage::Join { is_qos, .. } => make_header(JOIN, *is_qos, false, false),
            TransportMessage::Frame { channel, payload, .. } => match payload {
                FramePayload::Fragment { is_final, .. } => make_header(
                    FRAME,
                    reliable(channel.reliability),
                    true,
                    *is_final,
                ),
                FramePayload::Messages { .. } => make_header(
                    FRAME,
                    reliable(channel.reliability),
                    false,
                    false,
                ),
            },
        }
    }

    fn fields(&self) -> (r: Vec<Field>)
        ensures
            fields_view(r@) == transport_fields(self@),
    {
        let mut out: Vec<Field> = Vec::new();
        assert(fields_view(out@) =~= Seq::<FieldV>::empty());
        match self {
            TransportMessage::InitSyn { version, whatami, pid, sn_resolution, .. } => {
                push_int(&mut out, *version as u64);
                push_int(&mut out, whatami.to_zint());
                push_pid(&mut out, pid);
                push_int(&mut out, *sn_resolution);
            },
            TransportMessage::InitAck { whatami, pid, sn_resolution, cookie, .. } => {
                push_int(&mut out, whatami.to_zint());
                push_pid(&mut out, pid);
                push_int(&mut out, *sn_resolution);
                push_bytes(&mut out, cookie);
            },
            TransportMessage::OpenSyn { lease, initial_sn, cookie } => {
                push_int(&mut out, *lease);
                push_int(&mut out, *initial_sn);
                push_bytes(&mut out, cookie);
            },
            TransportMessage::OpenAck { lease, initial_sn } => {
                push_int(&mut out, *lease);
                push_int(&mut out, *initial_sn);
            },
            TransportMessage::Close { pid, reason, .. } => {
                match pid {
                    Some(p) => push_pid(&mut out, p),
                    None => {},
                }
                push_int(&mut out, *reason as u64);
            },
            TransportMessage::KeepAlive { pid } => {
                match pid {
                    Some(p) => push_pid(&mut out, p),
                    None => {},
                }
            },
            TransportMessage::Sync { sn, count, .. } => {
                push_int(&mut out, *sn);
                match count {
                    Some(c) => push_int(&mut out, *c),
                    None => {},
                }
            },
            TransportMessage::AckNack { sn, mask } => {
                push_int(&mut out, *sn);
                match mask {
                    Some(m) => push_int(&mut out, *m),
                    None => {},
                }
            },
            TransportMessage::Join {
                version,
                whatami,
                pid,
                lease,
                sn_resolution,
                next_sn_reliable,
                next_sn_best_effort,
                ..
            } => {
                push_int(&mut out, *version as u64);
                push_int(&mut out, whatami.to_zint());
                push_pid(&mut out, pid);
                push_int(&mut out, *lease);
                push_int(&mut out, *sn_resolution);
                push_int(&mut out, *next_sn_reliable);
                push_int(&mut out, *next_sn_best_effort);
            },
            TransportMessage::Frame { channel, sn, payload } => {
                push_int(&mut out, channel.priority.index() as u64);
                push_int(&mut out, *sn);
                match payload {
                    FramePayload::Fragment { buffer, .. } => push_bytes(&mut out, buffer),
                    FramePayload::Messages { .. } => {},
                }
            },
        }
        assert(fields_view(out@) =~= transport_fields(self@));
        out
    }

    /// Appends the encoding of this message to `out`.
    pub fn encode(&self, out: &mut Vec<u8>)
        ensures
            final(out)@ == old(out)@ + enc_transport(self@),
    {
        let h = self.header();
        out.push(h);
        let fs = self.fields();
        write_fields(out, &fs);
        let ghost mid = out@;
        assert(mid =~= old(out)@ + (seq![transport_header(self@)] + enc_fields(transport_fields(self@))));
        match self {
            TransportMessage::Frame { payload: FramePayload::Messages { messages }, .. } => {
                let mut i: usize = 0;
                let ghost ms = janu_msgs_view(messages@);
                assert(ms.skip(0) =~= ms);
                while i < messages.len()
                    invariant
                        i <= messages@.len(),
                        ms == janu_msgs_view(messages@),
                        out@ + enc_janu_all(ms.skip(i as int)) == mid + enc_janu_all(ms),
                    decreases messages@.len() - i,
                {
                    let ghost pre = out@;
                    messages[i].encode(out);
                    assert(ms.skip(i as int).drop_first() =~= ms.skip(i + 1));
                    assert(ms.skip(i as int)[0] == messages@[i as int]@);
                    assert(pre + enc_janu_all(ms.skip(i as int)) =~= out@ + enc_janu_all(ms.skip(i + 1)));
                    i = i + 1;
                }
                assert(ms.skip(i as int) =~= Seq::<JanuMessageV>::empty());
                assert(out@ + enc_janu_all(ms.skip(i as int)) =~= out@);
                assert(out@ =~= old(out)@ + enc_transport(self@));
            },
            _ => {},
        }
    }

    /// Reads a transport message at `pos` of `buf`: the message and the position after it.
    pub fn decode(buf: &Vec<u8>, pos: usize) -> (r: Option<(TransportMessage, usize)>)
        requires
            pos <= buf@.len(),
        ensures
            match dec_transport(buf@.skip(pos as int)) {
                Some((m, n)) => r matches Some((x, p)) && x@ == m && p == pos + n,
                None => r is None,
            },
            r matches Some((_, p)) ==> pos < p <= buf@.len(),
    {
        let ghost s = buf@.skip(pos as int);
        if pos >= buf.len() {
            return None;
        }
        let h = buf[pos];
        assert(s[0] == h);
        match transport_schema_of(h) {
            None => None,
            Some(ks) => {
                assert(ks@.skip(0) =~= ks@);
                assert(buf@.skip(pos + 1) =~= s.skip(1));
                match read_fields(buf, pos + 1, &ks, 0) {
                    None => None,
                    Some((fs, p)) => match transport_from_fields(h, &fs) {
                        None => None,
                        Some(m) => match m {
                            TransportMessage::Frame {
                                channel,
                                sn,
                                payload: FramePayload::Messages { .. },
                            } => {
                                assert(buf@.skip(p as int) =~= s.skip(p - pos));
                                match decode_janu_all(buf, p, channel) {
                                    Some(ms) => Some(
                                        (
                                            TransportMessage::Frame {
                                                channel,
                                                sn,
                                                payload: FramePayload::Messages { messages: ms },
                                            },
                                            buf.len(),
                                        ),
                                    ),
                                    None => None,
                                }
                            },
                            _ => Some((m, p)),
                        },
                    },
                }
            },
        }
    }
}

} // verus!

verus! {

/// All the transport messages of a batch, in order.
pub open spec fn dec_batch(s: Seq<u8>) -> Option<Seq<TransportMessageV>>
    decreases s.len(),
{
    if s.len() == 0 {
        Some(Seq::empty())
    } else {
        match dec_transport(s) {
            Some((m, n)) => if 0 < n <= s.len() {
                match dec_batch(s.skip(n as int)) {
                    Some(ms) => Some(seq![m] + ms),
                    None => None,
                }
            } else {
                None
            },
            None => None,
        }
    }
}

pub open spec fn transport_msgs_view(v: Seq<TransportMessage>) -> Seq<TransportMessageV> {
    v.map_values(|m: TransportMessage| m@)
}

/// Reads every transport message of a batch; `None` where some part of it does not decode.
pub fn decode_batch(buf: &Vec<u8>) -> (r: Option<Vec<TransportMessage>>)
    ensures
        match dec_batch(buf@) {
            Some(ms) => r matches Some(x) && transport_msgs_view(x@) == ms,
            None => r is None,
        },
{
    let mut out: Vec<TransportMessage> = Vec::new();
    let mut p: usize = 0;
    assert(buf@.skip(0) =~= buf@);
    assert(transport_msgs_view(out@) =~= Seq::<TransportMessageV>::empty());
    while p < buf.len()
        invariant
            p <= buf@.len(),
            dec_batch(buf@) == match dec_batch(buf@.skip(p as int)) {
                Some(ms) => Some(transport_msgs_view(out@) + ms),
                None => None,
            },
        decreases buf@.len() - p,
    {
        let ghost s = buf@.skip(p as int);
        match TransportMessage::decode(buf, p) {
            None => {
                return None;
            },
            Some((m, q)) => {
                assert(buf@.skip(q as int) =~= s.skip(q - p));
                let ghost mv = m@;
                let ghost pre = transport_msgs_view(out@);
                out.push(m);
                assert(transport_msgs_view(out@) =~= pre.push(mv));
                proof {
                    match dec_batch(buf@.skip(q as int)) {
                        Some(ms) => {
                            assert(pre + (seq![mv] + ms) =~= pre.push(mv) + ms);
                        },
                        None => {},
                    }
                }
                p = q;
            },
        }
    }
    assert(buf@.skip(p as int) =~= Seq::<u8>::empty());
    assert(transport_msgs_view(out@) + Seq::<TransportMessageV>::empty() =~= transport_msgs_view(out@));
    Some(out)
}

/// Decoding the encodings of valid messages written one after the other
/// gives them back, where only the last may run to the end of the batch.
pub proof fn lemma_batch_of_messages(ms: Seq<TransportMessageV>)
    requires
        forall|i: int| 0 <= i < ms.len() ==> transport_valid(#[trigger] ms[i]),
        forall|i: int| 0 <= i < ms.len() - 1 ==> !runs_to_end(#[trigger] ms[i]),
    ensures
        dec_batch(enc_all(ms)) == Some(ms),
    decreases ms.len(),
{
    if ms.len() == 0 {
        assert(ms =~= Seq::<TransportMessageV>::empty());
    } else {
        let tail = ms.drop_first();
        assert(transport_valid(ms[0]));
        assert forall|i: int| 0 <= i < tail.len() implies transport_valid(#[trigger] tail[i]) by {
            assert(tail[i] == ms[i + 1]);
        }
        assert forall|i: int| 0 <= i < tail.len() - 1 implies !runs_to_end(#[trigger] tail[i]) by {
            assert(tail[i] == ms[i + 1]);
        }
        let s = enc_all(ms);
        lemma_transport_round_trip_rest(ms[0], enc_all(tail));
        let n = enc_transport(ms[0]).len();
        assert(s.skip(n as int) =~= enc_all(tail));
        lemma_batch_of_messages(tail);
        assert(seq![ms[0]] + tail =~= ms);
    }
}

/// The encodings of messages, one after the other.
pub open spec fn enc_all(ms: Seq<TransportMessageV>) -> Seq<u8>
    decreases ms.len(),
{
    if ms.len() == 0 {
        Seq::empty()
    } else {
        enc_transport(ms[0]) + enc_all(ms.drop_first())
    }
}

/// Decoding a valid message followed by more bytes gives the message and
/// its length; a frame of whole messages needs nothing to follow it.
pub proof fn lemma_transport_round_trip_rest(m: TransportMessageV, rest: Seq<u8>)
    requires
        transport_valid(m),
        runs_to_end(m) ==> rest.len() == 0,
    ensures
        dec_transport(enc_transport(m) + rest) == Some((m, enc_transport(m).len())),
        enc_transport(m).len() > 0,
{
    if runs_to_end(m) {
        assert(enc_transport(m) + rest =~= enc_transport(m));
        lemma_transport_round_trip(m);
    } else {
        lemma_transport_fields(m);
        let fs = transport_fields(m);
        let s = enc_transport(m) + rest;
        assert(s.skip(1) =~= enc_fields(fs) + rest);
        lemma_fields_round_trip(fs, rest);
    }
}

} // verus!
