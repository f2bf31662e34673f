use janu::batch::WBatch;
use janu::codec::{decode_batch, FramePayload, TransportMessage};
use janu::message::{JanuBody, JanuMessage, ResKey};
use janu::protocol::{Channel, CongestionControl, PeerId, Priority, Reliability, WhatAmI};
use janu::varint::{read_varint, write_varint};

fn pid(b: &[u8]) -> PeerId {
    PeerId { id: b.to_vec() }
}

fn data(key: ResKey, payload: Vec<u8>, ch: Channel) -> JanuMessage {
    JanuMessage { channel: ch, congestion_control: CongestionControl::Block, body: JanuBody::Data { key, payload } }
}

fn round_trip(m: TransportMessage) {
    let mut out = Vec::new();
    m.encode(&mut out);
    let (d, n) = TransportMessage::decode(&out, 0).expect("decodes");
    assert_eq!(n, out.len());
    assert_eq!(d, m);
}

#[test]
fn varint_exact_bytes() {
    let mut out = Vec::new();
    write_varint(&mut out, 300);
    assert_eq!(out, vec![0xac, 0x02]);
    let mut one = Vec::new();
    write_varint(&mut one, 127);
    assert_eq!(one, vec![0x7f]);
    let mut max = Vec::new();
    write_varint(&mut max, u64::MAX);
    assert_eq!(max.len(), 10);
    assert_eq!(read_varint(&max, 0), Some((u64::MAX, 10)));
    assert_eq!(read_varint(&out, 0), Some((300, 2)));
}

#[test]
fn varint_rejects_truncated_and_overflowing() {
    assert_eq!(read_varint(&vec![0x80], 0), None);
    assert_eq!(read_varint(&vec![], 0), None);
    let too_big = vec![0xff, 0xff, 0xff, 0xff, 0xff, 0xff, 0xff, 0xff, 0xff, 0x02];
    assert_eq!(read_varint(&too_big, 0), None);
    let eleven = vec![0x80, 0x80, 0x80, 0x80, 0x80, 0x80, 0x80, 0x80, 0x80, 0x80, 0x00];
    assert_eq!(read_varint(&eleven, 0), None);
}

#[test]
fn round_trip_every_kind() {
    round_trip(TransportMessage::InitSyn {
        version: 0,
        whatami: WhatAmI::Peer,
        pid: pid(&[1, 2, 3]),
        sn_resolution: 1 << 28,
        is_qos: true,
    });
    round_trip(TransportMessage::InitAck {
        whatami: WhatAmI::Router,
        pid: pid(&[9; 16]),
        sn_resolution: 1024,
        is_qos: false,
        cookie: vec![5, 6, 7, 8],
    });
    round_trip(TransportMessage::OpenSyn { lease: 10000, initial_sn: 42, cookie: vec![] });
    round_trip(TransportMessage::OpenAck { lease: 3, initial_sn: u64::MAX });
    round_trip(TransportMessage::Close { pid: Some(pid(&[7])), reason: 2, link_only: true });
    round_trip(TransportMessage::Close { pid: None, reason: 255, link_only: false });
    round_trip(TransportMessage::KeepAlive { pid: None });
    round_trip(TransportMessage::KeepAlive { pid: Some(pid(&[1, 1])) });
    round_trip(TransportMessage::Sync { reliability: Reliability::Reliable, sn: 17, count: Some(4) });
    round_trip(TransportMessage::Sync { reliability: Reliability::BestEffort, sn: 0, count: None });
    round_trip(TransportMessage::AckNack { sn: 99, mask: Some(0b1011) });
    round_trip(TransportMessage::AckNack { sn: 1, mask: None });
    round_trip(TransportMessage::Join {
        version: 1,
        whatami: WhatAmI::Client,
        pid: pid(&[4, 4, 4]),
        lease: 5000,
        sn_resolution: 256,
        next_sn_reliable: 10,
        next_sn_best_effort: 20,
        is_qos: true,
    });
    round_trip(TransportMessage::Frame {
        channel: Channel { priority: Priority::DataHigh, reliability: Reliability::Reliable },
        sn: 5,
        payload: FramePayload::Fragment { buffer: vec![1, 2, 3, 4], is_final: true },
    });
}

#[test]
fn round_trip_frame_of_messages() {
    let ch = Channel { priority: Priority::Data, reliability: Reliability::Reliable };
    let msgs = vec![
        data(ResKey::RId(7), vec![1, 2, 3], ch),
        data(ResKey::RName(b"/demo/a".to_vec()), vec![], ch),
        data(ResKey::RIdWithSuffix(3, b"/x".to_vec()), vec![0; 300], ch),
        JanuMessage {
            channel: ch,
            congestion_control: CongestionControl::Drop,
            body: JanuBody::Query { key: ResKey::RId(1), predicate: b"a=1".to_vec(), qid: 77 },
        },
        JanuMessage {
            channel: ch,
            congestion_control: CongestionControl::Block,
            body: JanuBody::Pull { key: ResKey::RName(b"/p".to_vec()), pull_id: 3 },
        },
        JanuMessage { channel: ch, congestion_control: CongestionControl::Drop, body: JanuBody::Unit },
    ];
    round_trip(TransportMessage::Frame { channel: ch, sn: 1234, payload: FramePayload::Messages { messages: msgs } });
}

#[test]
fn decoder_rejects_invalid_input() {
    // an unknown kind
    assert_eq!(TransportMessage::decode(&vec![0x1f], 0), None);
    // a peer id longer than sixteen bytes
    let mut out = Vec::new();
    TransportMessage::KeepAlive { pid: Some(pid(&[1; 16])) }.encode(&mut out);
    out[1] = 17;
    out.push(1);
    assert_eq!(TransportMessage::decode(&out, 0), None);
    // a whatami that is no role
    let mut syn = Vec::new();
    TransportMessage::InitSyn { version: 0, whatami: WhatAmI::Peer, pid: pid(&[1]), sn_resolution: 8, is_qos: false }
        .encode(&mut syn);
    syn[2] = 3;
    assert_eq!(TransportMessage::decode(&syn, 0), None);
    // a truncated message
    let mut ack = Vec::new();
    TransportMessage::OpenAck { lease: 1000, initial_sn: 1 }.encode(&mut ack);
    ack.pop();
    assert_eq!(TransportMessage::decode(&ack, 0), None);
}

#[test]
fn decode_at_offset_reads_consecutive_messages() {
    let mut out = Vec::new();
    TransportMessage::KeepAlive { pid: None }.encode(&mut out);
    TransportMessage::OpenAck { lease: 2, initial_sn: 3 }.encode(&mut out);
    let (a, p) = TransportMessage::decode(&out, 0).unwrap();
    assert_eq!(a, TransportMessage::KeepAlive { pid: None });
    let (b, q) = TransportMessage::decode(&out, p).unwrap();
    assert_eq!(b, TransportMessage::OpenAck { lease: 2, initial_sn: 3 });
    assert_eq!(q, out.len());
}

#[test]
fn header_packs_kind_and_flags() {
    let m = TransportMessage::Frame {
        channel: Channel { priority: Priority::Control, reliability: Reliability::Reliable },
        sn: 0,
        payload: FramePayload::Fragment { buffer: vec![], is_final: true },
    };
    assert_eq!(m.header(), 0x0a | 0x20 | 0x40 | 0x80);
    let c = TransportMessage::Close { pid: None, reason: 0, link_only: true };
    assert_eq!(c.header(), 0x05 | 0x40);
}

#[test]
fn batch_reader_returns_every_message_in_order() {
    let ch = Channel { priority: Priority::RealTime, reliability: Reliability::BestEffort };
    let mut b = WBatch::new(1000);
    assert!(b.write_transport_message(&TransportMessage::KeepAlive { pid: Some(pid(&[3])) }));
    assert!(b.write_transport_message(&TransportMessage::AckNack { sn: 4, mask: None }));
    assert!(b.write_frame_header(ch, 77));
    let m1 = data(ResKey::RId(1), vec![1], ch);
    let m2 = data(ResKey::RId(2), vec![2, 2], ch);
    assert!(b.write_janu_message(&m1));
    assert!(b.write_janu_message(&m2));
    let all = decode_batch(&b.buffer).unwrap();
    assert_eq!(all.len(), 3);
    assert_eq!(all[0], TransportMessage::KeepAlive { pid: Some(pid(&[3])) });
    assert_eq!(all[1], TransportMessage::AckNack { sn: 4, mask: None });
    assert_eq!(
        all[2],
        TransportMessage::Frame { channel: ch, sn: 77, payload: FramePayload::Messages { messages: vec![m1, m2] } }
    );
    let mut first = b.buffer.clone();
    first.truncate(3);
    assert_eq!(decode_batch(&first).unwrap(), vec![TransportMessage::KeepAlive { pid: Some(pid(&[3])) }]);
    let mut broken = b.buffer.clone();
    broken.truncate(4);
    assert!(decode_batch(&broken).is_none());
    assert_eq!(decode_batch(&vec![]).unwrap().len(), 0);
}
