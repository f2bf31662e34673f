use janu::batch::{fill_batch, fragment, serialize_message, WBatch, FRAGMENT_OVERHEAD};
use janu::codec::{FramePayload, TransportMessage};
use janu::message::{JanuBody, JanuMessage, ResKey};
use janu::protocol::{Channel, CongestionControl, Priority, Reliability};

fn ch() -> Channel {
    Channel { priority: Priority::Data, reliability: Reliability::Reliable }
}

fn data(n: usize) -> JanuMessage {
    JanuMessage {
        channel: ch(),
        congestion_control: CongestionControl::Block,
        body: JanuBody::Data { key: ResKey::RId(1), payload: vec![0xab; n] },
    }
}

fn encoded_len(m: &JanuMessage) -> usize {
    let mut v = Vec::new();
    m.encode(&mut v);
    v.len()
}

fn frame_len(m: &JanuMessage, sn: u64) -> usize {
    let f = TransportMessage::Frame { channel: ch(), sn, payload: FramePayload::Messages { messages: vec![] } };
    let mut v = Vec::new();
    f.encode(&mut v);
    v.len() + encoded_len(m)
}

#[test]
fn fill_until_full_then_decode_in_order() {
    let msgs: Vec<JanuMessage> = (0..50).map(|i| data(10 + i)).collect();
    let (b, k) = fill_batch(300, ch(), 9, &msgs);
    assert!(k > 0 && k < msgs.len());
    assert!(b.buffer.len() <= 300);
    // the next message would not have fit
    assert!(b.buffer.len() + encoded_len(&msgs[k]) > 300);
    let (m, n) = TransportMessage::decode(&b.buffer, 0).unwrap();
    assert_eq!(n, b.buffer.len());
    match m {
        TransportMessage::Frame { channel, sn, payload: FramePayload::Messages { messages } } => {
            assert_eq!(channel, ch());
            assert_eq!(sn, 9);
            assert_eq!(messages.len(), k);
            for i in 0..k {
                assert_eq!(messages[i], msgs[i]);
            }
        },
        _ => panic!("not a frame"),
    }
}

#[test]
fn write_reports_whether_it_fits_and_mark_reverts() {
    let mut b = WBatch::new(20);
    assert!(b.write_frame_header(ch(), 1));
    b.mark();
    let before = b.buffer.clone();
    assert!(!b.write_janu_message(&data(100)));
    assert_eq!(b.buffer, before);
    assert!(b.write_janu_message(&data(2)));
    assert!(b.buffer.len() <= 20);
    b.revert_to_mark();
    assert_eq!(b.buffer, before);
}

#[test]
fn message_of_exactly_mtu_is_one_frame() {
    let mtu = 200;
    let mut n = 0;
    while frame_len(&data(n), 3) < mtu {
        n += 1;
    }
    let m = data(n);
    assert_eq!(frame_len(&m, 3), mtu);
    let out = serialize_message(ch(), 3, 1 << 28, &m, mtu);
    assert_eq!(out.len(), 1);
    assert_eq!(out[0].len(), mtu);
    match TransportMessage::decode(&out[0], 0).unwrap().0 {
        TransportMessage::Frame { payload: FramePayload::Messages { messages }, .. } => assert_eq!(messages, vec![m]),
        _ => panic!("not a frame of messages"),
    }
}

#[test]
fn message_one_over_mtu_is_two_fragments() {
    let mtu = 200;
    let mut n = 0;
    while frame_len(&data(n), 3) < mtu + 1 {
        n += 1;
    }
    let m = data(n);
    assert_eq!(frame_len(&m, 3), mtu + 1);
    let out = serialize_message(ch(), 3, 1 << 28, &m, mtu);
    assert_eq!(out.len(), 2);
    let mut whole = Vec::new();
    for (i, b) in out.iter().enumerate() {
        assert!(b.len() <= mtu);
        match TransportMessage::decode(b, 0).unwrap().0 {
            TransportMessage::Frame { sn, payload: FramePayload::Fragment { buffer, is_final }, .. } => {
                assert_eq!(sn, 3 + i as u64);
                assert_eq!(is_final, i == 1);
                whole.extend_from_slice(&buffer);
            },
            _ => panic!("not a fragment"),
        }
    }
    let mut enc = Vec::new();
    m.encode(&mut enc);
    assert_eq!(whole, enc);
}

#[test]
fn no_batch_exceeds_the_mtu() {
    for mtu in [FRAGMENT_OVERHEAD + 1, 64, 100, 1500] {
        for n in [0usize, 10, 100, 5000] {
            for b in serialize_message(ch(), 0, 1 << 28, &data(n), mtu) {
                assert!(b.len() <= mtu);
            }
        }
    }
}

#[test]
fn fragment_numbers_wrap_at_the_resolution() {
    let payload = vec![7u8; 100];
    let out = fragment(ch(), 6, 8, &payload, FRAGMENT_OVERHEAD + 30);
    assert_eq!(out.len(), 4);
    let sns: Vec<u64> = out
        .iter()
        .map(|b| match TransportMessage::decode(b, 0).unwrap().0 {
            TransportMessage::Frame { sn, .. } => sn,
            _ => panic!("not a frame"),
        })
        .collect();
    assert_eq!(sns, vec![6, 7, 0, 1]);
}

#[test]
fn large_message_is_cut_for_a_64k_link() {
    let m = data(131072);
    let out = serialize_message(ch(), 0, 1 << 28, &m, 65536);
    assert_eq!(out.len(), 3);
    for b in &out {
        assert!(b.len() <= 65536);
    }
}
