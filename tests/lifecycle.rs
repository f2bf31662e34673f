use janu::codec::TransportMessage;
use janu::link::{IpAddr, Locator, LocatorAddress, SocketAddr};
use janu::manager::{close_for, CLOSE_MAX_LINKS, CLOSE_MAX_SESSIONS, CLOSE_UNSUPPORTED};
use janu::multicast::{MulticastEvent, PeerTable, TransportManagerConfigMulticast, TransportMulticast};
use janu::protocol::{PeerId, WhatAmI, ZErrorKind};
use janu::unicast::{Liveness, SessionEvent, SessionState, TimerAction};

#[test]
fn timer_keeps_alive_then_expires() {
    let mut l = Liveness::new(1000, 250, 0);
    assert_eq!(l.tick(100), TimerAction::Idle);
    assert_eq!(l.tick(250), TimerAction::SendKeepAlive);
    l.on_tx(250);
    assert_eq!(l.tick(300), TimerAction::Idle);
    l.on_rx(600);
    assert_eq!(l.tick(1600), TimerAction::SendKeepAlive);
    assert_eq!(l.tick(1601), TimerAction::Expire);
}

#[test]
fn session_states_follow_their_lifecycle() {
    let mut s = SessionState::Opening;
    assert!(s.step(SessionEvent::Opened).is_ok());
    assert_eq!(s, SessionState::Established);
    assert!(s.step(SessionEvent::Opened).is_err());
    assert!(s.step(SessionEvent::Close).is_ok());
    assert_eq!(s, SessionState::Closing);
    assert!(s.step(SessionEvent::Close).is_ok());
    assert!(s.step(SessionEvent::Drained).is_ok());
    assert_eq!(s, SessionState::Closed);
    assert!(s.step(SessionEvent::Close).is_ok());
    assert_eq!(s, SessionState::Closed);
    assert!(s.step(SessionEvent::Opened).is_err());
    assert_eq!(s, SessionState::Closed);
}

#[test]
fn failed_establishment_closes_with_its_reason() {
    let p = PeerId { id: vec![3] };
    assert_eq!(
        close_for(&p, ZErrorKind::MaxSessions),
        TransportMessage::Close { pid: Some(p.clone()), reason: CLOSE_MAX_SESSIONS, link_only: true }
    );
    match close_for(&p, ZErrorKind::MaxLinks) {
        TransportMessage::Close { reason, .. } => assert_eq!(reason, CLOSE_MAX_LINKS),
        _ => panic!("no Close"),
    }
    match close_for(&p, ZErrorKind::Unsupported) {
        TransportMessage::Close { reason, .. } => assert_eq!(reason, CLOSE_UNSUPPORTED),
        _ => panic!("no Close"),
    }
}

#[test]
fn group_messages_update_the_peer_table() {
    let mut t = TransportMulticast {
        locator: Locator { address: LocatorAddress::Udp(SocketAddr { ip: IpAddr::V4(224, 0, 0, 1), port: 7447 }) },
        config: TransportManagerConfigMulticast::default(),
        peers: PeerTable::new(1),
    };
    let a = PeerId { id: vec![1] };
    let join = |pid: &PeerId| TransportMessage::Join {
        version: 0,
        whatami: WhatAmI::Peer,
        pid: pid.clone(),
        lease: 1000,
        sn_resolution: 1 << 28,
        next_sn_reliable: 0,
        next_sn_best_effort: 0,
        is_qos: false,
    };
    assert_eq!(t.handle(&a, TransportMessage::KeepAlive { pid: None }, 0).0, MulticastEvent::Unknown);
    assert_eq!(t.handle(&a, join(&a), 1).0, MulticastEvent::NewPeer);
    assert_eq!(t.handle(&a, join(&a), 2).0, MulticastEvent::Refreshed);
    assert_eq!(t.handle(&a, TransportMessage::KeepAlive { pid: None }, 7).0, MulticastEvent::Heard);
    assert_eq!(t.peers.peers[0].last_seen, 7);
    let b = PeerId { id: vec![2] };
    assert_eq!(t.handle(&b, join(&b), 8).0, MulticastEvent::Ignored);
    // frames go through the sender's own conduit
    let ch = Channel { priority: Priority::Data, reliability: Reliability::BestEffort };
    let frame = |sn: u64| TransportMessage::Frame {
        channel: ch,
        sn,
        payload: janu::codec::FramePayload::Messages {
            messages: vec![JanuMessage {
                channel: ch,
                congestion_control: CongestionControl::Drop,
                body: JanuBody::Unit,
            }],
        },
    };
    assert_eq!(t.handle(&a, frame(5), 9).1.len(), 1);
    assert_eq!(t.handle(&a, frame(3), 10).1.len(), 0);
    assert_eq!(t.handle(&a, frame(6), 11).1.len(), 1);
    let (e, m) = t.handle(&b, frame(7), 12);
    assert_eq!(e, MulticastEvent::Unknown);
    assert!(m.is_empty());
}

use janu::conduit::TxWindow;
use janu::link::Link;
use janu::message::{JanuBody, JanuMessage, ResKey};
use janu::protocol::{Channel, CongestionControl, Priority, Reliability};
use janu::unicast::{TransportConfigUnicast, TransportUnicast, TransportUnicastInner};

fn tcp_link(a: u16, b: u16) -> Link {
    let l = |port| Locator { address: LocatorAddress::Tcp(SocketAddr { ip: IpAddr::V4(127, 0, 0, 1), port }) };
    Link { src: l(a), dst: l(b), mtu: 150, is_reliable: true, is_streamed: true }
}

fn unicast_cfg(peer: u8) -> TransportConfigUnicast {
    TransportConfigUnicast {
        peer: PeerId { id: vec![peer] },
        whatami: WhatAmI::Peer,
        sn_resolution: 1 << 28,
        initial_sn_tx: 0,
        initial_sn_rx: 0,
        is_shm: false,
        is_qos: false,
    }
}

#[test]
fn losing_a_link_midstream_loses_no_reliable_message() {
    let mut tx = TransportUnicast::from_inner(TransportUnicastInner::new(unicast_cfg(1), tcp_link(1, 2), 16).unwrap());
    let second = tcp_link(3, 4);
    tx.inner.as_mut().unwrap().links.push(second.clone());
    let mut rx = TransportUnicastInner::new(unicast_cfg(2), tcp_link(2, 1), 16).unwrap();
    for i in 0..5u64 {
        let m = JanuMessage {
            channel: Channel { priority: Priority::Data, reliability: Reliability::Reliable },
            congestion_control: CongestionControl::Block,
            body: JanuBody::Data { key: ResKey::RId(i), payload: vec![i as u8; 100] },
        };
        tx.schedule(m).unwrap();
    }
    let mut window = TxWindow::new(0, 1 << 28, 16).unwrap();
    let mut sent = Vec::new();
    while let Some(batches) = tx.inner.as_mut().unwrap().next_batch(150) {
        for b in batches {
            window.push(b.clone()).unwrap();
            sent.push(b);
        }
    }
    assert_eq!(sent.len(), 5);
    // the first link carries two frames, then dies with three in flight
    let mut got = Vec::new();
    for b in &sent[..2] {
        got.extend(rx.receive(TransportMessage::decode(b, 0).unwrap().0));
    }
    assert!(tx.close_link(&tcp_link(1, 2)).is_ok());
    assert_eq!(tx.get_links().unwrap(), vec![second]);
    // on the second link: Sync, AckNack, retransmission
    let (sn, count) = match window.sync_message() {
        TransportMessage::Sync { sn, count, .. } => (sn, count.unwrap()),
        _ => panic!("no Sync"),
    };
    let (next, mask) = match rx.rx[0].acknack_for_sync(sn, count) {
        TransportMessage::AckNack { sn, mask } => (sn, mask),
        _ => panic!("no AckNack"),
    };
    assert_eq!((next, mask), (2, Some(0b111)));
    let again = window.acknack(next, mask);
    assert_eq!(again.len(), 3);
    for b in &again {
        got.extend(rx.receive(TransportMessage::decode(b, 0).unwrap().0));
    }
    // a late copy of an old frame changes nothing
    got.extend(rx.receive(TransportMessage::decode(&sent[1], 0).unwrap().0));
    let keys: Vec<ResKey> = got
        .into_iter()
        .map(|m| match m.body {
            JanuBody::Data { key, .. } => key,
            _ => panic!("not data"),
        })
        .collect();
    assert_eq!(keys, (0..5).map(ResKey::RId).collect::<Vec<_>>());
    assert_eq!(window.acknack(5, None).len(), 0);
    assert!(window.entries.is_empty());
}

#[test]
fn stream_links_cap_batches_at_two_byte_lengths() {
    let mut l = tcp_link(1, 2);
    l.mtu = 100000;
    assert_eq!(l.batch_size(), 65535);
    l.is_streamed = false;
    assert_eq!(l.batch_size(), 100000);
}

#[test]
fn links_are_chosen_by_stripe_with_failover() {
    let mut t = TransportUnicastInner::new(unicast_cfg(1), tcp_link(1, 2), 4).unwrap();
    let data = Channel { priority: Priority::Data, reliability: Reliability::Reliable };
    assert_eq!(t.select_link(data, &ResKey::RId(9), None), Some(0));
    assert_eq!(t.select_link(data, &ResKey::RId(9), Some(0)), None);
    t.links.push(tcp_link(3, 4));
    t.links.push(tcp_link(5, 6));
    // Data is priority 5: (5 + 9) % 3 = 2
    assert_eq!(t.select_link(data, &ResKey::RId(9), None), Some(2));
    assert_eq!(t.select_link(data, &ResKey::RId(9), Some(2)), Some(0));
    assert_eq!(t.select_link(data, &ResKey::RId(9), Some(1)), Some(2));
    // a name counts by its length: (5 + 4) % 3 = 0
    assert_eq!(t.select_link(data, &ResKey::RName(b"/a/b".to_vec()), None), Some(0));
    t.links.clear();
    assert_eq!(t.select_link(data, &ResKey::RId(9), None), None);
}

#[test]
fn silent_session_expires_at_first_tick_past_lease() {
    let l = Liveness::new(1000, 5000, 0);
    let mut now = 0;
    while l.tick(now) != TimerAction::Expire {
        now += 300;
    }
    assert!(now > 1000 && now <= 1300);
}
