use janu::codec::{FramePayload, TransportMessage};
use janu::link::{IpAddr, Link, Locator, LocatorAddress, LocatorProtocol, SocketAddr};
use janu::manager::{TransportManager, TransportManagerConfig};
use janu::message::{JanuBody, JanuMessage, ResKey};
use janu::multicast::TransportManagerConfigMulticast;
use janu::properties::Properties;
use janu::protocol::{Channel, CongestionControl, PeerId, Priority, Reliability, WhatAmI, ZErrorKind};
use janu::link::EndPoint;
use janu::unicast::{TransportConfigUnicast, TransportUnicast, TransportUnicastInner};

fn tcp(port: u16) -> Locator {
    Locator { address: LocatorAddress::Tcp(SocketAddr { ip: IpAddr::V4(127, 0, 0, 1), port }) }
}

fn link(a: u16, b: u16, mtu: usize) -> Link {
    Link { src: tcp(a), dst: tcp(b), mtu, is_reliable: true, is_streamed: true }
}

fn cfg(peer: u8, is_qos: bool) -> TransportConfigUnicast {
    TransportConfigUnicast {
        peer: PeerId { id: vec![peer] },
        whatami: WhatAmI::Peer,
        sn_resolution: 1 << 28,
        initial_sn_tx: 0,
        initial_sn_rx: 0,
        is_shm: false,
        is_qos,
    }
}

fn manager(max_sessions: usize, max_links: usize) -> TransportManager {
    TransportManager::new(TransportManagerConfig {
        pid: PeerId { id: vec![0xaa] },
        whatami: WhatAmI::Router,
        sn_resolution: 1 << 20,
        batch_size: 65535,
        queue_capacity: 16,
        max_sessions,
        max_links,
        is_qos: true,
        multicast: TransportManagerConfigMulticast::default(),
        endpoint: vec![],
    })
}

fn msg(p: Priority, rel: Reliability, cc: CongestionControl, n: usize) -> JanuMessage {
    JanuMessage {
        channel: Channel { priority: p, reliability: rel },
        congestion_control: cc,
        body: JanuBody::Data { key: ResKey::RId(1), payload: vec![n as u8; n] },
    }
}

fn session(qos: bool, capacity: usize) -> TransportUnicast {
    TransportUnicast::from_inner(TransportUnicastInner::new(cfg(1, qos), link(1, 2, 65535), capacity).unwrap())
}

#[test]
fn opening_twice_gives_the_same_session() {
    let mut m = manager(4, 2);
    let a = m.open_session(cfg(1, true), link(1, 2, 1500)).unwrap();
    let b = m.open_session(cfg(1, true), link(1, 2, 1500)).unwrap();
    assert_eq!(a, b);
    assert_eq!(m.sessions.len(), 1);
    assert_eq!(m.sessions[a].get_links().unwrap().len(), 1);
    // a second link to the same peer joins the same session
    let c = m.open_session(cfg(1, true), link(3, 4, 1500)).unwrap();
    assert_eq!(c, a);
    assert_eq!(m.sessions[a].get_links().unwrap().len(), 2);
    let e = m.open_session(cfg(1, true), link(5, 6, 1500)).unwrap_err();
    assert_eq!(e.kind, ZErrorKind::MaxLinks);
}

#[test]
fn session_limit_is_enforced() {
    let mut m = manager(1, 1);
    assert!(m.open_session(cfg(1, false), link(1, 2, 1500)).is_ok());
    assert_eq!(m.open_session(cfg(2, false), link(1, 3, 1500)).unwrap_err().kind, ZErrorKind::MaxSessions);
    assert!(m.close_session(&PeerId { id: vec![1] }).is_ok());
    assert_eq!(m.close_session(&PeerId { id: vec![1] }).unwrap_err().kind, ZErrorKind::InvalidReference);
    assert!(m.open_session(cfg(2, false), link(1, 3, 1500)).is_ok());
    assert!(m.get_transport_unicast(&PeerId { id: vec![2] }).is_some());
    assert!(m.get_transport_unicast(&PeerId { id: vec![1] }).is_none());
}

#[test]
fn init_syn_is_answered_with_negotiated_values() {
    let m = manager(4, 1);
    let syn = TransportMessage::InitSyn {
        version: 0,
        whatami: WhatAmI::Client,
        pid: PeerId { id: vec![7] },
        sn_resolution: 1 << 28,
        is_qos: false,
    };
    match m.accept_init_syn(&syn, vec![1, 2]).unwrap() {
        TransportMessage::InitAck { whatami, pid, sn_resolution, is_qos, cookie } => {
            assert_eq!(whatami, WhatAmI::Router);
            assert_eq!(pid, PeerId { id: vec![0xaa] });
            assert_eq!(sn_resolution, 1 << 20);
            assert!(!is_qos);
            assert_eq!(cookie, vec![1, 2]);
        },
        _ => panic!("no InitAck"),
    }
    let old = TransportMessage::InitSyn {
        version: 9,
        whatami: WhatAmI::Client,
        pid: PeerId { id: vec![7] },
        sn_resolution: 8,
        is_qos: true,
    };
    assert_eq!(m.accept_init_syn(&old, vec![]).unwrap_err().kind, ZErrorKind::Unsupported);
    assert_eq!(m.accept_init_syn(&TransportMessage::KeepAlive { pid: None }, vec![]).unwrap_err().kind, ZErrorKind::InvalidMessage);
}

#[test]
fn handle_reports_its_session() {
    let t = session(true, 4);
    assert_eq!(t.get_pid().unwrap(), PeerId { id: vec![1] });
    assert_eq!(t.get_whatami().unwrap(), WhatAmI::Peer);
    assert_eq!(t.get_sn_resolution().unwrap(), 1 << 28);
    assert!(t.is_qos().unwrap());
    assert!(!t.is_shm().unwrap());
    let p = t.get_peer().unwrap();
    assert_eq!(p.links, vec![link(1, 2, 65535)]);
    assert_eq!(t.get_stats().unwrap().tx_msgs, 0);
}

#[test]
fn closed_handle_reports_invalid_reference() {
    let mut t = session(false, 4);
    assert!(t.close().is_ok());
    assert!(t.close().is_ok());
    assert_eq!(t.get_pid().unwrap_err().kind, ZErrorKind::InvalidReference);
    assert_eq!(t.get_links().unwrap_err().kind, ZErrorKind::InvalidReference);
    let m = msg(Priority::Data, Reliability::Reliable, CongestionControl::Block, 1);
    assert_eq!(t.schedule(m).unwrap_err().kind, ZErrorKind::InvalidReference);
}

#[test]
fn full_queue_blocks_or_drops() {
    let mut t = session(true, 2);
    for _ in 0..2 {
        assert!(t.schedule(msg(Priority::Data, Reliability::Reliable, CongestionControl::Block, 1)).is_ok());
    }
    let e = t.schedule(msg(Priority::Data, Reliability::Reliable, CongestionControl::Block, 1)).unwrap_err();
    assert_eq!(e.kind, ZErrorKind::WouldBlock);
    assert_eq!(t.get_stats().unwrap().tx_dropped, 0);
    assert!(t.handle_message(msg(Priority::Data, Reliability::Reliable, CongestionControl::Drop, 1)).is_ok());
    assert_eq!(t.get_stats().unwrap().tx_dropped, 1);
    // once the pipeliner drains the queue, a blocked producer gets through
    let inner = t.inner.as_mut().unwrap();
    assert!(inner.next_batch(1500).is_some());
    assert!(t.schedule(msg(Priority::Data, Reliability::Reliable, CongestionControl::Block, 1)).is_ok());
    assert_eq!(t.get_stats().unwrap().tx_dropped, 1);
}

#[test]
fn pipeliner_drains_higher_priorities_first() {
    let mut t = session(true, 200);
    for p in [Priority::Background, Priority::Data, Priority::RealTime, Priority::InteractiveHigh] {
        for _ in 0..3 {
            t.schedule(msg(p, Reliability::Reliable, CongestionControl::Block, 4)).unwrap();
        }
    }
    let inner = t.inner.as_mut().unwrap();
    let mut order = Vec::new();
    while let Some(batches) = inner.next_batch(1500) {
        for b in batches {
            match TransportMessage::decode(&b, 0).unwrap().0 {
                TransportMessage::Frame { channel, payload: FramePayload::Messages { messages }, .. } => {
                    order.push((channel.priority, messages.len()));
                },
                _ => panic!("not a frame"),
            }
        }
    }
    assert_eq!(
        order,
        vec![
            (Priority::RealTime, 3),
            (Priority::InteractiveHigh, 3),
            (Priority::Data, 3),
            (Priority::Background, 3),
        ]
    );
}

#[test]
fn thousand_messages_arrive_in_order() {
    let mut tx = session(false, 1000);
    let mut rx = TransportUnicastInner::new(cfg(2, false), link(2, 1, 65535), 16).unwrap();
    for i in 0..1000usize {
        let mut m = msg(Priority::Data, Reliability::Reliable, CongestionControl::Block, 1024);
        m.body = JanuBody::Data { key: ResKey::RId(i as u64), payload: vec![(i % 251) as u8; 1024] };
        tx.schedule(m).unwrap();
    }
    let inner = tx.inner.as_mut().unwrap();
    let mut got = Vec::new();
    while let Some(batches) = inner.next_batch(65535) {
        for b in batches {
            let (m, _) = TransportMessage::decode(&b, 0).unwrap();
            got.extend(rx.receive(m));
        }
    }
    assert_eq!(got.len(), 1000);
    for (i, m) in got.iter().enumerate() {
        match &m.body {
            JanuBody::Data { key, payload } => {
                assert_eq!(*key, ResKey::RId(i as u64));
                assert_eq!(payload.len(), 1024);
            },
            _ => panic!("not data"),
        }
    }
    assert_eq!(inner.stats.tx_msgs, 1000);
    assert_eq!(rx.stats.rx_msgs, 1000);
}

#[test]
fn eight_priorities_each_arrive_with_their_priority() {
    let mut tx = session(true, 200);
    let mut rx = TransportUnicastInner::new(cfg(2, true), link(2, 1, 65535), 16).unwrap();
    let all = [
        Priority::Control,
        Priority::RealTime,
        Priority::InteractiveHigh,
        Priority::InteractiveLow,
        Priority::DataHigh,
        Priority::Data,
        Priority::DataLow,
        Priority::Background,
    ];
    for p in all {
        for _ in 0..100 {
            tx.schedule(msg(p, Reliability::Reliable, CongestionControl::Block, 8)).unwrap();
        }
    }
    let inner = tx.inner.as_mut().unwrap();
    let mut counts = [0usize; 8];
    while let Some(batches) = inner.next_batch(1500) {
        for b in batches {
            let (m, _) = TransportMessage::decode(&b, 0).unwrap();
            for d in rx.receive(m) {
                counts[d.channel.priority.index()] += 1;
            }
        }
    }
    assert_eq!(counts, [100; 8]);
}

#[test]
fn large_message_is_reassembled_once() {
    let mut tx = session(false, 4);
    let mut rx = TransportUnicastInner::new(cfg(2, false), link(2, 1, 65536), 16).unwrap();
    let mut big = msg(Priority::Data, Reliability::Reliable, CongestionControl::Block, 0);
    big.body = JanuBody::Data { key: ResKey::RId(5), payload: vec![3u8; 131072] };
    tx.schedule(big).unwrap();
    let inner = tx.inner.as_mut().unwrap();
    let batches = inner.next_batch(65536).unwrap();
    assert_eq!(batches.len(), 3);
    let mut got = Vec::new();
    for b in batches {
        assert!(b.len() <= 65536);
        let (m, _) = TransportMessage::decode(&b, 0).unwrap();
        got.extend(rx.receive(m));
    }
    assert_eq!(got.len(), 1);
    assert_eq!(got[0].body, JanuBody::Data { key: ResKey::RId(5), payload: vec![3u8; 131072] });
    let d = &rx.defrag[0];
    assert_eq!(d.completed, 1);
    assert_eq!(d.errors, 0);
}

#[test]
fn killing_one_of_two_links_keeps_the_session() {
    let mut m = manager(4, 2);
    let i = m.open_session(cfg(1, false), link(1, 2, 1500)).unwrap();
    m.open_session(cfg(1, false), link(3, 4, 1500)).unwrap();
    let mut s = m.sessions.remove(i);
    assert!(s.close_link(&link(1, 2, 1500)).is_ok());
    assert_eq!(s.get_links().unwrap(), vec![link(3, 4, 1500)]);
    assert!(s.schedule(msg(Priority::Data, Reliability::Reliable, CongestionControl::Block, 3)).is_ok());
    assert_eq!(s.close_link(&link(1, 2, 1500)).unwrap_err().kind, ZErrorKind::InvalidLink);
    assert!(s.close_link(&link(3, 4, 1500)).is_ok());
    assert!(s.inner.is_none());
}

#[test]
fn retransmitted_frames_are_not_delivered_twice() {
    let mut tx = session(false, 10);
    let mut rx = TransportUnicastInner::new(cfg(2, false), link(2, 1, 1500), 16).unwrap();
    tx.schedule(msg(Priority::Data, Reliability::Reliable, CongestionControl::Block, 5)).unwrap();
    let b = tx.inner.as_mut().unwrap().next_batch(1500).unwrap();
    let first = TransportMessage::decode(&b[0], 0).unwrap().0;
    let again = TransportMessage::decode(&b[0], 0).unwrap().0;
    assert_eq!(rx.receive(first).len(), 1);
    assert_eq!(rx.receive(again).len(), 0);
}

#[test]
fn multicast_registry_tracks_transports_and_protocols() {
    let mut m = manager(4, 1);
    let group = Locator { address: LocatorAddress::Udp(SocketAddr { ip: IpAddr::V4(224, 0, 0, 224), port: 7447 }) };
    let unicast = EndPoint { locator: tcp(7447), config: None };
    assert_eq!(m.prepare_open_multicast(unicast).unwrap_err().kind, ZErrorKind::InvalidLocator);
    let ep = m.prepare_open_multicast(EndPoint { locator: group.clone(), config: None }).unwrap();
    assert_eq!(ep.locator, group);
    assert_eq!(m.multicast.protocols, vec![LocatorProtocol::Udp]);
    assert!(m.add_transport_multicast(group.clone()).is_ok());
    assert!(m.add_transport_multicast(group.clone()).is_err());
    assert!(m.get_transport_multicast(&group).is_some());
    assert_eq!(m.get_transports_multicast(), vec![group.clone()]);
    assert!(m.del_transport_multicast(&group).is_ok());
    assert!(m.multicast.protocols.is_empty());
    assert!(m.del_transport_multicast(&group).is_err());
    assert!(m.new_link_manager_multicast(LocatorProtocol::Tcp).is_err());
}

#[test]
fn endpoint_configuration_overrides_protocol_defaults() {
    let mut defaults = Properties::new();
    defaults.insert("iface".to_string(), "eth0".to_string());
    defaults.insert("ttl".to_string(), "1".to_string());
    let mut m = manager(4, 1);
    m.config.endpoint.push((LocatorProtocol::Udp, defaults));
    let mut own = Properties::new();
    own.insert("ttl".to_string(), "8".to_string());
    let group = Locator { address: LocatorAddress::Udp(SocketAddr { ip: IpAddr::V6(0xff02_0000_0000_0000, 1), port: 7447 }) };
    let ep = m.prepare_open_multicast(EndPoint { locator: group, config: Some(own) }).unwrap();
    let c = ep.config.unwrap();
    assert_eq!(c.get(&"ttl".to_string()), Some("8".to_string()));
    assert_eq!(c.get(&"iface".to_string()), Some("eth0".to_string()));
}

#[test]
fn room_is_reported_per_conduit() {
    let mut t = session(true, 1);
    let ch = Channel { priority: Priority::Data, reliability: Reliability::Reliable };
    assert_eq!(t.has_room(ch).unwrap(), true);
    t.schedule(msg(Priority::Data, Reliability::Reliable, CongestionControl::Block, 1)).unwrap();
    assert_eq!(t.has_room(ch).unwrap(), false);
    let other = Channel { priority: Priority::Data, reliability: Reliability::BestEffort };
    assert_eq!(t.has_room(other).unwrap(), true);
    t.close().unwrap();
    assert_eq!(t.has_room(ch).unwrap_err().kind, ZErrorKind::InvalidReference);
}

#[test]
fn no_links_allowed_means_no_session() {
    let mut m = manager(4, 0);
    assert_eq!(m.open_session(cfg(1, false), link(1, 2, 1500)).unwrap_err().kind, ZErrorKind::MaxLinks);
    assert!(m.sessions.is_empty());
}

#[test]
fn link_managers_are_kept_once_and_removed_whole() {
    let mut m = manager(4, 1);
    assert_eq!(m.new_link_manager_multicast(LocatorProtocol::Udp).unwrap(), LocatorProtocol::Udp);
    assert_eq!(m.new_link_manager_multicast(LocatorProtocol::Udp).unwrap(), LocatorProtocol::Udp);
    assert_eq!(m.multicast.protocols, vec![LocatorProtocol::Udp]);
    assert!(m.del_link_manager_multicast(LocatorProtocol::Udp).is_ok());
    assert!(m.multicast.protocols.is_empty());
    assert!(m.del_link_manager_multicast(LocatorProtocol::Udp).is_err());
}
