use janu::multicast::{
    JoinOutcome, JoinSn, PeerTable, TransportManagerConfigBuilderMulticast, TransportManagerConfigMulticast,
};
use janu::properties::{ConfigProperties, ZN_LINK_LEASE_KEY, ZN_MAX_SESSIONS_KEY, ZN_QOS_KEY};
use janu::protocol::{PeerId, WhatAmI};

fn pid(b: u8) -> PeerId {
    PeerId { id: vec![b] }
}

fn sns() -> JoinSn {
    JoinSn { sn_resolution: 1 << 28, next_sn_reliable: 0, next_sn_best_effort: 0 }
}

#[test]
fn builder_defaults_and_setters() {
    let c = TransportManagerConfigMulticast::default();
    assert_eq!(c.lease, 10000);
    assert_eq!(c.keep_alive, 2500);
    assert_eq!(c.join_interval, 2500);
    assert_eq!(c.max_sessions, 1024);
    assert!(c.is_qos);
    let d = TransportManagerConfigMulticast::builder()
        .lease(300)
        .keep_alive(100)
        .join_interval(50)
        .max_sessions(2)
        .qos(false)
        .build();
    assert_eq!(
        d,
        TransportManagerConfigMulticast { lease: 300, keep_alive: 100, join_interval: 50, max_sessions: 2, is_qos: false }
    );
}

#[test]
fn builder_reads_configuration() {
    let mut p = ConfigProperties::new();
    p.insert(ZN_LINK_LEASE_KEY, "1500".to_string());
    p.insert(ZN_QOS_KEY, "false".to_string());
    let b = TransportManagerConfigBuilderMulticast::default().from_config(&p).unwrap();
    assert_eq!(b.lease, 1500);
    assert!(!b.is_qos);
    assert_eq!(b.keep_alive, 2500);
    let mut bad = ConfigProperties::new();
    bad.insert(ZN_MAX_SESSIONS_KEY, "many".to_string());
    assert!(TransportManagerConfigBuilderMulticast::default().from_config(&bad).is_err());
    let mut later = ConfigProperties::new();
    later.insert(ZN_LINK_LEASE_KEY, "10".to_string());
    later.insert(ZN_LINK_LEASE_KEY, "+20".to_string());
    assert_eq!(TransportManagerConfigBuilderMulticast::default().from_config(&later).unwrap().lease, 20);
}

#[test]
fn joins_add_refresh_and_ignore() {
    let mut t = PeerTable::new(2);
    assert_eq!(t.handle_join(pid(1), WhatAmI::Peer, 1000, sns(), 0), JoinOutcome::NewPeer);
    assert_eq!(t.handle_join(pid(2), WhatAmI::Router, 1000, sns(), 5), JoinOutcome::NewPeer);
    assert_eq!(t.handle_join(pid(3), WhatAmI::Peer, 1000, sns(), 6), JoinOutcome::Ignored);
    let bad = JoinSn { sn_resolution: 4, next_sn_reliable: 4, next_sn_best_effort: 0 };
    let mut u = PeerTable::new(2);
    assert_eq!(u.handle_join(pid(3), WhatAmI::Peer, 1000, bad, 6), JoinOutcome::Ignored);
    assert_eq!(t.len(), 2);
    assert_eq!(t.handle_join(pid(1), WhatAmI::Peer, 2000, sns(), 10), JoinOutcome::Refreshed);
    assert_eq!(t.len(), 2);
    assert_eq!(t.peers[0].lease, 2000);
    assert_eq!(t.peers[0].last_seen, 10);
    assert!(t.touch(&pid(2), 50));
    assert!(!t.touch(&pid(9), 50));
    assert_eq!(t.peers[1].last_seen, 50);
}

#[test]
fn lease_evicts_after_lease_and_not_before() {
    let mut t = PeerTable::new(8);
    t.handle_join(pid(1), WhatAmI::Peer, 1000, sns(), 0);
    t.handle_join(pid(2), WhatAmI::Peer, 1000, sns(), 500);
    assert!(t.evict_expired(1000).is_empty());
    let gone = t.evict_expired(1001);
    assert_eq!(gone.len(), 1);
    assert_eq!(gone[0].pid, pid(1));
    assert_eq!(t.len(), 1);
    // checked every 100 ms, the second peer goes at the first check past 1500
    let mut now = 1100;
    loop {
        if !t.evict_expired(now).is_empty() {
            break;
        }
        now += 100;
    }
    assert!(now > 1500 && now <= 1600);
    assert_eq!(t.len(), 0);
}

#[test]
fn two_peers_discover_each_other_and_one_leaves() {
    let join_interval = 100;
    let lease = 300;
    let mut a = PeerTable::new(10);
    let mut b = PeerTable::new(10);
    // each peer joins at t = 0 and then every join interval
    let mut now = 0;
    while now < 2 * join_interval {
        a.handle_join(pid(2), WhatAmI::Peer, lease, sns(), now);
        b.handle_join(pid(1), WhatAmI::Peer, lease, sns(), now);
        now += join_interval;
    }
    assert_eq!(a.find(&pid(2)), Some(0));
    assert_eq!(b.find(&pid(1)), Some(0));
    // peer A closes at t = 200: B hears nothing more
    let closed = now;
    let mut t = closed;
    while b.evict_expired(t).is_empty() {
        t += 10;
    }
    assert!(t - closed <= lease);
}
