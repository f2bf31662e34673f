use janu::codec::TransportMessage;
use janu::conduit::{low_mask, RxConduit, RxOutcome, SeqNum, SeqNumGenerator, TxWindow};
use janu::protocol::Reliability;

#[test]
fn reliable_conduit_delivers_a_contiguous_run() {
    let mut c = RxConduit::new(Reliability::Reliable, 5, 8).unwrap();
    let sent = [5u64, 6, 6, 5, 7, 1, 0, 7, 0, 1, 2];
    let mut delivered = Vec::new();
    for sn in sent {
        if c.receive(sn) == RxOutcome::Deliver {
            delivered.push(sn);
        }
    }
    assert_eq!(delivered, vec![5, 6, 7, 0, 1, 2]);
    assert_eq!(c.expected, 3);
}

#[test]
fn reliable_conduit_drops_duplicates_under_retransmission() {
    let mut c = RxConduit::new(Reliability::Reliable, 0, 1 << 28).unwrap();
    assert_eq!(c.receive(0), RxOutcome::Deliver);
    assert_eq!(c.receive(1), RxOutcome::Deliver);
    assert_eq!(c.receive(0), RxOutcome::Duplicate);
    assert_eq!(c.receive(1), RxOutcome::Duplicate);
    assert_eq!(c.receive(3), RxOutcome::Gap);
    assert_eq!(c.receive(2), RxOutcome::Deliver);
    assert_eq!(c.expected, 3);
}

#[test]
fn best_effort_conduit_skips_ahead() {
    let mut c = RxConduit::new(Reliability::BestEffort, 0, 16).unwrap();
    assert_eq!(c.receive(4), RxOutcome::Deliver);
    assert_eq!(c.expected, 5);
    assert_eq!(c.receive(2), RxOutcome::Duplicate);
    assert_eq!(c.receive(5), RxOutcome::Deliver);
}

#[test]
fn conduit_rejects_bad_initial_number() {
    assert!(RxConduit::new(Reliability::Reliable, 8, 8).is_err());
    assert!(RxConduit::new(Reliability::Reliable, 0, 0).is_err());
    assert!(SeqNum::make(3, 2).is_err());
}

#[test]
fn sequence_numbers_wrap_and_compare_by_half_window() {
    let mut g = SeqNumGenerator::new(6, 8).unwrap();
    assert_eq!(g.get(), 6);
    assert_eq!(g.get(), 7);
    assert_eq!(g.get(), 0);
    let s = SeqNum::make(6, 8).unwrap();
    assert!(s.precedes(7));
    assert!(s.precedes(1));
    assert!(s.precedes(2));
    assert!(!s.precedes(3));
    assert!(!s.precedes(6));
    assert!(!s.precedes(5));
    let mut t = SeqNum::make(1, 8).unwrap();
    assert!(t.set(9).is_err());
    assert_eq!(t.get(), 1);
    assert!(t.set(4).is_ok());
    assert_eq!(t.get(), 4);
}

#[test]
fn window_frees_acknowledged_and_resends_missing() {
    let mut w = TxWindow::new(10, 1 << 28, 4).unwrap();
    for i in 0..4u8 {
        assert!(w.push(vec![i]).is_ok());
    }
    assert!(w.push(vec![9]).is_err());
    assert_eq!(
        w.sync_message(),
        TransportMessage::Sync { reliability: Reliability::Reliable, sn: 10, count: Some(4) }
    );
    let again = w.acknack(12, Some(0b10));
    assert_eq!(again, vec![vec![3u8]]);
    assert_eq!(w.base, 12);
    assert_eq!(w.entries, vec![vec![2u8], vec![3u8]]);
    let none = w.acknack(12, None);
    assert!(none.is_empty());
    // an acknowledgement beyond what was sent frees nothing
    let _ = w.acknack(100, Some(1));
    assert_eq!(w.base, 12);
    assert_eq!(w.entries.len(), 2);
}

#[test]
fn acknack_answers_sync_with_missing_bits() {
    let c = RxConduit::new(Reliability::Reliable, 12, 1 << 28).unwrap();
    assert_eq!(c.acknack_for_sync(10, 4), TransportMessage::AckNack { sn: 12, mask: Some(0b11) });
    assert_eq!(c.acknack_for_sync(10, 2), TransportMessage::AckNack { sn: 12, mask: Some(0) });
    assert_eq!(low_mask(64), u64::MAX);
    assert_eq!(low_mask(0), 0);
    assert_eq!(low_mask(3), 7);
}
