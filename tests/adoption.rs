use scratch_solana::net::{Adopter, Adoption, NetMsg};
use scratch_solana::producer::{produce_slot, EntrySpec};
use scratch_solana::slot::verify_slot;

fn specs() -> Vec<EntrySpec> {
    vec![
        EntrySpec { num_hashes: 2, payload: None },
        EntrySpec { num_hashes: 3, payload: Some(b"payload".to_vec()) },
    ]
}

#[test]
fn new_adopter_starts_at_genesis() {
    let a = Adopter::new([0u8; 32]);
    assert_eq!(a.tip(), [0u8; 32]);
    assert!(a.adopted().is_empty());
}

#[test]
fn slot_produced_from_tip_is_committed() {
    let mut a = Adopter::new([0u8; 32]);
    let slot = produce_slot(&a.tip(), 0, &specs());
    let last = slot.last_hash;
    let r = a.receive(NetMsg::SlotBroadcast { prev_hash: [0u8; 32], slot });
    assert_eq!(r, Adoption::Committed);
    assert_eq!(a.tip(), last);
    assert_eq!(a.adopted().len(), 1);
    let next = produce_slot(&a.tip(), 1, &specs());
    let r = a.receive(NetMsg::SlotBroadcast { prev_hash: last, slot: next });
    assert_eq!(r, Adoption::Committed);
    assert_eq!(a.adopted().len(), 2);
    assert!(verify_slot(&[0u8; 32], &a.adopted()[0]));
    assert!(verify_slot(&a.adopted()[0].last_hash, &a.adopted()[1]));
}

#[test]
fn stale_prev_hash_rejected_even_if_slot_verifies() {
    let mut a = Adopter::new([0u8; 32]);
    let other = [1u8; 32];
    let slot = produce_slot(&other, 0, &specs());
    assert!(verify_slot(&other, &slot));
    let r = a.receive(NetMsg::SlotBroadcast { prev_hash: other, slot });
    assert_eq!(r, Adoption::Rejected);
    assert_eq!(a.tip(), [0u8; 32]);
    assert!(a.adopted().is_empty());
}

#[test]
fn claimed_tip_with_bad_slot_rejected() {
    let mut a = Adopter::new([0u8; 32]);
    let mut slot = produce_slot(&[0u8; 32], 0, &specs());
    slot.entries[1].hash[0] ^= 1;
    let r = a.receive(NetMsg::SlotBroadcast { prev_hash: [0u8; 32], slot });
    assert_eq!(r, Adoption::Rejected);
    assert_eq!(a.tip(), [0u8; 32]);
}

#[test]
fn same_slot_twice_is_committed_once() {
    let mut a = Adopter::new([0u8; 32]);
    let slot = produce_slot(&[0u8; 32], 0, &specs());
    let again = slot.clone();
    assert_eq!(a.receive(NetMsg::SlotBroadcast { prev_hash: [0u8; 32], slot }), Adoption::Committed);
    assert_eq!(a.receive(NetMsg::SlotBroadcast { prev_hash: [0u8; 32], slot: again }), Adoption::Rejected);
    assert_eq!(a.adopted().len(), 1);
}

#[test]
fn hello_and_ping_change_nothing() {
    let mut a = Adopter::new([2u8; 32]);
    assert_eq!(a.receive(NetMsg::Hello { node_id: "A".to_string() }), Adoption::Ignored);
    assert_eq!(a.receive(NetMsg::Ping), Adoption::Ignored);
    assert_eq!(a.tip(), [2u8; 32]);
    assert!(a.adopted().is_empty());
}

#[test]
fn lagging_subscriber_is_told_it_missed_messages() {
    let (tx, mut rx) = tokio::sync::broadcast::channel::<String>(2);
    for i in 0..5 {
        tx.send(format!("m{}", i)).unwrap();
    }
    match rx.try_recv() {
        Err(tokio::sync::broadcast::error::TryRecvError::Lagged(n)) => assert_eq!(n, 3),
        other => panic!("expected a lag signal, got {:?}", other),
    }
    assert_eq!(rx.try_recv().unwrap(), "m3");
    assert_eq!(rx.try_recv().unwrap(), "m4");
}
