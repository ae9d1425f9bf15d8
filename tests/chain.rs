use scratch_solana::poh::{hash_eq, hash_n, hash_once, verify_entry, Entry};
use scratch_solana::producer::{make_entry_from_spec, produce_slot, EntrySpec};
use scratch_solana::slot::verify_slot;

fn h(hex_text: &str) -> [u8; 32] {
    let bytes = hex::decode(hex_text).unwrap();
    let mut out = [0u8; 32];
    out.copy_from_slice(&bytes);
    out
}

const ZERO_ONCE: &str = "66687aadf862bd776c8fc18b8e9f8e20089714856ee233b3902a591d0d5f2925";

#[test]
fn hash_once_is_sha256_of_input() {
    assert_eq!(hash_once(&[0u8; 32], None), h(ZERO_ONCE));
}

#[test]
fn hash_once_mixes_payload_after_input() {
    assert_eq!(
        hash_once(&[0u8; 32], Some(b"abc".as_slice())),
        h("365aa7d8f7f9402c4b9434502b4cc89ddb09fe50d7cd95b493b834c62d5a5370")
    );
}

#[test]
fn hash_n_zero_is_identity() {
    let x = [7u8; 32];
    assert_eq!(hash_n(&x, 0), x);
}

#[test]
fn hash_n_step_law() {
    let x = [3u8; 32];
    for n in 0..5u64 {
        assert_eq!(hash_n(&x, n + 1), hash_once(&hash_n(&x, n), None));
    }
}

#[test]
fn hash_n_three_steps() {
    assert_eq!(
        hash_n(&[0u8; 32], 3),
        h("12771355e46cd47c71ed1721fd5319b383cca3a1f9fce3aa1c8cd3bd37af20d7")
    );
}

#[test]
fn hash_eq_compares_bytes() {
    let a = [1u8; 32];
    let mut b = a;
    assert!(hash_eq(&a, &b));
    b[31] = 2;
    assert!(!hash_eq(&a, &b));
}

#[test]
fn made_entry_verifies() {
    let prev = [9u8; 32];
    for n in 1..5u64 {
        for payload in [None, Some(vec![]), Some(b"tx".to_vec())] {
            let spec = EntrySpec { num_hashes: n, payload };
            let e = make_entry_from_spec(&prev, &spec);
            assert_eq!(e.num_hashes, n);
            assert_eq!(e.payload, spec.payload);
            assert!(verify_entry(&prev, &e));
        }
    }
}

#[test]
fn made_entry_exact_hash() {
    let e = make_entry_from_spec(&[0u8; 32], &EntrySpec { num_hashes: 1, payload: None });
    assert_eq!(e.hash, h(ZERO_ONCE));
    let e = make_entry_from_spec(&[0u8; 32], &EntrySpec { num_hashes: 4, payload: None });
    assert_eq!(e.hash, hash_n(&[0u8; 32], 4));
}

#[test]
fn entry_with_zero_steps_rejected() {
    let prev = [0u8; 32];
    let e = Entry { num_hashes: 0, hash: prev, payload: None };
    assert!(!verify_entry(&prev, &e));
    let e = Entry { num_hashes: 0, hash: hash_once(&prev, None), payload: None };
    assert!(!verify_entry(&prev, &e));
}

#[test]
fn entry_from_other_prev_rejected() {
    let e = make_entry_from_spec(&[1u8; 32], &EntrySpec { num_hashes: 2, payload: None });
    assert!(!verify_entry(&[2u8; 32], &e));
}

fn sample_specs() -> Vec<EntrySpec> {
    vec![
        EntrySpec { num_hashes: 2, payload: None },
        EntrySpec { num_hashes: 1, payload: Some(b"a".to_vec()) },
        EntrySpec { num_hashes: 3, payload: Some(vec![]) },
    ]
}

#[test]
fn produced_slot_verifies_and_chains() {
    let prev = [5u8; 32];
    let slot = produce_slot(&prev, 42, &sample_specs());
    assert_eq!(slot.slot, 42);
    assert_eq!(slot.entries.len(), 3);
    assert!(verify_entry(&prev, &slot.entries[0]));
    assert!(verify_entry(&slot.entries[0].hash, &slot.entries[1]));
    assert!(verify_entry(&slot.entries[1].hash, &slot.entries[2]));
    assert_eq!(slot.last_hash, slot.entries[2].hash);
    assert!(verify_slot(&prev, &slot));
}

#[test]
fn produce_slot_is_deterministic() {
    let a = produce_slot(&[5u8; 32], 1, &sample_specs());
    let b = produce_slot(&[5u8; 32], 1, &sample_specs());
    assert_eq!(a.last_hash, b.last_hash);
    assert_eq!(a.entries.len(), b.entries.len());
    for i in 0..a.entries.len() {
        assert_eq!(a.entries[i].hash, b.entries[i].hash);
    }
}

#[test]
fn empty_slot_ends_on_prev() {
    let prev = [4u8; 32];
    let slot = produce_slot(&prev, 0, &[]);
    assert_eq!(slot.last_hash, prev);
    assert!(verify_slot(&prev, &slot));
    let mut other = slot.clone();
    other.last_hash = [0u8; 32];
    assert!(!verify_slot(&prev, &other));
}

#[test]
fn slot_against_other_prev_rejected() {
    let slot = produce_slot(&[5u8; 32], 0, &sample_specs());
    assert!(!verify_slot(&[6u8; 32], &slot));
}

#[test]
fn tampered_last_hash_rejected() {
    let prev = [5u8; 32];
    let mut slot = produce_slot(&prev, 0, &sample_specs());
    slot.last_hash[0] ^= 1;
    assert!(!verify_slot(&prev, &slot));
}

#[test]
fn tampered_entry_hash_rejected() {
    let prev = [5u8; 32];
    for i in 0..3 {
        let mut slot = produce_slot(&prev, 0, &sample_specs());
        slot.entries[i].hash[5] ^= 0x80;
        assert!(!verify_slot(&prev, &slot));
    }
}

#[test]
fn tampered_entry_steps_rejected() {
    let prev = [5u8; 32];
    for i in 0..3 {
        let mut slot = produce_slot(&prev, 0, &sample_specs());
        slot.entries[i].num_hashes += 1;
        assert!(!verify_slot(&prev, &slot));
        slot.entries[i].num_hashes = 0;
        assert!(!verify_slot(&prev, &slot));
    }
}

#[test]
fn tampered_entry_payload_rejected() {
    let prev = [5u8; 32];
    let mut slot = produce_slot(&prev, 0, &sample_specs());
    slot.entries[1].payload = Some(b"b".to_vec());
    assert!(!verify_slot(&prev, &slot));
    let mut slot = produce_slot(&prev, 0, &sample_specs());
    slot.entries[0].payload = Some(b"x".to_vec());
    assert!(!verify_slot(&prev, &slot));
    let mut slot = produce_slot(&prev, 0, &sample_specs());
    slot.entries[1].payload = None;
    assert!(!verify_slot(&prev, &slot));
}
