use mainnet_observer_backend::rest::{
    idle_connection_limit, Input, Transaction, MAX_BLOCK_JSON_SIZE, SEQUENCE_FINAL,
};
use mainnet_observer_backend::block_hash::{block_hash_hex, parse_block_hash};
use mainnet_observer_backend::timings::{count, counter_nanos, record, FetchTiming};
use std::sync::atomic::AtomicU64;
use std::time::Duration;

fn input(sequence: u32) -> Input {
    Input {
        sequence,
        coinbase: None,
        txid: Some([1; 32]),
        vout: Some(0),
        prevout: None,
    }
}

fn tx(inputs: Vec<Input>) -> Transaction {
    Transaction {
        raw: vec![],
        txid: [0; 32],
        size: 100,
        vsize: 100,
        version: 2,
        fee: Some(1000),
        lock_time: 800_000,
        input: inputs,
        output: vec![],
    }
}

#[test]
fn lock_time_enabled_by_any_non_final_sequence() {
    assert!(!tx(vec![input(SEQUENCE_FINAL), input(0xFFFF_FFFF)]).is_lock_time_enabled());
    assert!(tx(vec![input(SEQUENCE_FINAL), input(0xFFFF_FFFE)]).is_lock_time_enabled());
    assert!(tx(vec![input(0)]).is_lock_time_enabled());
    assert!(!tx(vec![]).is_lock_time_enabled());
}

#[test]
fn idle_connections_match_threads() {
    assert_eq!(idle_connection_limit(0), 1);
    assert_eq!(idle_connection_limit(1), 1);
    assert_eq!(idle_connection_limit(14), 14);
    assert_eq!(MAX_BLOCK_JSON_SIZE, 52_428_800);
}

#[test]
fn record_sums_nanoseconds() {
    let counter = AtomicU64::new(0);
    record(&counter, Duration::from_millis(3));
    record(&counter, Duration::from_nanos(7));
    assert_eq!(count(&counter), 3_000_007);
}

#[test]
fn counter_keeps_the_low_bits() {
    assert_eq!(counter_nanos(5), 5);
    assert_eq!(counter_nanos((1u128 << 64) + 9), 9);
}

const GENESIS_HASH: &str = "000000000019d6689c085ae165831e934ff763ae46a2a6c172b3f1b60a8ce26f";

#[test]
fn block_hashes_read_and_show_reversed() {
    let hash = parse_block_hash(GENESIS_HASH).expect("valid");
    assert_eq!(hash[31], 0x00);
    assert_eq!(hash[0], 0x6f);
    assert_eq!(hash[1], 0xe2);
    assert_eq!(block_hash_hex(&hash), GENESIS_HASH);
    let upper = GENESIS_HASH.to_uppercase();
    assert_eq!(parse_block_hash(&upper), Some(hash));
}

#[test]
fn malformed_block_hashes_are_refused() {
    assert_eq!(parse_block_hash(&GENESIS_HASH[1..]), None);
    assert_eq!(parse_block_hash(&format!("{}0", GENESIS_HASH)), None);
    assert_eq!(parse_block_hash(&GENESIS_HASH.replace('f', "g")), None);
    assert_eq!(parse_block_hash(""), None);
}

#[test]
fn fetch_timing_starts_empty() {
    let t = FetchTiming::default();
    assert_eq!(t.bytes, 0);
    assert_eq!(t.hash_request, Duration::ZERO);
    assert_eq!(t.parse, Duration::ZERO);
}
