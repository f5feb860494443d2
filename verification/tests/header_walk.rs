use mainnet_observer_backend::header_walk::{
    distinct_heights, headers_per_request, parse_headers, plan_lookup, same_hash, HeaderLink, HeaderWalk, LookupPlan, WalkError,
    MAX_HEADERS_PER_REQUEST,
};

const GENESIS_HEADER: &str = "0100000000000000000000000000000000000000000000000000000000000000000000003ba3edfd7a7b12b27ac72c3e67768f617fc81bc3888a51323a9fb8aa4b1e5e4a29ab5f49ffff001d1dac2b7c";
const BLOCK1_HEADER: &str = "010000006fe28c0ab6f1b372c1a6a246ae63f74f931e8365e15a089c68d6190000000000982051fd1e4ba744bbbe680e1fee14677ba1a3c3540bf7b1cdb606e857233e0e61bc6649ffff001d01e36299";
const GENESIS_HASH: &str = "000000000019d6689c085ae165831e934ff763ae46a2a6c172b3f1b60a8ce26f";
const BLOCK1_HASH: &str = "00000000839a8e6886ab5951d76f411475428afc90947ee320161bbf18eb6048";

fn bytes(hex: &str) -> Vec<u8> {
    (0..hex.len())
        .step_by(2)
        .map(|i| u8::from_str_radix(&hex[i..i + 2], 16).unwrap())
        .collect()
}

/// A block hash as shown (reversed) turned into internal byte order.
fn hash(display: &str) -> [u8; 32] {
    let mut b = bytes(display);
    b.reverse();
    b.try_into().unwrap()
}

fn fake(n: u8) -> [u8; 32] {
    [n; 32]
}

/// A chain of made-up links: link i has hash fake(i) and builds on fake(i - 1).
fn chain(from: u8, to: u8) -> Vec<HeaderLink> {
    (from..=to)
        .map(|i| HeaderLink {
            hash: fake(i),
            prev_blockhash: fake(i.wrapping_sub(1)),
        })
        .collect()
}

#[test]
fn parses_real_headers() {
    let mut raw = bytes(GENESIS_HEADER);
    raw.extend(bytes(BLOCK1_HEADER));
    let links = parse_headers(&raw).expect("two headers");
    assert_eq!(links.len(), 2);
    assert_eq!(links[0].hash, hash(GENESIS_HASH));
    assert_eq!(links[0].prev_blockhash, [0u8; 32]);
    assert_eq!(links[1].hash, hash(BLOCK1_HASH));
    assert_eq!(links[1].prev_blockhash, hash(GENESIS_HASH));
}

#[test]
fn refuses_a_partial_header() {
    let mut raw = bytes(GENESIS_HEADER);
    raw.pop();
    assert!(parse_headers(&raw).is_none());
    assert_eq!(parse_headers(&[]).map(|l| l.len()), Some(0));
}

#[test]
fn compares_hashes() {
    assert!(same_hash(&fake(1), &fake(1)));
    let mut other = fake(1);
    other[31] = 0;
    assert!(!same_hash(&fake(1), &other));
}

#[test]
fn plans_the_cheaper_lookup() {
    assert_eq!(plan_lookup(&[]), LookupPlan::Nothing);
    assert_eq!(plan_lookup(&[5]), LookupPlan::EachHeight);
    assert_eq!(plan_lookup(&[0, 1]), LookupPlan::EachHeight);
    // 1 lookup + 1 run covers 1999 heights: cheaper from 3 heights on.
    assert_eq!(plan_lookup(&[0, 1, 2]), LookupPlan::WalkHeaders);
    let all: Vec<i64> = (0..3000).collect();
    assert_eq!(plan_lookup(&all), LookupPlan::WalkHeaders);
    // Two heights far apart: two lookups beat a walk of 52 requests.
    assert_eq!(plan_lookup(&[0, 100_000]), LookupPlan::EachHeight);
    // Heights spread over 100001 blocks, where the walk takes 52 requests.
    let spread53: Vec<i64> = (0..52).map(|i| i * 1900).chain([100_000]).collect();
    assert_eq!(plan_lookup(&spread53), LookupPlan::WalkHeaders);
    let spread52: Vec<i64> = (0..51).map(|i| i * 1900).chain([100_000]).collect();
    assert_eq!(plan_lookup(&spread52), LookupPlan::EachHeight);
    assert_eq!(MAX_HEADERS_PER_REQUEST, 2000);
}

#[test]
fn walk_resolves_wanted_heights_with_gaps() {
    // Heights 10..=16 exist; we want 10, 12, 13 and 16.
    let mut walk = HeaderWalk::new(vec![10, 12, 13, 16], fake(10));
    assert_eq!(walk.remaining(), 7);
    // The first response starts at the anchor, height 10, and runs to 13.
    let done = walk.step(&chain(10, 13)).expect("linked");
    assert!(!done);
    assert_eq!(walk.height(), 13);
    assert_eq!(walk.anchor(), fake(13));
    assert_eq!(walk.remaining(), 4);
    // The next one starts at 13 again and reaches 16.
    let done = walk.step(&chain(13, 16)).expect("linked");
    assert!(done);
    assert_eq!(
        walk.into_resolved(),
        vec![(10, fake(10)), (12, fake(12)), (13, fake(13)), (16, fake(16))]
    );
}

#[test]
fn walk_can_overshoot_the_last_height() {
    let mut walk = HeaderWalk::new(vec![0, 2], fake(0));
    assert!(walk.step(&chain(0, 5)).expect("linked"));
    assert_eq!(walk.height(), 5);
    assert_eq!(walk.into_resolved(), vec![(0, fake(0)), (2, fake(2))]);
}

#[test]
fn walk_refuses_unlinked_headers() {
    let mut walk = HeaderWalk::new(vec![100, 101, 102, 103], fake(100));
    let mut headers = chain(100, 103);
    headers[2].prev_blockhash = fake(42);
    match walk.step(&headers) {
        Err(WalkError::Unlinked { height }) => assert_eq!(height, 102),
        other => panic!("expected an unlinked header, got {:?}", other),
    }
    // Nothing changed.
    assert_eq!(walk.height(), 100);
    assert_eq!(walk.remaining(), 4);
}

#[test]
fn walk_refuses_a_response_without_progress() {
    let mut walk = HeaderWalk::new(vec![7, 9], fake(7));
    match walk.step(&chain(7, 7)) {
        Err(WalkError::NoProgress { height, hash }) => {
            assert_eq!(height, 7);
            assert_eq!(hash, fake(7));
        }
        other => panic!("expected no progress, got {:?}", other),
    }
    assert!(matches!(walk.step(&[]), Err(WalkError::NoProgress { .. })));
}

#[test]
fn header_requests_are_capped() {
    assert_eq!(headers_per_request(7), 7);
    assert_eq!(headers_per_request(2000), 2000);
    assert_eq!(headers_per_request(900_000), 2000);
}

#[test]
fn repeated_heights_are_looked_up_each_time_or_walked_once() {
    // Sorted with repeats: few heights, so each is looked up, repeats too.
    assert_eq!(plan_lookup(&[4, 4, 9]), LookupPlan::WalkHeaders);
    assert_eq!(plan_lookup(&[4, 4]), LookupPlan::EachHeight);
    assert_eq!(distinct_heights(&[4, 4, 9, 9, 9, 12]), vec![4, 9, 12]);
    assert_eq!(distinct_heights(&[]), Vec::<i64>::new());
}

fn numbered(height: i64) -> [u8; 32] {
    let mut h = [0u8; 32];
    h[..8].copy_from_slice(&height.to_le_bytes());
    h
}

#[test]
fn full_sync_walk_takes_a_few_hundred_requests() {
    let heights: Vec<i64> = (0..900_000).collect();
    assert_eq!(plan_lookup(&heights), LookupPlan::WalkHeaders);
    let mut walk = HeaderWalk::new(heights, numbered(0));
    let mut requests = 1; // the lookup of the first hash
    loop {
        let start = walk.height();
        let count = headers_per_request(walk.remaining()) as i64;
        let headers: Vec<HeaderLink> = (start..start + count)
            .map(|h| HeaderLink {
                hash: numbered(h),
                prev_blockhash: numbered(h - 1),
            })
            .collect();
        requests += 1;
        if walk.step(&headers).expect("linked") {
            break;
        }
    }
    assert_eq!(requests, 452);
    let resolved = walk.into_resolved();
    assert_eq!(resolved.len(), 900_000);
    assert!(resolved.iter().all(|&(h, hash)| hash == numbered(h)));
}
