use mainnet_observer_backend::batch::{StatBatcher, DATABASE_BATCH_SIZE};
use mainnet_observer_backend::sync_plan::{check_node_ready, heights_to_fetch, NotReady};
use mainnet_observer_backend::REORG_SAFETY_MARGIN;
use std::collections::BTreeSet;

#[test]
fn fetches_up_to_the_reorg_margin_skipping_uptodate() {
    let uptodate: BTreeSet<i64> = [3, 5, 13, 14, 20].into_iter().collect();
    let heights = heights_to_fetch(20, None, &uptodate);
    assert_eq!(heights, vec![0, 1, 2, 4, 6, 7, 8, 9, 10, 11, 12]);
    assert_eq!(REORG_SAFETY_MARGIN, 6);
}

#[test]
fn start_height_skips_lower_blocks() {
    let uptodate: BTreeSet<i64> = [11].into_iter().collect();
    let heights = heights_to_fetch(20, Some(10), &uptodate);
    assert_eq!(heights, vec![10, 12, 13]);
}

#[test]
fn nothing_to_fetch_at_the_margin() {
    let uptodate = BTreeSet::new();
    assert!(heights_to_fetch(6, None, &uptodate).is_empty());
    assert!(heights_to_fetch(100, Some(94), &uptodate).is_empty());
    assert_eq!(heights_to_fetch(100, Some(93), &uptodate), vec![93]);
}

#[test]
fn everything_uptodate() {
    let uptodate: BTreeSet<i64> = (0..10).collect();
    assert!(heights_to_fetch(16, None, &uptodate).is_empty());
}

#[test]
fn stats_are_written_in_full_batches_then_the_rest() {
    let mut batcher = StatBatcher::new();
    let mut written: Vec<Vec<u32>> = Vec::new();
    for i in 0..250u32 {
        if let Some(batch) = batcher.push(i) {
            written.push(batch);
        }
    }
    assert_eq!(batcher.len(), 50);
    if let Some(rest) = batcher.finish() {
        written.push(rest);
    }
    assert_eq!(written.len(), 3);
    assert_eq!(written[0].len(), DATABASE_BATCH_SIZE);
    assert_eq!(written[1].len(), 100);
    assert_eq!(written[2].len(), 50);
    let all: Vec<u32> = written.into_iter().flatten().collect();
    assert_eq!(all, (0..250).collect::<Vec<u32>>());
}

#[test]
fn no_final_batch_when_nothing_pending() {
    let mut batcher = StatBatcher::new();
    for i in 0..99u8 {
        assert!(batcher.push(i).is_none());
    }
    let batch = batcher.push(99).expect("a full batch");
    assert_eq!(batch.len(), 100);
    assert_eq!(batch[99], 99);
    assert!(batcher.finish().is_none());
}

#[test]
fn second_run_fetches_nothing() {
    let mut uptodate: BTreeSet<i64> = [2, 7].into_iter().collect();
    let first = heights_to_fetch(30, Some(1), &uptodate);
    assert_eq!(first.len(), 21);
    uptodate.extend(first);
    assert!(heights_to_fetch(30, Some(1), &uptodate).is_empty());
}

#[test]
fn no_sync_during_initial_block_download() {
    assert_eq!(check_node_ready(true), Err(NotReady::InitialBlockDownload));
    assert_eq!(check_node_ready(false), Ok(()));
}
