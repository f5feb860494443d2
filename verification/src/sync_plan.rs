//! Which block heights a sync run fetches.
use std::collections::BTreeSet;
use vstd::prelude::*;

verus! {

broadcast use vstd::laws_cmp::group_laws_cmp;

/// The most recent blocks are not fetched, in case they are reorganised away.
pub const REORG_SAFETY_MARGIN: u64 = 6;

/// Whether `s` is strictly increasing.
pub open spec fn strictly_increasing(s: Seq<i64>) -> bool {
    forall|i: int, j: int| 0 <= i < j < s.len() ==> s[i] < s[j]
}

/// Whether `s` is sorted: no element is smaller than one before it.
pub open spec fn sorted(s: Seq<i64>) -> bool {
    forall|i: int, j: int| 0 <= i <= j < s.len() ==> s[i] <= s[j]
}

/// The first height that is not fetched: the tip minus the reorg margin.
pub open spec fn fetch_limit(tip: u64) -> i64 {
    ((tip - REORG_SAFETY_MARGIN) as u64) as i64
}

/// The first height that is fetched: `start_height`, or the genesis block.
pub open spec fn fetch_start(start_height: Option<u64>) -> i64 {
    (match start_height {
        Some(s) => s,
        None => 0u64,
    }) as i64
}

/// Whether height `h` is fetched: it lies between the start and the limit
/// and its stored statistics are not up to date.
pub open spec fn is_fetched(
    h: i64,
    tip: u64,
    start_height: Option<u64>,
    uptodate: Set<i64>,
) -> bool {
    &&& fetch_start(start_height) <= h < fetch_limit(tip)
    &&& !uptodate.contains(h as i64)
}

/// The heights to fetch, in increasing order: every height from `start_height`
/// (or 0) up to, but not including, `tip - REORG_SAFETY_MARGIN`, except those
/// in `uptodate`. A start or limit beyond `i64::MAX` wraps, as the casts in
/// the height arithmetic do.
pub fn heights_to_fetch(tip: u64, start_height: Option<u64>, uptodate: &BTreeSet<i64>) -> (heights:
    Vec<i64>)
    requires
        tip >= REORG_SAFETY_MARGIN,
    ensures
        strictly_increasing(heights@),
        forall|h: i64|
            #![trigger is_fetched(h, tip, start_height, uptodate@)]
            heights@.contains(h) <==> is_fetched(
                h,
                tip,
                start_height,
                uptodate@,
            ),
        forall|h: i64|
            (match start_height {
                Some(s) => s as i64,
                None => 0i64,
            }) <= h && h < ((tip - REORG_SAFETY_MARGIN) as u64) as i64 && !uptodate@.contains(h)
                ==> #[trigger] heights@.contains(h),
        forall|i: int|
            0 <= i < heights@.len() ==> {
                &&& (match start_height {
                    Some(s) => s as i64,
                    None => 0i64,
                }) <= #[trigger] heights@[i]
                &&& heights@[i] < ((tip - REORG_SAFETY_MARGIN) as u64) as i64
                &&& !uptodate@.contains(heights@[i])
            },
        uptodate@.is_empty() ==> heights@.len() == if (match start_height {
            Some(s) => s as i64,
            None => 0i64,
        }) <= ((tip - REORG_SAFETY_MARGIN) as u64) as i64 {
            ((tip - REORG_SAFETY_MARGIN) as u64) as i64 - (match start_height {
                Some(s) => s as i64,
                None => 0i64,
            })
        } else {
            0
        },
{
    let fetch_height: u64 = tip - REORG_SAFETY_MARGIN;
    let limit: i64 = #[verifier::truncate] (fetch_height as i64);
    let start: i64 = match start_height {
        Some(s) => #[verifier::truncate] (s as i64),
        None => 0,
    };
    let mut heights: Vec<i64> = Vec::new();
    let mut h: i64 = start;
    while h < limit
        invariant
            start == fetch_start(start_height),
            limit == fetch_limit(tip),
            start <= h <= limit || (h == start && start >= limit),
            strictly_increasing(heights@),
            forall|i: int|
                0 <= i < heights@.len() ==> start <= #[trigger] heights@[i] < h
                    && !uptodate@.contains(heights@[i]),
            uptodate@.is_empty() ==> heights@.len() == h - start,
            forall|x: i64| start <= x < h ==> (heights@.contains(x) <==> !uptodate@.contains(x)),
        decreases limit - h,
    {
        let ghost prev = heights@;
        let present = uptodate.contains(&h);
        assert(present == uptodate@.contains(h));
        if !present {
            heights.push(h);
        }
        proof {
            assert forall|x: i64| start <= x < h + 1 implies (heights@.contains(x)
                <==> !uptodate@.contains(x)) by {
                if x < h {
                    if heights@.contains(x) {
                        let k = choose|k: int| 0 <= k < heights@.len() && heights@[k] == x;
                        assert(k < prev.len());
                        assert(prev[k] == x);
                    }
                    if prev.contains(x) {
                        let k = choose|k: int| 0 <= k < prev.len() && prev[k] == x;
                        assert(heights@[k] == x);
                    }
                } else if !present {
                    assert(heights@[heights@.len() - 1] == h);
                } else {
                    if heights@.contains(x) {
                        let k = choose|k: int| 0 <= k < heights@.len() && heights@[k] == x;
                    }
                }
            }
        }
        h = h + 1;
    }
    heights
}


/// Why a sync does not start.
#[derive(Clone, Copy, Debug, PartialEq, Eq, Structural)]
pub enum NotReady {
    /// The node is still in its initial block download.
    InitialBlockDownload,
}

/// A sync only starts once the node has finished its initial block download.
pub fn check_node_ready(initial_block_download: bool) -> (ready: Result<(), NotReady>)
    ensures
        ready is Err <==> initial_block_download,
{
    if initial_block_download {
        Err(NotReady::InitialBlockDownload)
    } else {
        Ok(())
    }
}

/// The heights a sync fetches.
pub open spec fn fetched_heights(tip: u64, start_height: Option<u64>, uptodate: Set<i64>) -> Set<
    i64,
> {
    Set::new(|h: i64| is_fetched(h, tip, start_height, uptodate))
}

/// Running a sync again fetches nothing: once the heights fetched by one run
/// are stored, so that the next run finds them up to date (and everything
/// that was up to date before still is), a run against the same tip and
/// start height fetches no height at all.
pub proof fn law_second_run_fetches_nothing(
    tip: u64,
    start_height: Option<u64>,
    uptodate: Set<i64>,
    uptodate_after: Set<i64>,
)
    requires
        uptodate.subset_of(uptodate_after),
        fetched_heights(tip, start_height, uptodate).subset_of(uptodate_after),
    ensures
        fetched_heights(tip, start_height, uptodate_after) == Set::<i64>::empty(),
{
    assert forall|h: i64| !is_fetched(h, tip, start_height, uptodate_after) by {
        if is_fetched(h, tip, start_height, uptodate_after) {
            assert(!uptodate.contains(h));
            assert(fetched_heights(tip, start_height, uptodate).contains(h));
        }
    }
    assert(fetched_heights(tip, start_height, uptodate_after) =~= Set::<i64>::empty());
}


/// A height is fetched exactly when it lies from the start height (or
/// genesis) up to the tip less the reorg margin, and its stored statistics
/// are not up to date.
pub proof fn law_fetched_heights_are_range_minus_uptodate(
    h: i64,
    tip: u64,
    start_height: Option<u64>,
    uptodate: Set<i64>,
)
    requires
        tip >= REORG_SAFETY_MARGIN,
    ensures
        is_fetched(h, tip, start_height, uptodate) <==> ((match start_height {
            Some(s) => s as i64,
            None => 0i64,
        }) <= h && h < ((tip - REORG_SAFETY_MARGIN) as u64) as i64 && !uptodate.contains(h)),
{
}
} // verus!
