//! Counters of the time the block processing pipeline spends in each stage.
//!
//! Durations are summed in nanoseconds across the threads of a stage, in
//! shared atomic counters.
use std::sync::atomic::AtomicU64;
use std::sync::atomic::Ordering;
use std::time::Duration;
use vstd::prelude::*;

verus! {

/// `Duration::as_nanos`: the whole number of nanoseconds in `duration`.
/// A `Duration` is opaque here, so nothing is claimed of the result.
#[verifier::external_body]
fn duration_as_nanos(duration: Duration) -> u128 {
    duration.as_nanos()
}

/// The low 64 bits of `nanos`: what a 64-bit nanosecond counter can add.
pub fn counter_nanos(nanos: u128) -> (counted: u64)
    ensures
        counted == nanos % 0x1_0000_0000_0000_0000,
{
    let counted = #[verifier::truncate] (nanos as u64);
    assert(counted == nanos % 0x1_0000_0000_0000_0000) by (bit_vector)
        requires
            counted == nanos as u64,
    ;
    counted
}

/// Adds `duration` to a counter of nanoseconds. The counter wraps around, as
/// an atomic addition does.
pub fn record(counter: &AtomicU64, duration: Duration) {
    let nanos = counter_nanos(duration_as_nanos(duration));
    counter.fetch_add(nanos, Ordering::Relaxed);
}

/// The value of a counter.
pub fn count(counter: &AtomicU64) -> u64 {
    counter.load(Ordering::Relaxed)
}


/// `Duration::ZERO`. A `Duration` is opaque here, so nothing is claimed of it.
#[verifier::external_body]
fn zero_duration() -> Duration {
    Duration::ZERO
}

/// Where the time went while fetching a single block.
#[derive(Debug)]
pub struct FetchTiming {
    /// Looking up the block hash for a height.
    pub hash_request: Duration,
    /// Between asking for the block and Bitcoin Core starting to answer.
    pub first_byte: Duration,
    /// Receiving the block JSON, which is also Bitcoin Core serializing it.
    pub body: Duration,
    /// Deserializing the block JSON.
    pub parse: Duration,
    /// Size of the block JSON in bytes.
    pub bytes: usize,
}

impl Default for FetchTiming {
    /// No time spent and no bytes received yet.
    fn default() -> (timing: FetchTiming)
        ensures
            timing.bytes == 0,
    {
        FetchTiming {
            hash_request: zero_duration(),
            first_byte: zero_duration(),
            body: zero_duration(),
            parse: zero_duration(),
            bytes: 0,
        }
    }
}

} // verus!
