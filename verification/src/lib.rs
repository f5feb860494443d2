//! Verified core of the mainnet-observer backend: the decisions that drive
//! fetching blocks from a Bitcoin Core REST interface and storing their
//! statistics, separated from the network, database and thread plumbing.
pub mod batch;
pub mod block_hash;
pub mod header_walk;
pub mod rest;
pub mod retry;
pub mod sync_plan;
pub mod timings;

pub use batch::DATABASE_BATCH_SIZE;
pub use sync_plan::REORG_SAFETY_MARGIN;

use vstd::prelude::*;

verus! {

/// The command line options of the backend.
pub struct Args {
    /// Host part of the Bitcoin Core REST API endpoint
    pub rest_host: String,
    /// Port part of the Bitcoin Core REST API endpoint
    pub rest_port: u16,
    /// Path to the SQLite database file where the stats are stored
    pub database_path: String,
    /// Path where the CSV files should be written to
    pub csv_path: String,
    /// Flag to disable CSV file writing
    pub no_csv: bool,
    /// Flag to disable stat generation
    pub no_stats: bool,
    /// Number of threads to use for parallel block fetching.
    pub num_threads: usize,
    /// Only sync blocks starting from this height (inclusive). Blocks below
    /// this height are skipped.
    pub start_height: Option<u64>,
}

} // verus!
