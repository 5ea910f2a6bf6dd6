use vstd::prelude::*;

verus! {

/// Suffix that turns an archive's key into its checksum object's key.
pub const CHECKSUM_SUFFIX: &'static str = ".CHECKSUM";

/// Pair listings that run at once.
pub const PAIR_LISTING_CONCURRENCY: usize = 100;

/// Downloads that run at once.
pub const DOWNLOAD_CONCURRENCY: usize = 50;

/// Files that are indexed at once.
pub const INDEX_CONCURRENCY: usize = 10;

/// Rows after which a file's inserter flushes.
pub const INSERT_MAX_ROWS: u64 = 500000;

/// Seconds after which a file's inserter flushes.
pub const INSERT_PERIOD_SECS: u64 = 15;

/// Where downloaded archives are kept.
#[derive(Debug, Clone)]
pub struct DataConfig {
    pub dir: String,
}

/// The bucket that archives are listed in and fetched from.
#[derive(Debug, Clone)]
pub struct BinanceConfig {
    pub bucket_name: String,
}

/// How to reach the database.
#[derive(Debug, Clone)]
pub struct ClickhouseConfig {
    pub url: String,
    pub user: String,
    pub password: String,
}

/// The settings of a run.
#[derive(Debug, Clone)]
pub struct Config {
    pub data: DataConfig,
    pub binance: BinanceConfig,
    pub clickhouse: ClickhouseConfig,
}

} // verus!
