use binance_ingest::data_types::{Asset, Cadence, DataType};
use binance_ingest::downloader::{Downloader, DownloaderError};
use binance_ingest::pair::Pair;

fn spot() -> Downloader {
    Downloader::new("test", Asset::Spot, Cadence::Monthly, DataType::Trades).unwrap()
}

fn names(d: &Downloader, candidates: &[&str]) -> Vec<String> {
    let pairs: Vec<Pair> = candidates.iter().map(|n| Pair::new(n, n)).collect();
    d.filter_pairs(pairs).into_iter().map(|p| p.name).collect()
}

#[test]
fn exclusion_before_suffix() {
    let d = spot().with_pair_excluded(&["DOWN"]).with_pair_ends_with(&["USDC"]);
    assert_eq!(
        names(&d, &["BTCUSDC", "ETHUSDC", "BTCDOWNUSDC", "BNBBTC"]),
        vec!["BTCUSDC".to_string(), "ETHUSDC".to_string()]
    );
}

#[test]
fn no_filter_accepts_all() {
    let d = spot();
    assert!(d.accepts("BTCUSDC"));
    assert!(d.accepts(""));
}

#[test]
fn filter_truth_table() {
    // excluded set, starts-with set, ends-with set; matched or not.
    let ex = spot().with_pair_excluded(&["DOWN"]);
    assert!(!ex.accepts("BTCDOWN"));
    assert!(ex.accepts("BTCUSDC"));
    let st = spot().with_pair_starts_with(&["BTC"]);
    assert!(st.accepts("BTCUSDC"));
    assert!(!st.accepts("ETHUSDC"));
    let en = spot().with_pair_ends_with(&["USDC"]);
    assert!(en.accepts("ETHUSDC"));
    assert!(!en.accepts("ETHBTC"));
    let both = spot().with_pair_starts_with(&["BTC"]).with_pair_ends_with(&["USDC"]);
    assert!(both.accepts("BTCETH"));
    assert!(both.accepts("ETHUSDC"));
    assert!(!both.accepts("ETHBTC"));
    let all = spot()
        .with_pair_excluded(&["DOWN"])
        .with_pair_starts_with(&["BTC"])
        .with_pair_ends_with(&["USDC"]);
    assert!(!all.accepts("BTCDOWNUSDC"));
    assert!(all.accepts("BTCETH"));
    assert!(!all.accepts("ETHBTC"));
    let ex_st = spot().with_pair_excluded(&["UP"]).with_pair_starts_with(&["ETH"]);
    assert!(!ex_st.accepts("ETHUP"));
    assert!(ex_st.accepts("ETHBTC"));
    assert!(!ex_st.accepts("BTCETH"));
    let empty_positive = spot().with_pair_ends_with(&[]);
    assert!(!empty_positive.accepts("BTCUSDC"));
}

#[test]
fn unsupported_coordinates_fail() {
    assert!(matches!(
        Downloader::new("x", Asset::Futures, Cadence::Daily, DataType::Trades),
        Err(DownloaderError::UnsupportedAsset(Asset::Futures))
    ));
    assert!(matches!(
        Downloader::new("x", Asset::Option, Cadence::Daily, DataType::AggTrades),
        Err(DownloaderError::UnsupportedAsset(Asset::Option))
    ));
    assert!(matches!(
        Downloader::new("x", Asset::Spot, Cadence::Daily, DataType::KLines),
        Err(DownloaderError::UnsupportedDataType(DataType::KLines))
    ));
}

#[test]
fn pairs_are_listed_under_coordinate() {
    assert_eq!(spot().pairs_path(), "data/spot/monthly/trades");
    let daily = Downloader::new("d", Asset::Spot, Cadence::Daily, DataType::Trades).unwrap();
    assert_eq!(daily.pairs_path(), "data/spot/daily/trades");
    assert_eq!(daily.name, "d");
}
