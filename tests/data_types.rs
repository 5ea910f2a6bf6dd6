use std::path::Path;

use binance_ingest::data_types::{Asset, Cadence, DataType};

#[test]
fn test_as_str() {
    assert_eq!(Asset::Futures.as_str(), "futures");
    assert_eq!(Asset::Option.as_str(), "option");
    assert_eq!(Asset::Spot.as_str(), "spot");
    assert_eq!(Cadence::Daily.as_str(), "daily");
    assert_eq!(DataType::AggTrades.as_str(), "aggtrades");
}

#[test]
fn test_display() {
    assert_eq!(Asset::Futures.to_string(), "futures");
    assert_eq!(Cadence::Daily.to_string(), "daily");
    assert_eq!(DataType::AggTrades.to_string(), "aggtrades");
}

#[test]
fn test_as_ref() {
    assert_eq!(Path::new(Asset::Futures.as_str()), Path::new("futures"));
    assert_eq!(Path::new(Cadence::Daily.as_str()), Path::new("daily"));
    assert_eq!(Path::new(DataType::AggTrades.as_str()), Path::new("aggtrades"));
}

#[test]
fn remaining_names_are_lower_case() {
    assert_eq!(Cadence::Monthly.as_str(), "monthly");
    assert_eq!(DataType::KLines.as_str(), "klines");
    assert_eq!(DataType::Trades.as_str(), "trades");
}
