use binance_ingest::pair::{terminated_path, Pair};

#[test]
fn test_new_pair() {
    let expected = Pair {
        prefix: "path/to/pair".to_string(),
        name: "BTCUSDC".to_string(),
    };
    let pair = Pair::new("path/to/pair", "BTCUSDC");
    assert_eq!(expected, pair);
}

#[test]
fn pair_is_named_after_last_segment() {
    let pair = Pair::from_prefix("data/spot/monthly/trades/BTCUSDC/");
    assert_eq!(pair.prefix, "data/spot/monthly/trades/BTCUSDC/");
    assert_eq!(pair.name, "BTCUSDC");
    assert_eq!(Pair::from_prefix("ETHUSDC").name, "ETHUSDC");
    assert_eq!(Pair::from_prefix("a/b").name, "b");
}

#[test]
fn pairs_differ_by_either_field() {
    assert_ne!(Pair::new("a/", "X"), Pair::new("b/", "X"));
    assert_ne!(Pair::new("a/", "X"), Pair::new("a/", "Y"));
}

#[test]
fn listing_paths_end_with_slash() {
    assert_eq!(terminated_path("data/spot"), "data/spot/");
    assert_eq!(terminated_path("data/spot/"), "data/spot/");
    assert_eq!(terminated_path(""), "/");
}
