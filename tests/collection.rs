use binance_ingest::file_collection::{CollectionError, FileCollection};

fn keys(ks: &[&str]) -> Vec<String> {
    ks.iter().map(|k| k.to_string()).collect()
}

#[test]
fn missing_checksum() {
    let r = FileCollection::from_objects(
        "FOO",
        &keys(&["foo.zip", "foo.zip.CHECKSUM", "bar.zip"]),
        ".CHECKSUM",
        "/tmp/t",
    );
    let e = r.unwrap_err();
    assert!(matches!(&e, CollectionError::MissingChecksum(k) if k == "bar.zip"));
    assert_eq!(e.message(), "missing checksum for bar.zip");
}

#[test]
fn missing_archive_is_reported() {
    let r = FileCollection::from_objects(
        "FOO",
        &keys(&["a.zip.CHECKSUM", "b.zip", "b.zip.CHECKSUM"]),
        ".CHECKSUM",
        "/tmp/t",
    );
    let e = r.unwrap_err();
    assert!(matches!(&e, CollectionError::MissingArchive(k) if k == "a.zip.CHECKSUM"));
    assert_eq!(e.message(), "missing archive for a.zip.CHECKSUM");
}

#[test]
fn complete_listing_pairs_every_archive() {
    let c = FileCollection::from_objects(
        "BTCUSDC",
        &keys(&[
            "data/spot/monthly/trades/BTCUSDC/b.zip.CHECKSUM",
            "data/spot/monthly/trades/BTCUSDC/a.zip",
            "data/spot/monthly/trades/BTCUSDC/b.zip",
            "data/spot/monthly/trades/BTCUSDC/a.zip.CHECKSUM",
        ]),
        ".CHECKSUM",
        "/tmp/t/",
    )
    .unwrap();
    assert_eq!(c.len(), 2);
    let f = &c.files()[0];
    assert_eq!(f.object_key, "data/spot/monthly/trades/BTCUSDC/a.zip");
    assert_eq!(f.checksum_key, "data/spot/monthly/trades/BTCUSDC/a.zip.CHECKSUM");
    assert_eq!(f.path, "/tmp/t/binance/spot/monthly/trades/BTCUSDC/a.zip");
    assert_eq!(f.pair, "BTCUSDC");
    assert_eq!(c.files()[1].object_key, "data/spot/monthly/trades/BTCUSDC/b.zip");
}

#[test]
fn empty_listing_gives_empty_collection() {
    let c = FileCollection::from_objects("X", &Vec::new(), ".CHECKSUM", "/tmp").unwrap();
    assert_eq!(c.len(), 0);
    assert_eq!(FileCollection::empty().len(), 0);
}

#[test]
fn collections_merge_in_order() {
    let a = FileCollection::from_objects("A", &keys(&["a.zip", "a.zip.CHECKSUM"]), ".CHECKSUM", "/d")
        .unwrap();
    let b = FileCollection::from_objects(
        "B",
        &keys(&["b1.zip", "b1.zip.CHECKSUM", "b2.zip", "b2.zip.CHECKSUM"]),
        ".CHECKSUM",
        "/d",
    )
    .unwrap();
    let m = FileCollection::merge(vec![a, FileCollection::empty(), b]);
    let names: Vec<&str> = m.files().iter().map(|f| f.object_key.as_str()).collect();
    assert_eq!(names, vec!["a.zip", "b1.zip", "b2.zip"]);
    let again = FileCollection::new(m.into_files());
    assert_eq!(again.len(), 3);
}
