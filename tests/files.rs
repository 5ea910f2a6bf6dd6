use binance_ingest::checksum::digest_matches;
use binance_ingest::file::{ArchiveError, DownloadError, DownloadStep, File};
use sha2::{Digest, Sha256};

const KEY: &str = "data/spot/monthly/trades/BTCUSDC/BTCUSDC-trades-2024-01.zip";

fn hex_of(bytes: &[u8]) -> String {
    bytes.iter().map(|b| format!("{:02X}", b)).collect()
}

fn file() -> File {
    File::new("BTCUSDC", KEY, &format!("{}.CHECKSUM", KEY), "/tmp/t").unwrap()
}

#[test]
fn local_path() {
    let f = file();
    assert_eq!(
        f.path,
        "/tmp/t/binance/spot/monthly/trades/BTCUSDC/BTCUSDC-trades-2024-01.zip"
    );
    assert_eq!(f.pair, "BTCUSDC");
    assert_eq!(f.object_key, KEY);
    assert_eq!(f.checksum_key, format!("{}.CHECKSUM", KEY));
}

#[test]
fn trailing_slashes_of_data_dir_are_ignored() {
    let a = File::new("P", "data/x/y.zip", "data/x/y.zip.CHECKSUM", "/tmp/t///").unwrap();
    assert_eq!(a.path, "/tmp/t/binance/x/y.zip");
    let b = File::new("P", "other/y.zip", "other/y.zip.CHECKSUM", "/d").unwrap();
    assert_eq!(b.path, "/d/other/y.zip");
}

#[test]
fn home_is_expanded() {
    let f = File::new("P", "data/x.zip", "data/x.zip.CHECKSUM", "~/cache").unwrap();
    assert!(!f.path.starts_with('~'));
    assert!(f.path.ends_with("/cache/binance/x.zip"));
}

#[test]
fn unset_variable_fails_expansion() {
    let r = File::new("P", "data/x.zip", "c", "$BINANCE_INGEST_SURELY_UNSET_VAR/d");
    let e = r.unwrap_err();
    assert_eq!(e.variable, "BINANCE_INGEST_SURELY_UNSET_VAR");
}

#[test]
fn checksum_round_trip() {
    let contents: Vec<u8> = (0u8..=255).cycle().take(5000).collect();
    let digest = Sha256::digest(&contents);
    let f = file();
    let body = format!("{}  BTCUSDC-trades-2024-01.zip\n", hex_of(&digest));
    assert!(f.check_download(&body, &contents).is_ok());
    assert!(f.check_download(&body.to_lowercase(), &contents).is_ok());
    let mut flipped = contents.clone();
    flipped[17] ^= 0x04;
    match f.check_download(&body, &flipped) {
        Err(DownloadError::ChecksumMismatch { path }) => assert_eq!(path, f.path),
        Ok(()) => panic!("a flipped bit must not match"),
    }
}

#[test]
fn digest_compared_by_first_token() {
    let digest = [0xabu8, 0x01];
    assert!(digest_matches("AB01", &digest));
    assert!(digest_matches("  ab01\tname", &digest));
    assert!(!digest_matches("AB0", &digest));
    assert!(!digest_matches("AB01X", &digest));
    assert!(!digest_matches("", &digest));
    assert!(digest_matches("", &[]));
    let f = file();
    assert!(f.check_digest("ab01 x", &digest).is_ok());
    assert!(f.check_digest("ab02 x", &digest).is_err());
}

#[test]
fn present_file_is_not_fetched() {
    let f = file();
    assert_eq!(f.download_step(true), DownloadStep::AlreadyPresent);
    assert_eq!(f.download_step(false), DownloadStep::Fetch);
}

#[test]
fn two_entries_are_malformed() {
    let f = file();
    match f.archive_entry(2) {
        Err(ArchiveError::MalformedArchive { path, entries }) => {
            assert_eq!(entries, 2);
            assert_eq!(path, f.path);
        }
        Ok(_) => panic!("two entries must be refused"),
    }
    assert!(f.archive_entry(0).is_err());
    assert_eq!(f.archive_entry(1).unwrap(), 0);
}
