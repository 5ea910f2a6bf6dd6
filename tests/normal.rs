use binance_ingest::downloader::Downloader;
use binance_ingest::file::File;
use binance_ingest::file_collection::FileCollection;
use binance_ingest::pair::Pair;

fn is_normal<T: Sized + Send + Sync + Unpin>() {}

#[test]
fn downloader_is_normal() {
    is_normal::<Downloader>();
}

#[test]
fn file_is_normal() {
    is_normal::<File>();
}

#[test]
fn file_collection_is_normal() {
    is_normal::<FileCollection>();
}

#[test]
fn test_pair_is_normal() {
    is_normal::<Pair>();
}
