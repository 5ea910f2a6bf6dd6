pub mod checksum;
pub mod config;
pub mod data_types;
pub mod downloader;
pub mod file;
pub mod file_collection;
pub mod pair;
pub mod quantities;
pub mod record;
pub mod text;
pub mod trades;
