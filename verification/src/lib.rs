//! Verified core of the Acerola desktop comic library.

pub mod text;
pub mod paths;
pub mod formats;
pub mod files_guard;
pub mod path_guard;
pub mod chapter_archive;
pub mod natural_sort;
pub mod reader;
pub mod messages;
pub mod registries;
pub mod checksum;
pub mod transfer;
pub mod security;
pub mod peer_store;
pub mod clock;
pub mod sync_log;
pub mod file_sync;
pub mod history_sync;
pub mod library;
pub mod scanner;
pub mod chapter_listing;
pub mod metadata;
pub mod archive;
pub mod reader_session;
pub mod browse;
pub mod templates;
pub mod chapters;
