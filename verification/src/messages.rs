//! Messages exchanged by the sync protocols, as plain data.
//!
//! These are the values the library reasons about; their wire encoding is
//! done outside the library.

use vstd::prelude::*;

verus! {

/// Which way a single-comic sync moves files: `Push` sends the local
/// chapters to the peer, `Pull` asks the peer for its chapters.
#[derive(Debug, Clone, Copy, PartialEq, Eq, Structural)]
pub enum SyncDirection {
    Push,
    Pull,
}

/// Reading progress of one chapter, keyed by comic name and chapter label.
#[derive(Debug, Clone, PartialEq, Eq)]
pub struct HistoryEntry {
    pub comic_name: String,
    pub chapter: String,
    pub last_page: i64,
    pub is_completed: bool,
    pub updated_at: i64,
}

/// A "chapter was read" marker; merged as a union, never overwritten.
#[derive(Debug, Clone, PartialEq, Eq)]
pub struct ReadMarker {
    pub comic_name: String,
    pub chapter: String,
    pub created_at: i64,
}

/// The whole reading history of one side.
#[derive(Debug, Clone, PartialEq, Eq)]
pub struct HistoryManifest {
    pub entries: Vec<HistoryEntry>,
    pub read_markers: Vec<ReadMarker>,
}

/// One chapter file as announced in a file manifest.
#[derive(Debug, Clone, PartialEq, Eq)]
pub struct FileChapterInfo {
    pub chapter: String,
    pub file_name: String,
    pub checksum: Option<String>,
    pub size: u64,
}

/// A per-comic extra file (cover, banner or `ComicInfo.xml`).
#[derive(Debug, Clone, PartialEq, Eq)]
pub struct FileExtraInfo {
    pub file_name: String,
    pub checksum: String,
    pub size: u64,
}

/// Everything one side holds of one comic.
#[derive(Debug, Clone, PartialEq, Eq)]
pub struct FileComicInfo {
    pub comic_name: String,
    pub chapters: Vec<FileChapterInfo>,
    pub cover: Option<FileExtraInfo>,
    pub banner: Option<FileExtraInfo>,
    pub comic_info: Option<FileExtraInfo>,
}

/// Everything one side holds.
#[derive(Debug, Clone, PartialEq, Eq)]
pub struct FileManifest {
    pub comics: Vec<FileComicInfo>,
}

/// Kind of the cover extra.
pub const EXTRA_KIND_COVER: &'static str = "cover";

/// Kind of the banner extra.
pub const EXTRA_KIND_BANNER: &'static str = "banner";

/// Kind of the `ComicInfo.xml` extra.
pub const EXTRA_KIND_COMIC_INFO: &'static str = "comic_info";

/// What this side wants from the peer: `(comic_name, chapter)` pairs and
/// `(comic_name, kind)` pairs of extras.
#[derive(Debug, Clone, PartialEq, Eq)]
pub struct FileWantList {
    pub wanted: Vec<(String, String)>,
    pub wanted_extras: Vec<(String, String)>,
}

/// Announces one chapter transfer; `size == 0` means "no longer available".
#[derive(Debug, Clone, PartialEq, Eq)]
pub struct FileHeader {
    pub comic_name: String,
    pub chapter: String,
    pub file_name: String,
    pub size: u64,
    pub checksum: Option<String>,
    pub blob_hash: Option<String>,
}

/// Announces one extra transfer; `size == 0` means "no longer available".
#[derive(Debug, Clone, PartialEq, Eq)]
pub struct FileExtraHeader {
    pub comic_name: String,
    pub kind: String,
    pub file_name: String,
    pub size: u64,
    pub checksum: Option<String>,
    pub blob_hash: Option<String>,
}

/// First message of a single-comic sync: the comic it is scoped to.
#[derive(Debug, Clone, PartialEq, Eq)]
pub struct ComicSyncRequest {
    pub comic_name: String,
}

/// Empty request that opens a library browse.
#[derive(Debug, Clone, PartialEq, Eq)]
pub struct LibraryBrowseRequest {}

/// Summary of one remote comic.
#[derive(Debug, Clone, PartialEq, Eq)]
pub struct ComicSummaryEntry {
    pub comic_name: String,
    pub chapter_count: u32,
    pub cover_version: i64,
}

/// Summary of the remote library.
#[derive(Debug, Clone, PartialEq, Eq)]
pub struct LibrarySummary {
    pub comics: Vec<ComicSummaryEntry>,
}

/// Asks for the cover of one comic; `known_version` is the version cached
/// locally, if any.
#[derive(Debug, Clone, PartialEq, Eq)]
pub struct CoverRequest {
    pub comic_name: String,
    pub known_version: Option<i64>,
}

/// Cover status: the cached version is current.
pub const COVER_STATUS_NOT_MODIFIED: &'static str = "not_modified";

/// Cover status: a newer cover is published under `cover_hash`.
pub const COVER_STATUS_CHANGED: &'static str = "changed";

/// Cover status: the comic has no cover.
pub const COVER_STATUS_UNAVAILABLE: &'static str = "unavailable";

/// Answer to a `CoverRequest`.
#[derive(Debug, Clone, PartialEq, Eq)]
pub struct CoverResponse {
    pub status: String,
    pub cover_version: Option<i64>,
    pub cover_hash: Option<String>,
}

/// Sent in place of a manifest when a session is refused as busy.
#[derive(Debug, Clone, PartialEq, Eq)]
pub struct SessionBusy {
    pub error: String,
    pub reason: String,
}

} // verus!
