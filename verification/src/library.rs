//! Records of the comic library as the scanner stores them.

use vstd::prelude::*;

verus! {

/// A comic folder of the library.
#[derive(Debug, Clone, PartialEq, Eq)]
pub struct ComicDirectory {
    pub id: i64,
    pub name: String,
    pub path: String,
    pub cover: Option<String>,
    pub banner: Option<String>,
    pub last_modified: i64,
    pub archive_template_fk: Option<i64>,
    pub external_sync_enabled: bool,
    pub hidden: bool,
}

/// A volume folder inside a comic folder.
#[derive(Debug, Clone, PartialEq, Eq)]
pub struct VolumeArchive {
    pub id: i64,
    pub name: String,
    pub path: String,
    pub volume_sort: String,
    pub is_special: bool,
    pub cover: Option<String>,
    pub banner: Option<String>,
    pub comic_directory_fk: i64,
    pub last_modified: i64,
}

} // verus!
