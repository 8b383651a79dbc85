//! Which files the library scanner takes in: chapter archives, the
//! `ComicInfo.xml` metadata file, and `cover`/`banner` artwork.

use vstd::prelude::*;
use crate::formats::{
    eq_ignore_case, eq_ignore_case_exec, spec_archive_format, spec_image_format_of_path,
    ArchiveFormat, ImageFileFormat,
};
use crate::paths::{extension, file_name, file_stem, spec_extension, spec_file_name, spec_file_stem};

verus! {

/// Why a file was refused.
#[derive(Debug, Clone, PartialEq, Eq)]
pub enum FileError {
    MissingExtension,
    ExtensionNotAllowed(String),
    MissingFileName,
    FileNameNotAllowed(String),
    NotAllowed(String),
}

impl FileError {
    /// The refusal used when no guard accepts a file.
    pub fn not_allowed(name: &str) -> (r: FileError)
        ensures
            r matches FileError::NotAllowed(n) && n@ == name@,
    {
        FileError::NotAllowed(name.to_string())
    }
}

/// Outcome of a guard, with the refusal's text kept as characters.
pub enum GuardOutcome {
    Allowed,
    MissingExtension,
    ExtensionNotAllowed(Seq<char>),
    MissingFileName,
    FileNameNotAllowed(Seq<char>),
    NotAllowed(Seq<char>),
}

/// The outcome a `Result<(), FileError>` stands for.
pub open spec fn outcome_of(r: Result<(), FileError>) -> GuardOutcome {
    match r {
        Ok(()) => GuardOutcome::Allowed,
        Err(FileError::MissingExtension) => GuardOutcome::MissingExtension,
        Err(FileError::ExtensionNotAllowed(e)) => GuardOutcome::ExtensionNotAllowed(e@),
        Err(FileError::MissingFileName) => GuardOutcome::MissingFileName,
        Err(FileError::FileNameNotAllowed(n)) => GuardOutcome::FileNameNotAllowed(n@),
        Err(FileError::NotAllowed(n)) => GuardOutcome::NotAllowed(n@),
    }
}

pub open spec fn comic_info_name() -> Seq<char> {
    "ComicInfo.xml"@
}

pub open spec fn cover_stem() -> Seq<char> {
    seq!['c', 'o', 'v', 'e', 'r']
}

pub open spec fn banner_stem() -> Seq<char> {
    seq!['b', 'a', 'n', 'n', 'e', 'r']
}

/// Any chapter container, PDF included.
pub open spec fn spec_supported(path: Seq<char>) -> GuardOutcome {
    match spec_extension(path) {
        None => GuardOutcome::MissingExtension,
        Some(ext) => if spec_archive_format(ext) is Some {
            GuardOutcome::Allowed
        } else {
            GuardOutcome::ExtensionNotAllowed(ext)
        },
    }
}

/// A chapter container that can be read directly (CBZ or CBR, not PDF).
pub open spec fn spec_archive(path: Seq<char>) -> GuardOutcome {
    match spec_extension(path) {
        None => GuardOutcome::MissingExtension,
        Some(ext) => match spec_archive_format(ext) {
            Some(ArchiveFormat::Cbz) | Some(ArchiveFormat::Cbr) => GuardOutcome::Allowed,
            _ => GuardOutcome::ExtensionNotAllowed(ext),
        },
    }
}

/// The `ComicInfo.xml` metadata file, its name compared ignoring ASCII case.
pub open spec fn spec_metadata(path: Seq<char>) -> GuardOutcome {
    match spec_file_name(path) {
        None => GuardOutcome::MissingFileName,
        Some(name) => if eq_ignore_case(name, comic_info_name()) {
            GuardOutcome::Allowed
        } else {
            GuardOutcome::FileNameNotAllowed(name)
        },
    }
}

/// `cover.<image>` or `banner.<image>`, stem compared exactly.
pub open spec fn spec_artwork(path: Seq<char>) -> GuardOutcome {
    match spec_file_name(path) {
        None => GuardOutcome::MissingFileName,
        Some(name) => match spec_file_stem(path) {
            None => GuardOutcome::MissingFileName,
            Some(stem) => if (stem == cover_stem() || stem == banner_stem())
                && spec_image_format_of_path(path) is Some {
                GuardOutcome::Allowed
            } else {
                GuardOutcome::FileNameNotAllowed(name)
            },
        },
    }
}

/// The stem of `path` is exactly `expected` and its extension names an image.
pub open spec fn spec_named_artwork(path: Seq<char>, expected: Seq<char>) -> bool {
    let stem = match spec_file_stem(path) {
        Some(s) => s,
        None => Seq::<char>::empty(),
    };
    stem == expected && spec_image_format_of_path(path) is Some
}

/// The scanner keeps a file when at least one of the supported, metadata or
/// artwork guards accepts it; otherwise it is refused by name (or `Unknown`).
pub open spec fn spec_scanner(path: Seq<char>) -> GuardOutcome {
    if spec_supported(path) is Allowed || spec_metadata(path) is Allowed || spec_artwork(
        path,
    ) is Allowed {
        GuardOutcome::Allowed
    } else {
        GuardOutcome::NotAllowed(
            match spec_file_name(path) {
                Some(name) => name,
                None => "Unknown"@,
            },
        )
    }
}

/// A rule deciding whether a file may enter the library.
pub trait FileGuard {
    fn is_allowed(&self, path: &str) -> Result<(), FileError>;
}

pub struct SupportedFileGuard;

pub struct ArchiveFileGuard;

pub struct MetadataFileGuard;

pub struct ArtworkFileGuard;

impl FileGuard for SupportedFileGuard {
    fn is_allowed(&self, path: &str) -> (r: Result<(), FileError>)
        ensures
            outcome_of(r) == spec_supported(path@),
    {
        let ext = match extension(path) {
            Some(e) => e,
            None => return Err(FileError::MissingExtension),
        };
        match ArchiveFormat::from_extension(ext.as_str()) {
            Some(_) => Ok(()),
            None => Err(FileError::ExtensionNotAllowed(ext)),
        }
    }
}

impl FileGuard for ArchiveFileGuard {
    fn is_allowed(&self, path: &str) -> (r: Result<(), FileError>)
        ensures
            outcome_of(r) == spec_archive(path@),
    {
        let ext = match extension(path) {
            Some(e) => e,
            None => return Err(FileError::MissingExtension),
        };
        match ArchiveFormat::from_extension(ext.as_str()) {
            Some(ArchiveFormat::Pdf) | None => Err(FileError::ExtensionNotAllowed(ext)),
            Some(_) => Ok(()),
        }
    }
}

impl FileGuard for MetadataFileGuard {
    fn is_allowed(&self, path: &str) -> (r: Result<(), FileError>)
        ensures
            outcome_of(r) == spec_metadata(path@),
    {
        let name = match file_name(path) {
            Some(n) => n,
            None => return Err(FileError::MissingFileName),
        };
        let name_chars = crate::text::chars_of(name.as_str());
        let expected = crate::text::chars_of("ComicInfo.xml");
        if eq_ignore_case_exec(&name_chars, &expected) {
            Ok(())
        } else {
            Err(FileError::FileNameNotAllowed(name))
        }
    }
}

fn is_word(s: &str, word: Vec<char>) -> (r: bool)
    ensures
        r == (s@ == word@),
{
    let c = crate::text::chars_of(s);
    if c.len() != word.len() {
        return false;
    }
    let mut i: usize = 0;
    while i < c.len()
        invariant
            c.len() == word.len(),
            c@ == s@,
            i <= c.len(),
            forall|k: int| 0 <= k < i ==> c@[k] == word@[k],
        decreases c.len() - i,
    {
        if c[i] != word[i] {
            return false;
        }
        i += 1;
    }
    assert(c@ =~= word@);
    true
}

impl FileGuard for ArtworkFileGuard {
    fn is_allowed(&self, path: &str) -> (r: Result<(), FileError>)
        ensures
            outcome_of(r) == spec_artwork(path@),
    {
        let name = match file_name(path) {
            Some(n) => n,
            None => return Err(FileError::MissingFileName),
        };
        let stem = match file_stem(path) {
            Some(s) => s,
            None => return Err(FileError::MissingFileName),
        };
        let named = is_word(stem.as_str(), vec!['c', 'o', 'v', 'e', 'r']) || is_word(
            stem.as_str(),
            vec!['b', 'a', 'n', 'n', 'e', 'r'],
        );
        if named && ImageFileFormat::from_path(path).is_some() {
            Ok(())
        } else {
            Err(FileError::FileNameNotAllowed(name))
        }
    }
}

/// Whether `path` is artwork whose stem is exactly `expected_stem`.
pub fn is_named_artwork(path: &str, expected_stem: &str) -> (r: bool)
    ensures
        r == spec_named_artwork(path@, expected_stem@),
{
    let stem = match file_stem(path) {
        Some(s) => s,
        None => String::new(),
    };
    let expected = crate::text::chars_of(expected_stem);
    is_word(stem.as_str(), expected) && ImageFileFormat::from_path(path).is_some()
}

impl ArtworkFileGuard {
    /// An allowed artwork file whose stem is `cover`.
    pub fn is_cover(&self, path: &str) -> (r: bool)
        ensures
            r == (spec_artwork(path@) is Allowed && spec_named_artwork(path@, cover_stem())),
    {
        if self.is_allowed(path).is_err() {
            return false;
        }
        proof {
            reveal_strlit("cover");
        }
        assert("cover"@ =~= cover_stem());
        is_named_artwork(path, "cover")
    }

    /// An allowed artwork file whose stem is `banner`.
    pub fn is_banner(&self, path: &str) -> (r: bool)
        ensures
            r == (spec_artwork(path@) is Allowed && spec_named_artwork(path@, banner_stem())),
    {
        if self.is_allowed(path).is_err() {
            return false;
        }
        proof {
            reveal_strlit("banner");
        }
        assert("banner"@ =~= banner_stem());
        is_named_artwork(path, "banner")
    }
}

/// The scanner's admission rule: the union of the supported-archive,
/// metadata and artwork guards.
pub struct ScannerGuard {
    supported: SupportedFileGuard,
    metadata: MetadataFileGuard,
    artwork: ArtworkFileGuard,
}

impl ScannerGuard {
    pub fn new() -> (r: ScannerGuard) {
        ScannerGuard {
            supported: SupportedFileGuard,
            metadata: MetadataFileGuard,
            artwork: ArtworkFileGuard,
        }
    }

    /// Accepts `path` when any of the three guards does.
    pub fn is_allowed(&self, path: &str) -> (r: Result<(), FileError>)
        ensures
            outcome_of(r) == spec_scanner(path@),
    {
        let all_rejected = self.supported.is_allowed(path).is_err() && self.metadata.is_allowed(
            path,
        ).is_err() && self.artwork.is_allowed(path).is_err();
        if all_rejected {
            let name = match file_name(path) {
                Some(n) => n,
                None => "Unknown".to_string(),
            };
            return Err(FileError::not_allowed(name.as_str()));
        }
        Ok(())
    }
}

/// Whether `path` is a file that a metadata sync writes into a comic
/// folder (`ComicInfo.xml`, cover or banner art), and so is removed when
/// the comic's metadata is cleared.
pub fn is_synced_metadata_file(path: &str) -> (r: bool)
    ensures
        r == (spec_metadata(path@) is Allowed || spec_artwork(path@) is Allowed),
{
    MetadataFileGuard.is_allowed(path).is_ok() || ArtworkFileGuard.is_allowed(path).is_ok()
}

} // verus!
