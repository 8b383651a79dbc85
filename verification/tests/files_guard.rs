use acerola::files_guard::{
    is_named_artwork, is_synced_metadata_file, ArchiveFileGuard, ArtworkFileGuard, FileError, FileGuard, MetadataFileGuard,
    ScannerGuard, SupportedFileGuard,
};

#[test]
fn test_comic_valid_extension() {
    let guard = SupportedFileGuard;
    assert!(guard.is_allowed("berserk.cbz").is_ok());
    assert!(guard.is_allowed("berserk.cbr").is_ok());
    assert!(guard.is_allowed("berserk.pdf").is_ok());
}

#[test]
fn test_comic_invalid_extension() {
    let guard = SupportedFileGuard;
    let result = guard.is_allowed("berserk.exe");
    assert!(matches!(result, Err(FileError::ExtensionNotAllowed(ext)) if ext == "exe"));
}

#[test]
fn test_comic_missing_extension() {
    let guard = SupportedFileGuard;
    assert!(matches!(guard.is_allowed("berserk"), Err(FileError::MissingExtension)));
}

#[test]
fn test_metadata_valid_name() {
    let guard = MetadataFileGuard;
    assert!(guard.is_allowed("ComicInfo.xml").is_ok());
}

#[test]
fn test_metadata_invalid_name() {
    let guard = MetadataFileGuard;
    let result = guard.is_allowed("info.xml");
    assert!(matches!(result, Err(FileError::FileNameNotAllowed(name)) if name == "info.xml"));
}

#[test]
fn test_archive_valid_extension() {
    let guard = ArchiveFileGuard;
    assert!(guard.is_allowed("berserk.cbz").is_ok());
    assert!(guard.is_allowed("berserk.cbr").is_ok());
}

#[test]
fn test_archive_rejects_pdf() {
    let guard = ArchiveFileGuard;
    let result = guard.is_allowed("berserk.pdf");
    assert!(matches!(result, Err(FileError::ExtensionNotAllowed(ext)) if ext == "pdf"));
}

#[test]
fn test_archive_rejects_unknown_extension() {
    let guard = ArchiveFileGuard;
    let result = guard.is_allowed("berserk.exe");
    assert!(matches!(result, Err(FileError::ExtensionNotAllowed(ext)) if ext == "exe"));
}

#[test]
fn test_artwork_is_banner() {
    let guard = ArtworkFileGuard;
    assert!(guard.is_banner("banner.png"));
    assert!(!guard.is_banner("cover.png"));
}

#[test]
fn test_artwork_is_cover() {
    let guard = ArtworkFileGuard;
    assert!(guard.is_cover("cover.png"));
    assert!(!guard.is_cover("banner.png"));
}

#[test]
fn test_is_named_artwork_requires_matching_stem() {
    assert!(is_named_artwork("banner.png", "banner"));
    assert!(!is_named_artwork("banner.png", "cover"));
    assert!(!is_named_artwork("banner.txt", "banner"));
}

#[test]
fn test_artwork_valid_names() {
    let guard = ArtworkFileGuard;
    assert!(guard.is_allowed("cover.png").is_ok());
    assert!(guard.is_allowed("cover.jpg").is_ok());
    assert!(guard.is_allowed("cover.jpeg").is_ok());
    assert!(guard.is_allowed("banner.png").is_ok());
    assert!(guard.is_allowed("banner.jpg").is_ok());
    assert!(guard.is_allowed("banner.jpeg").is_ok());
}

#[test]
fn test_artwork_invalid_name() {
    let guard = ArtworkFileGuard;
    let result = guard.is_allowed("thumbnail.png");
    assert!(matches!(result, Err(FileError::FileNameNotAllowed(name)) if name == "thumbnail.png"));
}

#[test]
fn test_scanner_accepts_comic() {
    let guard = ScannerGuard::new();
    assert!(guard.is_allowed("berserk.cbz").is_ok());
}

#[test]
fn test_scanner_accepts_metadata() {
    let guard = ScannerGuard::new();
    assert!(guard.is_allowed("ComicInfo.xml").is_ok());
}

#[test]
fn test_scanner_accepts_artwork() {
    let guard = ScannerGuard::new();
    assert!(guard.is_allowed("cover.png").is_ok());
}

#[test]
fn test_scanner_rejects_unknown_file() {
    let guard = ScannerGuard::new();
    let result = guard.is_allowed("script.sh");
    assert!(matches!(result, Err(FileError::NotAllowed(_))));
}

#[test]
fn extensions_are_compared_ignoring_case_and_paths_use_their_file_name() {
    let guard = ArchiveFileGuard;
    assert!(guard.is_allowed("/library/Berserk/Vol 01.CBZ").is_ok());
    assert!(matches!(
        ScannerGuard::new().is_allowed("/library/Berserk/notes.txt"),
        Err(FileError::NotAllowed(name)) if name == "notes.txt"
    ));
    assert!(MetadataFileGuard.is_allowed("/library/Berserk/comicinfo.XML").is_ok());
}

#[test]
fn synced_metadata_files_are_comic_info_and_artwork() {
    assert!(is_synced_metadata_file("/lib/A/ComicInfo.xml"));
    assert!(is_synced_metadata_file("/lib/A/comicinfo.XML"));
    assert!(is_synced_metadata_file("/lib/A/cover.jpg"));
    assert!(is_synced_metadata_file("/lib/A/banner.png"));
    assert!(!is_synced_metadata_file("/lib/A/Cap 1.cbz"));
    assert!(!is_synced_metadata_file("/lib/A/cover.txt"));
}
