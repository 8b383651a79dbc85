use std::io::{Cursor, Write};

use acerola::formats::ArchiveFormat;
use acerola::natural_sort::natural_key;
use acerola::reader::{
    mime_type_for, page_count_from_len, source_from_path, window_indices, ReaderError,
};
use acerola::reader_session::{CbzPageSource, ReaderChapter, ReaderSession};

fn zip_with(entries: &[(&str, &[u8])]) -> Vec<u8> {
    let mut writer = zip::ZipWriter::new(Cursor::new(Vec::new()));
    let options = zip::write::SimpleFileOptions::default()
        .compression_method(zip::CompressionMethod::Stored);
    for (name, bytes) in entries {
        writer.start_file(*name, options).unwrap();
        writer.write_all(bytes).unwrap();
    }
    writer.finish().unwrap().into_inner()
}

#[test]
fn test_sorts_numbered_pages_in_natural_order() {
    let mut pages = vec!["page10.jpg", "page2.jpg", "page001.jpg"];
    pages.sort_by_key(|page| natural_key(page));

    assert_eq!(pages, vec!["page001.jpg", "page2.jpg", "page10.jpg"]);
}

#[test]
fn test_page_range_respects_bounds() {
    assert_eq!(window_indices(0, 5, 2), vec![0, 1, 2]);
    assert_eq!(window_indices(4, 5, 2), vec![2, 3, 4]);
}

#[test]
fn test_page_range_with_zero_total_returns_empty() {
    assert_eq!(window_indices(0, 0, 2), Vec::<usize>::new());
}

#[test]
fn page_window_saturates_at_both_ends() {
    assert_eq!(window_indices(usize::MAX - 1, usize::MAX, 3).len(), 4);
    assert_eq!(window_indices(1, 3, 10), vec![0, 1, 2]);
}

#[test]
fn chapters_are_read_from_cbz_and_cbr_only() {
    assert_eq!(source_from_path("/lib/a/Cap 1.CBZ", true), Ok(ArchiveFormat::Cbz));
    assert_eq!(source_from_path("/lib/a/Cap 1.cbr", true), Ok(ArchiveFormat::Cbr));
    assert_eq!(
        source_from_path("/lib/a/Cap 1.PDF", true),
        Err(ReaderError::UnsupportedFormat("pdf".to_string()))
    );
    assert_eq!(
        source_from_path("/lib/a/Cap 1", true),
        Err(ReaderError::UnsupportedFormat(String::new()))
    );
    assert_eq!(
        source_from_path("/lib/a/Cap 1.cbz", false),
        Err(ReaderError::NotFound("/lib/a/Cap 1.cbz".to_string()))
    );
}

#[test]
fn page_mime_types_come_from_the_name() {
    assert_eq!(mime_type_for("p/001.JPG"), Ok("image/jpeg".to_string()));
    assert_eq!(mime_type_for("002.png"), Ok("image/png".to_string()));
    assert_eq!(mime_type_for("notes.txt"), Err(ReaderError::Image("notes.txt".to_string())));
}

#[test]
fn an_empty_chapter_is_refused_by_its_path() {
    assert_eq!(page_count_from_len("/c.cbz", 3), Ok(3));
    assert_eq!(page_count_from_len("/c.cbz", 0), Err(ReaderError::EmptyChapter("/c.cbz".to_string())));
}

#[test]
fn cbz_pages_are_the_images_in_natural_order() {
    let data = zip_with(&[
        ("page10.jpg", b"ten"),
        ("ComicInfo.xml", b"<x/>"),
        ("page2.png", b"two"),
        ("page001.jpg", b"one"),
    ]);
    let source = CbzPageSource::open("/c.cbz", data).unwrap();
    assert_eq!(source.page_count(), 3);
    let first = source.read_page(0).unwrap();
    assert_eq!(first.name, "page001.jpg");
    assert_eq!(first.bytes, b"one".to_vec());
    assert_eq!(source.read_page(2).unwrap().name, "page10.jpg");
    assert_eq!(
        source.read_page(3),
        Err(ReaderError::PageOutOfBounds { index: 3, total: 3 })
    );
}

#[test]
fn an_archive_without_images_or_unreadable_is_refused() {
    let data = zip_with(&[("ComicInfo.xml", b"<x/>")]);
    assert!(matches!(
        CbzPageSource::open("/c.cbz", data),
        Err(ReaderError::EmptyChapter(p)) if p == "/c.cbz"
    ));
    assert!(matches!(
        CbzPageSource::open("/c.cbz", b"not a zip".to_vec()),
        Err(ReaderError::Archive(_))
    ));
}

#[test]
fn a_loaded_page_is_served_from_the_cache_the_second_time() {
    let data = zip_with(&[("002.jpg", b"second"), ("001.jpg", b"first")]);
    let chapter = ReaderChapter { id: "ch-1".to_string(), path: "/c.cbz".to_string() };
    let mut session = ReaderSession::open(chapter, data).unwrap();
    let first = session.load_page(1, true).unwrap();
    assert_eq!(first.bytes, b"second".to_vec());
    assert_eq!(first.mime_type, "image/jpeg");
    assert!(!first.cache_hit);
    let again = session.load_page(1, false).unwrap();
    assert!(again.cache_hit);
    assert_eq!(again.bytes, first.bytes);
    assert_eq!(session.session_payload().current_page, 1);
    assert_eq!(session.session_payload().page_count, 2);
    assert_eq!(session.session_payload().cache_capacity, 20);
    assert!(matches!(
        session.load_page(2, false),
        Err(ReaderError::PageOutOfBounds { index: 2, total: 2 })
    ));
}

#[test]
fn prefetch_caches_the_window_and_status_lists_recent_pages_first() {
    let names: Vec<String> = (1..=6).map(|i| format!("{i:03}.jpg")).collect();
    let entries: Vec<(&str, &[u8])> = names.iter().map(|n| (n.as_str(), b"x" as &[u8])).collect();
    let data = zip_with(&entries);
    let chapter = ReaderChapter { id: "ch-2".to_string(), path: "/d.cbz".to_string() };
    let mut session = ReaderSession::open(chapter, data).unwrap();
    session.prefetch_window(2, 1).unwrap();
    assert_eq!(session.status_payload().cache_keys, vec![3, 2, 1]);
    session.set_current_page(1).unwrap();
    assert_eq!(session.status_payload().cache_keys, vec![1, 3, 2]);
    assert_eq!(session.status_payload().current_page, Some(1));
    assert!(session.set_current_page(6).is_err());
    assert!(session.prefetch_window(9, 1).is_err());
}
