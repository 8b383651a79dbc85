use acerola::chapters::{
    cbz_target, chapter_name_of, chapter_sort_for, chapter_up_to_date, page_entry_name,
    rgba_to_rgb, scanned_chapter, should_log_page, temp_archive_path,
};
use acerola::path_guard::path_hash;
use acerola::security::ComicError;

#[test]
fn unchanged_chapters_with_a_checksum_are_skipped() {
    assert!(chapter_up_to_date(Some((100, true)), 100));
    assert!(!chapter_up_to_date(Some((100, false)), 100));
    assert!(!chapter_up_to_date(Some((99, true)), 100));
    assert!(!chapter_up_to_date(None, 100));
}

#[test]
fn chapter_names_come_from_the_file_stem() {
    assert_eq!(chapter_name_of("/lib/One Piece/Cap 12.cbz"), "Cap 12");
    assert_eq!(chapter_name_of("/lib/One Piece/.."), "unknown");
}

#[test]
fn chapter_sort_prefers_template_parts() {
    assert_eq!(chapter_sort_for("Cap 7", 0, Some((12, Some("5".to_string())))), "12.5");
    assert_eq!(chapter_sort_for("Cap 7", 0, Some((12, None))), "12");
    assert_eq!(chapter_sort_for("Cap 7", 0, None), "7");
    assert_eq!(chapter_sort_for("Extra", 4, None), "5");
}

#[test]
fn scanned_chapters_keep_what_the_scanner_found() {
    let c = scanned_chapter("/lib/A/Cap 3.cbz", "3".to_string(), false, Some("ff".to_string()), 7, Some(2), 55)
        .unwrap();
    assert_eq!(c.id, path_hash("/lib/A/Cap 3.cbz"));
    assert_eq!(c.chapter, "Cap 3");
    assert_eq!(c.path, "/lib/A/Cap 3.cbz");
    assert_eq!(c.chapter_sort, "3");
    assert_eq!(c.checksum, Some("ff".to_string()));
    assert_eq!(c.comic_directory_fk, 7);
    assert_eq!(c.volume_fk, Some(2));
    assert_eq!(c.last_modified, 55);
    assert_eq!(
        scanned_chapter("/lib/A/..", "1".to_string(), false, None, 7, None, 0).map(|c| c.id),
        Err(ComicError::SystemFailure("File name is invalid".to_string()))
    );
}

#[test]
fn converted_archives_are_named_after_the_pdf() {
    assert_eq!(cbz_target("/lib/A/Cap 1.pdf"), "/lib/A/Cap 1.cbz");
    assert_eq!(temp_archive_path("/lib/A/Cap 1.cbz"), "/lib/A/Cap 1.cbz.tmp");
}

#[test]
fn page_names_are_numbered_from_one_with_three_digits() {
    assert_eq!(page_entry_name(0), "001.jpg");
    assert_eq!(page_entry_name(41), "042.jpg");
    assert_eq!(page_entry_name(998), "999.jpg");
    assert_eq!(page_entry_name(1233), "1234.jpg");
}

#[test]
fn alpha_is_dropped_from_each_pixel() {
    assert_eq!(rgba_to_rgb(&[1, 2, 3, 4, 5, 6, 7, 8, 9]), vec![1, 2, 3, 5, 6, 7]);
    assert_eq!(rgba_to_rgb(&[]), Vec::<u8>::new());
}

#[test]
fn progress_is_logged_at_first_last_and_every_twenty_fifth_page() {
    assert!(should_log_page(0, 10));
    assert!(should_log_page(9, 10));
    assert!(should_log_page(25, 100));
    assert!(!should_log_page(24, 100));
}
