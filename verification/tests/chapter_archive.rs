use acerola::chapter_archive::ChapterArchive;

#[test]
fn test_formatting_detected_template() {
    assert_eq!(ChapterArchive::format_sort(10, Some("1".to_string())), "10.1");
}

#[test]
fn test_formatting_without_decimal() {
    assert_eq!(ChapterArchive::format_sort(10, None), "10");
}

#[test]
fn test_formatting_with_decimal_only() {
    assert_eq!(ChapterArchive::format_sort(0, Some("10".to_string())), "0.10");
}

#[test]
fn test_formatting_preserves_leading_zero_in_decimal() {
    assert_eq!(ChapterArchive::format_sort(0, Some("01".to_string())), "0.01");
}

#[test]
fn test_fallback_without_detected_template() {
    assert_eq!(ChapterArchive::fallback_sort("10,5", 0), "10.5");
}

#[test]
fn test_fallback_file_with_letters() {
    assert_eq!(ChapterArchive::fallback_sort("abc", 0), "1");
}

#[test]
fn test_fallback_file_without_decimal() {
    assert_eq!(ChapterArchive::fallback_sort("10", 0), "10");
}

#[test]
fn test_fallback_file_with_decimal_only() {
    assert_eq!(ChapterArchive::fallback_sort("0,10", 0), "0.10");
}

#[test]
fn format_sort_ignores_an_empty_decimal_part() {
    assert_eq!(ChapterArchive::format_sort(7, Some(String::new())), "7");
}

#[test]
fn fallback_sort_uses_the_position_when_there_is_no_number() {
    assert_eq!(ChapterArchive::fallback_sort("extra", 4), "5");
}
