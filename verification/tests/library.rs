use std::io::{Cursor, Write};

use acerola::archive::{archive_files, comic_info_in_archive, loose_comic_info_file, extract_first_page, first_page_name, FirstPage};
use acerola::chapter_archive::ChapterArchiveWithVolume;
use acerola::chapter_listing::{
    order_clause, order_clause_for_volumes, sorted_library_query, ChapterSortCriteria, SortCriteria,
    assemble_chapter_page, chapter_query, page_offset, total_pages, ChapterQuery, VolumeViewType,
    VolumeWithCount,
};
use acerola::formats::ImageFileFormat;
use acerola::library::ComicDirectory;
use acerola::metadata::{
    anilist_author, anilist_title, extract_localized_text, lang_code, pick_anilist_media,
    pick_result, AnilistMedia, AnilistStaff, AnilistStaffEdge, AnilistStaffName,
    AnilistStaffNode, AnilistTitle, TitleCandidate,
};
use acerola::scanner::{
    folder_is_comic,
    classify_entry_files, comic_from_entry, is_nested_in_processed, merge_conversion_results,
    needs_processing, plan_pdf_conversion, stale_comic_ids,
};
use acerola::security::ComicError;

#[test]
fn folder_files_are_sorted_by_role() {
    let files = vec![
        "/lib/B/cover.jpg".to_string(),
        "/lib/B/Cap 1.cbz".to_string(),
        "/lib/B/cover.png".to_string(),
        "/lib/B/banner.png".to_string(),
        "/lib/B/Cap 2.PDF".to_string(),
        "/lib/B/ComicInfo.xml".to_string(),
        "/lib/B/Cap 3.cbr".to_string(),
    ];
    let e = classify_entry_files(files);
    assert_eq!(e.cover, Some("/lib/B/cover.jpg".to_string()));
    assert_eq!(e.banner, Some("/lib/B/banner.png".to_string()));
    assert_eq!(e.archives, vec!["/lib/B/Cap 1.cbz".to_string(), "/lib/B/Cap 3.cbr".to_string()]);
    assert_eq!(e.pdfs, vec!["/lib/B/Cap 2.PDF".to_string()]);
}

#[test]
fn nested_folders_and_unchanged_comics_are_skipped() {
    let processed = vec!["/lib/Berserk".to_string()];
    assert!(is_nested_in_processed("/lib/Berserk/Vol 1", &processed));
    assert!(!is_nested_in_processed("/lib/Berserk", &processed));
    assert!(!is_nested_in_processed("/lib/Berserk2", &processed));
    assert!(needs_processing(None, 0));
    assert!(needs_processing(Some(10), 11));
    assert!(!needs_processing(Some(11), 11));
}

fn dir(id: i64, path: &str) -> ComicDirectory {
    ComicDirectory {
        id,
        name: path.to_string(),
        path: path.to_string(),
        cover: None,
        banner: None,
        last_modified: 0,
        archive_template_fk: None,
        external_sync_enabled: true,
        hidden: false,
    }
}

#[test]
fn comics_no_longer_on_disk_are_dropped() {
    let indexed = vec![dir(1, "/lib/A"), dir(2, "/lib/B"), dir(3, "/lib/C")];
    let discovered = vec!["/lib/C".to_string(), "/lib/A".to_string()];
    assert_eq!(stale_comic_ids(&indexed, &discovered), vec![2]);
    let c = comic_from_entry("/lib/Berserk", Some("/lib/Berserk/cover.jpg".into()), None, 42, Some(7));
    assert_eq!(c.name, "Berserk");
    assert!(c.id >= 0);
    assert!(c.external_sync_enabled && !c.hidden);
    assert_eq!(comic_from_entry("/", None, None, 0, None).name, "Unknown");
}

#[test]
fn pdfs_are_converted_once_and_merged_in_pdf_order() {
    let pdfs = vec![
        "/lib/B/Cap 1.pdf".to_string(),
        "/lib/B/Cap 2.pdf".to_string(),
        "/lib/B/Cap 1.PDF".to_string(),
        "/lib/B/Cap 3.pdf".to_string(),
    ];
    let existing = vec!["/lib/B/Cap 3.cbz".to_string()];
    let plan = plan_pdf_conversion(&pdfs, &existing, &vec![true, false, false, false]);
    assert_eq!(plan.pre_converted, vec![(0, "/lib/B/Cap 1.cbz".to_string())]);
    assert_eq!(plan.jobs, vec![(1, "/lib/B/Cap 2.pdf".to_string())]);
    let merged = merge_conversion_results(
        vec![(2, "c.cbz".to_string()), (0, "a.cbz".to_string())],
        vec![(3, Some("d.cbz".to_string())), (1, None), (1, Some("b.cbz".to_string()))],
    );
    let order: Vec<usize> = merged.iter().map(|(i, _)| *i).collect();
    assert_eq!(order, vec![0, 1, 2, 3]);
}

fn row(id: i64, volume: Option<i64>) -> ChapterArchiveWithVolume {
    ChapterArchiveWithVolume {
        id,
        chapter: format!("Cap {id}"),
        path: format!("/lib/B/Cap {id}.cbz"),
        chapter_sort: id.to_string(),
        is_special: false,
        checksum: None,
        comic_directory_fk: 1,
        volume_fk: volume,
        last_modified: 0,
        volume_name: volume.map(|v| format!("Vol {v}")),
        volume_sort: None,
        volume_is_special: None,
    }
}

fn volume(id: i64, count: i64) -> VolumeWithCount {
    VolumeWithCount {
        id,
        name: format!("Vol {id}"),
        path: format!("/lib/B/Vol {id}"),
        volume_sort: id.to_string(),
        is_special: false,
        cover: None,
        banner: None,
        comic_directory_fk: 1,
        last_modified: 0,
        chapter_count: count,
    }
}

#[test]
fn chapter_pages_group_chapters_under_their_volumes() {
    let rows = vec![row(1, Some(10)), row(2, Some(10)), row(3, None)];
    let volumes = vec![volume(10, 5), volume(20, 0)];
    let page = assemble_chapter_page(&rows, &volumes, 1, 2, 3);
    assert_eq!(page.archive.items.len(), 3);
    assert_eq!(page.archive.items[0].id, "1");
    assert_eq!(page.archive.items[0].volume_id, Some("10".to_string()));
    assert_eq!(page.archive.volumes.len(), 2);
    assert_eq!(page.archive.volume_sections.len(), 1);
    let section = &page.archive.volume_sections[0];
    assert_eq!(section.loaded_count, 2);
    assert_eq!(section.total_pages, 3);
    assert!(section.has_more);
    assert_eq!(page.effective_view_mode, VolumeViewType::Volume);
    let flat = assemble_chapter_page(&rows, &vec![], 0, 10, 3);
    assert_eq!(flat.effective_view_mode, VolumeViewType::Chapter);
    assert!(flat.archive.volume_sections.is_empty());
}

#[test]
fn paging_numbers_follow_the_page_size() {
    assert_eq!(page_offset(3, 20), 60);
    assert_eq!(total_pages(41, 20), 3);
    assert_eq!(total_pages(40, 20), 2);
    assert_eq!(total_pages(0, 20), 0);
    assert_eq!(total_pages(5, 0), i64::MAX);
    assert_eq!(chapter_query(Some(4), Some("x")), ChapterQuery::ByVolume(4));
    assert_eq!(chapter_query(None, Some("cap")), ChapterQuery::Search("cap".into()));
    assert_eq!(chapter_query(None, Some("")), ChapterQuery::All);
    assert_eq!(chapter_query(None, None), ChapterQuery::All);
}

fn candidate(titles: &[&str], alts: &[&str]) -> TitleCandidate {
    TitleCandidate {
        titles: titles.iter().map(|t| t.to_string()).collect(),
        alt_titles: alts.iter().map(|t| t.to_string()).collect(),
    }
}

#[test]
fn search_results_prefer_exact_titles_then_alternative_titles() {
    let results = vec![
        candidate(&["Berserk: Prototype"], &[]),
        candidate(&["Other"], &["BERSERK!"]),
        candidate(&["berserk"], &[]),
    ];
    assert_eq!(pick_result(&results, "Berserk"), Some(2));
    assert_eq!(pick_result(&results[..2].to_vec(), "Berserk"), Some(1));
    assert_eq!(pick_result(&vec![candidate(&["X"], &[])], "Berserk"), Some(0));
    assert_eq!(pick_result(&vec![], "Berserk"), None);
}

fn media(preferred: Option<&str>, english: Option<&str>, roles: &[&str]) -> AnilistMedia {
    AnilistMedia {
        id: 1,
        title: AnilistTitle { romaji: Some("Romaji".into()), english: english.map(|s| s.into()), user_preferred: preferred.map(|s| s.into()) },
        description: None,
        status: None,
        staff: Some(AnilistStaff {
            edges: roles
                .iter()
                .map(|r| AnilistStaffEdge { role: r.to_string(), node: AnilistStaffNode { name: AnilistStaffName { full: "Miura".into() } } })
                .collect(),
        }),
        cover_image: None,
        banner_image: None,
        average_score: None,
    }
}

#[test]
fn anilist_results_titles_and_authors() {
    let list = vec![media(Some("A"), None, &[]), media(None, Some("Berserk"), &["Translator", "Story & Art"])];
    assert_eq!(pick_anilist_media(&list, "berserk"), Some(1));
    assert_eq!(pick_anilist_media(&list, "nothing"), Some(0));
    assert_eq!(anilist_title(&list[1].title), "Berserk");
    assert_eq!(anilist_title(&list[0].title), "A");
    assert_eq!(anilist_author(&list[1]), Some(1));
    assert_eq!(anilist_author(&list[0]), None);
}

#[test]
fn localized_text_falls_back_to_english_then_the_language_code() {
    let map = vec![("ja".to_string(), "ベルセルク".to_string()), ("en".to_string(), "Berserk".to_string()), ("pt".to_string(), "Berserk PT".to_string())];
    assert_eq!(extract_localized_text(&map, "pt-br", "pt"), "Berserk");
    assert_eq!(extract_localized_text(&map, "ja", "ja"), "ベルセルク");
    let no_en = vec![("ja".to_string(), "J".to_string()), ("pt".to_string(), "P".to_string())];
    assert_eq!(extract_localized_text(&no_en, "pt-br", "pt"), "P");
    assert_eq!(extract_localized_text(&no_en, "fr", "fr"), "J");
    assert_eq!(extract_localized_text(&vec![], "fr", "fr"), "");
    assert_eq!(lang_code("pt-br"), "pt");
    assert_eq!(lang_code("en"), "en");
}

fn zip_with(entries: &[(&str, &[u8])]) -> Vec<u8> {
    let mut writer = zip::ZipWriter::new(Cursor::new(Vec::new()));
    let options = zip::write::SimpleFileOptions::default();
    for (name, bytes) in entries {
        writer.start_file(*name, options).unwrap();
        writer.write_all(bytes).unwrap();
    }
    writer.finish().unwrap().into_inner()
}

#[test]
fn the_cover_is_the_first_page_in_natural_order() {
    let data = zip_with(&[("10.png", b"ten"), ("2.jpg", b"two"), ("ComicInfo.xml", b"<x/>")]);
    assert_eq!(
        extract_first_page("/lib/B/Cap 1.CBZ", &data),
        Ok(FirstPage::Page(b"two".to_vec(), ImageFileFormat::Jpeg))
    );
    assert_eq!(extract_first_page("/lib/B/Cap 1.cbr", &data), Ok(FirstPage::RarArchive));
    assert_eq!(
        extract_first_page("/lib/B/Cap 1.pdf", &data),
        Err(ComicError::SystemFailure("Unsupported archive format for cover extraction: pdf".into()))
    );
    let empty = zip_with(&[("ComicInfo.xml", b"<x/>")]);
    assert_eq!(
        extract_first_page("/lib/B/x.cbz", &empty),
        Err(ComicError::SystemFailure("CBZ has no image pages".into()))
    );
    let listing = vec![("b/3.png".to_string(), true), ("b/".to_string(), false), ("b/1.jpg".to_string(), true)];
    assert_eq!(first_page_name(listing, "CBR has no image pages"), Ok(("b/1.jpg".to_string(), ImageFileFormat::Jpeg)));
}

#[test]
fn test_find_xml_inside_cbz_archive() {
    let xml_payload = "<ComicInfo><Title>Zip Test Comic</Title></ComicInfo>";
    let data = zip_with(&[("subfolder/ComicInfo.xml", xml_payload.as_bytes())]);
    assert_eq!(comic_info_in_archive(&data), Some(xml_payload.to_string()));
}

#[test]
fn comic_info_is_the_first_matching_entry_in_archive_order() {
    let data = zip_with(&[
        ("001.jpg", b"page"),
        ("comicinfo.XML", b"<first/>"),
        ("ComicInfo.xml", b"<second/>"),
    ]);
    assert_eq!(comic_info_in_archive(&data), Some("<first/>".to_string()));
}

#[test]
fn comic_info_skips_entries_that_are_not_text() {
    let data = zip_with(&[("a/ComicInfo.xml", &[0xff, 0xfe, 0x00]), ("b/ComicInfo.xml", b"<ok/>")]);
    assert_eq!(comic_info_in_archive(&data), Some("<ok/>".to_string()));
}

#[test]
fn archives_without_comic_info_give_nothing() {
    let data = zip_with(&[("001.jpg", b"page"), ("ComicInfo.xml.bak", b"<x/>")]);
    assert_eq!(comic_info_in_archive(&data), None);
    assert_eq!(comic_info_in_archive(b"not a zip"), None);
}

#[test]
fn library_query_filters_hidden_comics_and_orders_by_title() {
    let cols = vec!["id".to_string(), "name".to_string()];
    assert_eq!(
        sorted_library_query(SortCriteria::TitleAsc, false, None, "comic_summary_view", &cols),
        "SELECT v.id, v.name FROM comic_summary_view v JOIN comic_directory d ON v.directory_fk = d.id WHERE d.hidden = 0 ORDER BY COALESCE(v.metadata_title, v.folder_name) ASC"
    );
    assert_eq!(
        sorted_library_query(SortCriteria::TitleDesc, true, Some(""), "t", &cols),
        "SELECT v.id, v.name FROM t v JOIN comic_directory d ON v.directory_fk = d.id  ORDER BY COALESCE(v.metadata_title, v.folder_name) DESC"
    );
}

#[test]
fn library_query_by_chapter_count_without_metadata() {
    let cols = vec!["id".to_string()];
    assert_eq!(
        sorted_library_query(SortCriteria::ChapterCountDesc, true, Some("no_metadata"), "t", &cols),
        "SELECT v.id FROM t v JOIN comic_directory d ON v.directory_fk = d.id LEFT JOIN (SELECT comic_directory_fk, COUNT(*) as chapter_count FROM chapter_archive GROUP BY comic_directory_fk) c ON v.directory_fk = c.comic_directory_fk WHERE v.active_source IS NULL ORDER BY COALESCE(c.chapter_count, 0) DESC"
    );
}

#[test]
fn library_query_by_update_time_for_one_source() {
    let cols = vec!["id".to_string()];
    assert_eq!(
        sorted_library_query(SortCriteria::LastUpdatedAsc, false, Some("AniList"), "t", &cols),
        "SELECT v.id FROM t v JOIN comic_directory d ON v.directory_fk = d.id WHERE d.hidden = 0 AND LOWER(v.active_source) = 'anilist' ORDER BY d.last_modified ASC"
    );
}

#[test]
fn chapter_and_volume_lists_are_ordered_by_number_or_time() {
    assert_eq!(order_clause(ChapterSortCriteria::ModifiedDesc), "ORDER BY ca.last_modified DESC");
    assert!(order_clause(ChapterSortCriteria::NumberAsc).starts_with("ORDER BY CAST(ca.chapter_sort AS INTEGER) ASC"));
    assert_eq!(order_clause_for_volumes(ChapterSortCriteria::ModifiedAsc), "ORDER BY va.is_special ASC, va.last_modified ASC");
    assert!(order_clause_for_volumes(ChapterSortCriteria::NumberDesc).starts_with("ORDER BY va.is_special ASC, CAST(va.volume_sort AS INTEGER) DESC"));
}

#[test]
fn comic_info_is_looked_for_loose_first_then_in_archives() {
    let files = vec![
        "/lib/A/Cap 2.cbr".to_string(),
        "/lib/A/cover.jpg".to_string(),
        "/lib/A/comicinfo.xml".to_string(),
        "/lib/A/Cap 1.cbz".to_string(),
        "/lib/A/Cap 3.pdf".to_string(),
        "/lib/A/ComicInfo.xml".to_string(),
    ];
    assert_eq!(loose_comic_info_file(&files), Some(2));
    assert_eq!(archive_files(&files), vec![0, 3]);
    let none = vec!["/lib/A/Cap 1.pdf".to_string()];
    assert_eq!(loose_comic_info_file(&none), None);
    assert_eq!(archive_files(&none), Vec::<usize>::new());
}

#[test]
fn folders_without_chapters_or_volumes_are_not_comics() {
    assert!(!folder_is_comic(0, 0));
    assert!(folder_is_comic(2, 0));
    assert!(folder_is_comic(0, 1));
}
