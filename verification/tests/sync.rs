use acerola::file_sync::{
    artwork_extension, diff_wanted, display_chapter, extra_destination, manifest_for_comic,
    sanitize_folder_name, stale_artwork_names, summary_entry, ExtraDestination, LocalComicState,
};
use acerola::history_sync::{apply_progress_entries, apply_read_markers, merge_progress, ChapterRead, should_apply_entry, ApplyManifestStats, ReadingHistory};
use acerola::messages::{FileChapterInfo, FileComicInfo, FileExtraInfo, FileManifest};
use acerola::peer_store::{dedupe_by_id, remove_peer, upsert_device_info, upsert_peer, PeerAddr, PeerIdentity};
use acerola::security::ComicError;
use acerola::sync_log::SyncHistoryLogEntry;

fn peer(id: &str, device: Option<&str>, addrs: Vec<u8>) -> PeerAddr {
    PeerAddr { id: PeerIdentity { id: id.into(), device_id: device.map(|d| d.to_string()) }, addrs }
}

#[test]
fn save_peer_upserts_by_id_string_even_when_device_id_differs() {
    let mut peers = Vec::new();
    upsert_peer(&mut peers, peer("peer-a", Some("uuid-1"), vec![1, 2, 3]));
    upsert_peer(&mut peers, peer("peer-a", None, vec![4, 5, 6]));
    upsert_peer(&mut peers, peer("peer-b", None, vec![7]));
    assert_eq!(peers.len(), 2);
    assert_eq!(peers[0].addrs, vec![4, 5, 6]);
    assert_eq!(peers[1].id.id, "peer-b");
}

#[test]
fn persisted_duplicates_collapse_to_the_last_entry() {
    let peers = vec![
        peer("peer-a", Some("uuid-1"), vec![1, 2, 3]),
        peer("peer-b", None, vec![9]),
        peer("peer-a", None, vec![4, 5, 6]),
    ];
    let deduped = dedupe_by_id(peers);
    assert_eq!(deduped.len(), 2);
    assert_eq!(deduped[0].addrs, vec![4, 5, 6]);
    assert_eq!(deduped[1].id.id, "peer-b");
}

#[test]
fn removing_a_peer_drops_only_that_id() {
    let mut peers = vec![peer("peer-a", None, vec![1]), peer("peer-b", None, vec![2])];
    assert!(remove_peer(&mut peers, "peer-a"));
    assert_eq!(peers.len(), 1);
    assert_eq!(peers[0].id.id, "peer-b");
    assert!(!remove_peer(&mut peers, "peer-x"));
    let mut info: Vec<(PeerIdentity, String)> = Vec::new();
    upsert_device_info(&mut info, PeerIdentity { id: "peer-a".into(), device_id: Some("d".into()) }, "Laptop".to_string());
    upsert_device_info(&mut info, PeerIdentity { id: "peer-a".into(), device_id: None }, "Desktop".to_string());
    assert_eq!(info.len(), 1);
    assert_eq!(info[0].0.device_id, Some("d".to_string()));
    assert_eq!(info[0].1, "Desktop");
}

#[test]
fn folder_names_lose_forbidden_characters_and_surrounding_space() {
    assert_eq!(sanitize_folder_name("  Re:Zero / Arc 3?  "), "Re_Zero _ Arc 3_");
    assert_eq!(sanitize_folder_name("a\\b*c\"d<e>f|g"), "a_b_c_d_e_f_g");
    assert_eq!(sanitize_folder_name("\u{3000}Berserk\t"), "Berserk");
    assert_eq!(sanitize_folder_name("   "), "");
}

fn comic(name: &str, chapters: Vec<(&str, Option<&str>)>, cover: Option<&str>) -> FileComicInfo {
    FileComicInfo {
        comic_name: name.into(),
        chapters: chapters
            .into_iter()
            .map(|(c, sum)| FileChapterInfo {
                chapter: c.into(),
                file_name: format!("{c}.cbz"),
                checksum: sum.map(|s| s.to_string()),
                size: 1,
            })
            .collect(),
        cover: cover.map(|c| FileExtraInfo { file_name: "cover.jpg".into(), checksum: c.into(), size: 1 }),
        banner: None,
        comic_info: None,
    }
}

#[test]
fn only_chapters_not_held_with_the_same_checksum_are_wanted() {
    let peer_manifest = FileManifest {
        comics: vec![
            comic("Berserk", vec![("Cap 1", Some("aa")), ("Cap 2", Some("bb")), ("Cap 3", None)], Some("c1")),
            comic("Monster", vec![("Cap 1", Some("cc"))], None),
        ],
    };
    let local = vec![
        LocalComicState {
            chapter_checksums: vec![Some("aa".into()), Some("xx".into()), None],
            cover: Some("c1".into()),
            banner: None,
            comic_info: None,
        },
        LocalComicState { chapter_checksums: vec![None], cover: None, banner: None, comic_info: None },
    ];
    let (wanted, extras) = diff_wanted(&peer_manifest, &local);
    assert_eq!(
        wanted,
        vec![
            ("Berserk".to_string(), "Cap 2".to_string()),
            ("Berserk".to_string(), "Cap 3".to_string()),
            ("Monster".to_string(), "Cap 1".to_string()),
        ]
    );
    assert!(extras.is_empty());
    let changed_cover = vec![
        LocalComicState { chapter_checksums: vec![None, None, None], cover: Some("old".into()), banner: None, comic_info: None },
        LocalComicState { chapter_checksums: vec![None], cover: None, banner: None, comic_info: None },
    ];
    let (_, extras) = diff_wanted(&peer_manifest, &changed_cover);
    assert_eq!(extras, vec![("Berserk".to_string(), "cover".to_string())]);
}

#[test]
fn received_files_are_named_and_placed() {
    assert_eq!(display_chapter("Cap 10.cbz", "10"), "Cap 10");
    assert_eq!(display_chapter("", "10"), "10");
    assert_eq!(artwork_extension("Cover.PNG"), "png");
    assert_eq!(artwork_extension("cover"), "jpg");
    assert_eq!(stale_artwork_names("cover", "png"), vec!["cover.jpg".to_string(), "cover.jpeg".to_string()]);
    assert_eq!(stale_artwork_names("banner", "webp").len(), 3);
    assert_eq!(extra_destination("cover"), Ok(ExtraDestination::Artwork("cover".into())));
    assert_eq!(extra_destination("comic_info"), Ok(ExtraDestination::ComicInfo));
    assert_eq!(
        extra_destination("poster"),
        Err(ComicError::SystemFailure("unknown extra kind: poster".into()))
    );
    let m = FileManifest { comics: vec![comic("A", vec![], None), comic("B", vec![], None)] };
    assert_eq!(manifest_for_comic(m, "B").comics.len(), 1);
    assert_eq!(summary_entry("A".into(), 3, 9).chapter_count, 3);
}

fn progress(updated_at: i64, page: i64) -> ReadingHistory {
    ReadingHistory { comic_directory_id: 1, chapter_archive_id: 1, last_page: page, is_completed: false, updated_at }
}

#[test]
fn apply_manifest_ignores_older_entry() {
    let local = Some(progress(5000, 20));
    let (merged, applied) = merge_progress(local, progress(100, 1));
    assert!(!applied);
    assert_eq!(merged.unwrap().last_page, 20);
}

#[test]
fn apply_manifest_applies_newer_entry() {
    let (merged, applied) = merge_progress(Some(progress(100, 1)), progress(9000, 30));
    assert!(applied);
    assert_eq!(merged.unwrap().last_page, 30);
    assert!(should_apply_entry(1, None));
    assert!(!should_apply_entry(5, Some(progress(5, 0))));
    let mut stats = ApplyManifestStats::new();
    stats.record_entry();
    stats.record_marker();
    stats.record_marker();
    assert_eq!(stats, ApplyManifestStats { entries_applied: 1, markers_applied: 2 });
}

#[test]
fn log_entries_carry_the_session_details() {
    let entry = SyncHistoryLogEntry::new("peer-1", "files", "completed", Some("2 chapters"));
    assert_eq!(entry.peer_id, "peer-1");
    assert_eq!(entry.message, Some("2 chapters".to_string()));
    assert!(entry.created_at > 0);
    assert_eq!(entry.id / 1_000_000, entry.created_at);
}

fn row(comic: i64, chapter: i64, page: i64, at: i64) -> ReadingHistory {
    ReadingHistory { comic_directory_id: comic, chapter_archive_id: chapter, last_page: page, is_completed: false, updated_at: at }
}

#[test]
fn received_progress_is_applied_newest_first_and_only_once() {
    let mut progress = vec![row(1, 10, 3, 100), row(2, 20, 5, 500)];
    let incoming = vec![
        Some(row(1, 11, 7, 200)),
        None,
        Some(row(2, 21, 1, 400)),
        Some(row(3, 30, 2, 50)),
        Some(row(1, 12, 9, 150)),
    ];
    assert_eq!(apply_progress_entries(&mut progress, &incoming), 2);
    assert_eq!(progress, vec![row(1, 11, 7, 200), row(2, 20, 5, 500), row(3, 30, 2, 50)]);
    let again = progress.clone();
    assert_eq!(apply_progress_entries(&mut progress, &incoming), 0);
    assert_eq!(progress, again);
}

#[test]
fn a_sanitized_name_is_kept_as_it_is() {
    let once = sanitize_folder_name("  Re:Zero / Vol?  ");
    assert_eq!(once, "Re_Zero _ Vol_");
    assert_eq!(sanitize_folder_name(&once), once);
}

#[test]
fn received_read_markers_are_a_union() {
    let mark = |comic: i64, chapter: i64, at: i64| ChapterRead { comic_directory_id: comic, chapter_archive_id: chapter, created_at: at };
    let mut reads = vec![mark(1, 10, 5)];
    let incoming = vec![Some(mark(1, 10, 99)), None, Some(mark(1, 11, 7)), Some(mark(1, 11, 8))];
    assert_eq!(apply_read_markers(&mut reads, &incoming), 1);
    assert_eq!(reads, vec![mark(1, 10, 5), mark(1, 11, 7)]);
    assert_eq!(apply_read_markers(&mut reads, &incoming), 0);
    assert_eq!(reads, vec![mark(1, 10, 5), mark(1, 11, 7)]);
}
