use std::time::Duration;

use acerola::checksum::sha256_hex;
use acerola::messages::FileHeader;
use acerola::transfer::{
    begin_receipt, busy_rejection, incoming_temp_name, chapter_fetch_concurrency, classify_sync_error,
    fetch_concurrency_for_rtt, item_error_payload, on_bytes_read, on_dir_resolved, on_fetched,
    on_persisted, on_temp_written, permits_to_forget, session_busy_message, skipped_count,
    unavailable_chapter_header, ChapterOutcome, FetchBackoff, InMemoryChapterTransfer, IncomingItem,
    ItemFailure, ItemKind, P2pError, ReceiptAction, ReceiptEnd, SyncErrorCode,
    NO_PENDING_SCOPE_REASON, SESSION_BUSY_REASON,
};

#[test]
fn chapter_fetch_concurrency_scales_with_measured_latency() {
    assert_eq!(chapter_fetch_concurrency(None), 2, "sem medição, fica no mais conservador");
    assert_eq!(chapter_fetch_concurrency(Some(Duration::from_millis(0))), 2);
    assert_eq!(
        chapter_fetch_concurrency(Some(Duration::from_millis(20))),
        2,
        "limite exato do degrau baixo, ainda dentro dele"
    );
    assert_eq!(
        chapter_fetch_concurrency(Some(Duration::from_millis(21))),
        4,
        "1ms acima do degrau baixo já sobe pro médio"
    );
    assert_eq!(
        chapter_fetch_concurrency(Some(Duration::from_millis(200))),
        4,
        "limite exato do degrau médio, ainda dentro dele"
    );
    assert_eq!(
        chapter_fetch_concurrency(Some(Duration::from_millis(201))),
        6,
        "1ms acima do degrau médio já sobe pro teto"
    );
    assert_eq!(
        chapter_fetch_concurrency(Some(Duration::from_secs(2))),
        6,
        "RTT bem alto (relay ruim) nunca passa do teto de 6"
    );
}

#[test]
fn permits_to_forget_halves_the_pool_but_never_below_one_permit_left() {
    assert_eq!(permits_to_forget(6), 3, "6 -> mantém 3, esquece 3");
    assert_eq!(permits_to_forget(4), 2, "4 -> mantém 2, esquece 2");
    assert_eq!(permits_to_forget(2), 1, "2 -> mantém max(1,1)=1, esquece 1");
    assert_eq!(permits_to_forget(1), 0, "1 -> mantém max(1,0)=1, não há o que esquecer");
    assert_eq!(
        permits_to_forget(0),
        0,
        "0 -> nunca deveria acontecer na prática, mas não deve estourar (saturating_sub)"
    );
}

#[test]
fn concurrency_by_nanoseconds_has_exact_steps() {
    assert_eq!(fetch_concurrency_for_rtt(Some(20_000_000)), 2);
    assert_eq!(fetch_concurrency_for_rtt(Some(20_000_001)), 4);
    assert_eq!(fetch_concurrency_for_rtt(Some(200_000_001)), 6);
    assert_eq!(fetch_concurrency_for_rtt(None), 2);
}

#[test]
fn backoff_cuts_the_pool_once_per_session() {
    let mut backoff = FetchBackoff::new(6);
    assert_eq!(backoff.on_outcome(false), 0);
    assert_eq!(backoff.on_outcome(true), 3);
    assert_eq!(backoff.on_outcome(true), 0);
    assert!(backoff.backed_off);
}

#[test]
fn errors_are_classified_by_variant_and_by_our_own_reasons() {
    assert_eq!(classify_sync_error(&P2pError::Timeout), Some(SyncErrorCode::Timeout));
    assert_eq!(
        classify_sync_error(&P2pError::PeerDisconnected("x".into())),
        Some(SyncErrorCode::ConnectionLost)
    );
    let busy = format!("peer busy: {SESSION_BUSY_REASON}");
    assert_eq!(classify_sync_error(&P2pError::StreamFailed(busy)), Some(SyncErrorCode::Busy));
    assert_eq!(
        classify_sync_error(&P2pError::StreamFailed(NO_PENDING_SCOPE_REASON.to_string())),
        Some(SyncErrorCode::NoPendingRequest)
    );
    assert_eq!(
        classify_sync_error(&P2pError::StreamFailed(format!("x {NO_PENDING_SCOPE_REASON}"))),
        None
    );
    assert_eq!(classify_sync_error(&P2pError::StreamFailed("disk full".into())), None);
    assert_eq!(classify_sync_error(&P2pError::Shutdown), Some(SyncErrorCode::Shutdown));
    assert_eq!(
        classify_sync_error(&P2pError::BlobNotFound("h".into())),
        Some(SyncErrorCode::BlobNotFound)
    );
}

fn chapter_item(size: u64, checksum: Option<String>, blob_hash: Option<String>) -> IncomingItem {
    IncomingItem::from_chapter_header(FileHeader {
        comic_name: "Berserk".into(),
        chapter: "Cap 1".into(),
        file_name: "Cap 1.cbz".into(),
        size,
        checksum,
        blob_hash,
    })
}

#[test]
fn receipt_skips_unavailable_items_and_reports_missing_hashes() {
    assert_eq!(
        begin_receipt(&chapter_item(0, None, None)),
        ReceiptAction::Finish(ReceiptEnd::Skipped { timed_out: false, failure: None })
    );
    assert_eq!(
        begin_receipt(&chapter_item(5, None, None)),
        ReceiptAction::Finish(ReceiptEnd::Skipped {
            timed_out: false,
            failure: Some(ItemFailure {
                message: "missing blob hash".into(),
                code: Some(SyncErrorCode::MissingBlobHash)
            })
        })
    );
    assert_eq!(
        begin_receipt(&chapter_item(5, None, Some("h1".into()))),
        ReceiptAction::FetchBlob("h1".into())
    );
}

#[test]
fn failed_fetches_count_as_timeouts_only_for_timeouts() {
    assert_eq!(on_fetched(Ok(()), ""), ReceiptAction::ReadBlob);
    assert_eq!(
        on_fetched(Err(P2pError::Timeout), "timed out"),
        ReceiptAction::Finish(ReceiptEnd::Skipped {
            timed_out: true,
            failure: Some(ItemFailure {
                message: "blob fetch failed: timed out".into(),
                code: Some(SyncErrorCode::Timeout)
            })
        })
    );
    assert_eq!(
        on_fetched(Err(P2pError::StreamFailed("io".into())), "io"),
        ReceiptAction::Finish(ReceiptEnd::Skipped {
            timed_out: false,
            failure: Some(ItemFailure {
                message: "blob fetch failed: io".into(),
                code: Some(SyncErrorCode::BlobFetchFailed)
            })
        })
    );
}

#[test]
fn received_bytes_are_checked_against_the_announced_checksum() {
    let bytes = b"chapter bytes".to_vec();
    let good = sha256_hex(&bytes);
    let item = chapter_item(13, Some(good.clone()), Some("h".into()));
    assert_eq!(
        on_bytes_read(&item, Ok(bytes.clone())),
        ReceiptAction::ResolveComicDir { checksum: good.clone(), bytes: bytes.clone() }
    );
    let wrong = chapter_item(13, Some("00".into()), Some("h".into()));
    assert!(matches!(
        on_bytes_read(&wrong, Ok(bytes.clone())),
        ReceiptAction::Finish(ReceiptEnd::Skipped { timed_out: false, failure: Some(f) })
            if f.message == "checksum mismatch" && f.code == Some(SyncErrorCode::ChecksumMismatch)
    ));
    let unchecked = chapter_item(13, None, Some("h".into()));
    assert!(matches!(on_bytes_read(&unchecked, Ok(bytes)), ReceiptAction::ResolveComicDir { .. }));
}

#[test]
fn the_rest_of_a_chapter_receipt_persists_or_skips() {
    let item = chapter_item(3, None, Some("h".into()));
    match on_dir_resolved(Ok("/lib/Berserk".into()), "c".into(), vec![1, 2, 3]) {
        ReceiptAction::WriteTemp { dir, temp_name, checksum, bytes } => {
            assert_eq!(dir, "/lib/Berserk");
            assert!(temp_name.starts_with(".incoming-") && temp_name.ends_with(".tmp"));
            let token = &temp_name[".incoming-".len()..temp_name.len() - ".tmp".len()];
            assert!(token.parse::<u64>().is_ok());
            assert_eq!(checksum, "c");
            assert_eq!(bytes, vec![1, 2, 3]);
        },
        other => panic!("unexpected {other:?}"),
    }
    assert_eq!(incoming_temp_name(0), ".incoming-0.tmp");
    assert_eq!(incoming_temp_name(18_446_744_073_709_551_615), ".incoming-18446744073709551615.tmp");
    assert!(matches!(
        on_dir_resolved(Err("no".into()), "c".into(), vec![]),
        ReceiptAction::Finish(ReceiptEnd::Skipped { failure: Some(f), .. })
            if f.code == Some(SyncErrorCode::ComicDirectoryUnavailable)
    ));
    assert_eq!(
        on_temp_written(ItemKind::Chapter, Ok(()), "c".into()),
        ReceiptAction::Persist { checksum: "c".into() }
    );
    assert!(matches!(
        on_temp_written(ItemKind::Extra, Err("disk".into()), "c".into()),
        ReceiptAction::Finish(ReceiptEnd::Skipped { timed_out: false, failure: Some(f) })
            if f.message == "failed to write temp file: disk" && f.code == Some(SyncErrorCode::PersistFailed)
    ));
    assert_eq!(
        on_persisted(&item, Ok(())),
        ReceiptAction::Finish(ReceiptEnd::Persisted {
            progress: "Berserk - Cap 1".into(),
            refresh_comic_info: false
        })
    );
    assert!(matches!(
        on_persisted(&item, Err("db".into())),
        ReceiptAction::Finish(ReceiptEnd::Skipped { failure: Some(f), .. })
            if f.message == "failed to persist chapter: db"
    ));
}

#[test]
fn skipped_chapters_are_counted() {
    let outcomes = vec![
        ChapterOutcome::Persisted,
        ChapterOutcome::Skipped { timed_out: true },
        ChapterOutcome::Skipped { timed_out: false },
    ];
    assert_eq!(skipped_count(&outcomes), 2);
}

#[test]
fn busy_refusals_are_recognised_by_their_tag() {
    let msg = session_busy_message();
    assert_eq!(msg.error, "busy");
    assert_eq!(msg.reason, SESSION_BUSY_REASON);
    assert_eq!(
        busy_rejection(Some("busy"), Some("later")),
        Some(P2pError::StreamFailed("peer busy: later".into()))
    );
    assert_eq!(
        busy_rejection(Some("busy"), None),
        Some(P2pError::StreamFailed("peer busy: peer is busy".into()))
    );
    assert_eq!(busy_rejection(Some("other"), None), None);
    assert_eq!(busy_rejection(None, None), None);
}

#[test]
fn unavailable_headers_and_item_reports() {
    let h = unavailable_chapter_header("Berserk".into(), "Cap 2".into());
    assert_eq!(h.size, 0);
    assert_eq!(h.blob_hash, None);
    assert_eq!(h.file_name, "");
    let report = item_error_payload("peer", "checksum mismatch", Some(SyncErrorCode::ChecksumMismatch), "Berserk", "Cap 2");
    assert!(report.item_level);
    assert_eq!(report.item, Some("Cap 2".to_string()));
}

#[test]
fn in_memory_store_gives_back_what_was_published() {
    let mut store = InMemoryChapterTransfer::new();
    let hash = store.publish(b"abc".to_vec()).unwrap();
    assert_eq!(hash, "ba7816bf8f01cfea414140de5dae2223b00361a396177a9cb410ff61f20015ad");
    assert_eq!(store.fetch(&hash), Ok(b"abc".to_vec()));
    assert_eq!(
        store.fetch("nope"),
        Err(P2pError::StreamFailed("unknown blob hash in test transfer: nope".into()))
    );
    assert_eq!(store.latency(), None);
    store.set_latency(Duration::from_millis(5));
    assert_eq!(store.latency(), Some(Duration::from_millis(5)));
}

#[test]
fn an_extra_that_cannot_be_read_is_skipped_alone() {
    let header = acerola::messages::FileExtraHeader {
        comic_name: "Berserk".into(),
        kind: "cover".into(),
        file_name: "cover.jpg".into(),
        size: 3,
        checksum: None,
        blob_hash: Some("h".into()),
    };
    let item = IncomingItem::from_extra_header(header);
    assert!(matches!(
        on_bytes_read(&item, Err("broken".into())),
        ReceiptAction::Finish(ReceiptEnd::Skipped { timed_out: false, failure: Some(f) })
            if f.message == "failed to read extra blob: broken" && f.code.is_none()
    ));
}
