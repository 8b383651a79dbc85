use acerola::clock::{millis_i64, nanos_i64, now, secs_i64, Instant};
use acerola::transfer::{code_name, session_report, P2pError, SyncErrorCode};

#[test]
fn a_session_with_nothing_skipped_is_complete() {
    let r = session_report(Ok(0), "");
    assert_eq!(r.status, "complete");
    assert_eq!(r.failure, None);
    assert_eq!(r.result, Ok(()));
}

#[test]
fn a_session_with_skipped_chapters_is_a_partial_failure() {
    let r = session_report(Ok(3), "");
    let message = "3 chapter(s) not synced — see backend log for details".to_string();
    assert_eq!(r.status, "error");
    assert_eq!(r.failure, Some((message.clone(), Some(SyncErrorCode::PartialSync))));
    assert_eq!(r.result, Err(P2pError::StreamFailed(message)));
}

#[test]
fn a_failed_session_is_reported_with_its_cause() {
    let r = session_report(Err(P2pError::Timeout), "timed out");
    assert_eq!(r.status, "error");
    assert_eq!(r.failure, Some(("timed out".to_string(), Some(SyncErrorCode::Timeout))));
    assert_eq!(r.result, Err(P2pError::Timeout));
    let r = session_report(Err(P2pError::StreamFailed("boom".to_string())), "boom");
    assert_eq!(r.failure, Some(("boom".to_string(), None)));
}

#[test]
fn instants_convert_to_whole_units() {
    let t = Instant { secs: 1_700_000_000, nanos: 123_456_789 };
    assert_eq!(secs_i64(t), 1_700_000_000);
    assert_eq!(millis_i64(t), 1_700_000_000_123);
    assert_eq!(nanos_i64(t), 1_700_000_000_123_456_789);
    let now = now();
    assert!(now.nanos < 1_000_000_000);
    assert!(now.secs > 1_600_000_000);
}

#[test]
fn error_codes_are_reported_by_name() {
    assert_eq!(code_name(SyncErrorCode::Busy), "busy");
    assert_eq!(code_name(SyncErrorCode::ComicDirectoryUnavailable), "comic_directory_unavailable");
    assert_eq!(code_name(SyncErrorCode::PartialSync), "partial_sync");
}
