use acerola::browse::{
    cached_cover_file_name, cover_response, decide_cover, interpret_cover_response,
    sanitize_cache_component, CoverDecision, CoverOutcome,
};
use acerola::messages::{CoverRequest, CoverResponse};
use acerola::transfer::P2pError;

fn request(known: Option<i64>) -> CoverRequest {
    CoverRequest { comic_name: "One Piece".to_string(), known_version: known }
}

#[test]
fn cover_without_local_version_is_unavailable() {
    assert_eq!(decide_cover(&request(Some(3)), None), CoverDecision::Unavailable);
    let r = cover_response(CoverDecision::Unavailable, None);
    assert_eq!(r.status, "unavailable");
    assert_eq!(r.cover_version, None);
    assert_eq!(r.cover_hash, None);
}

#[test]
fn cover_with_same_version_is_not_modified() {
    assert_eq!(decide_cover(&request(Some(7)), Some(7)), CoverDecision::NotModified(7));
    let r = cover_response(CoverDecision::NotModified(7), Some("ignored".to_string()));
    assert_eq!(r.status, "not_modified");
    assert_eq!(r.cover_version, Some(7));
    assert_eq!(r.cover_hash, None);
}

#[test]
fn cover_with_other_or_no_version_is_published() {
    assert_eq!(decide_cover(&request(Some(6)), Some(7)), CoverDecision::Publish(7));
    assert_eq!(decide_cover(&request(None), Some(7)), CoverDecision::Publish(7));
    let r = cover_response(CoverDecision::Publish(7), Some("abc".to_string()));
    assert_eq!(r.status, "changed");
    assert_eq!(r.cover_version, Some(7));
    assert_eq!(r.cover_hash, Some("abc".to_string()));
}

#[test]
fn answers_are_read_back_as_sent() {
    for decision in [CoverDecision::Unavailable, CoverDecision::NotModified(2), CoverDecision::Publish(9)] {
        let r = cover_response(decision, Some("h".to_string()));
        let outcome = interpret_cover_response(&r).unwrap();
        match decision {
            CoverDecision::Unavailable => assert_eq!(outcome, CoverOutcome::Unavailable),
            CoverDecision::NotModified(v) => assert_eq!(outcome, CoverOutcome::NotModified(v)),
            CoverDecision::Publish(v) => assert_eq!(outcome, CoverOutcome::Fetch(v, "h".to_string())),
        }
    }
}

#[test]
fn incomplete_answers_are_refused() {
    let missing_version = CoverResponse { status: "not_modified".to_string(), cover_version: None, cover_hash: None };
    assert_eq!(
        interpret_cover_response(&missing_version),
        Err(P2pError::StreamFailed("cover response missing cover_version for not_modified".to_string()))
    );
    let changed_no_version = CoverResponse { status: "changed".to_string(), cover_version: None, cover_hash: Some("h".to_string()) };
    assert_eq!(
        interpret_cover_response(&changed_no_version),
        Err(P2pError::StreamFailed("cover response missing cover_version for changed".to_string()))
    );
    let changed_no_hash = CoverResponse { status: "changed".to_string(), cover_version: Some(1), cover_hash: None };
    assert_eq!(
        interpret_cover_response(&changed_no_hash),
        Err(P2pError::StreamFailed("cover response missing cover_hash for changed".to_string()))
    );
    let unknown = CoverResponse { status: "weird".to_string(), cover_version: Some(1), cover_hash: None };
    assert_eq!(
        interpret_cover_response(&unknown),
        Err(P2pError::StreamFailed("unknown cover response status: weird".to_string()))
    );
}

#[test]
fn cache_names_keep_only_safe_characters() {
    assert_eq!(sanitize_cache_component("Peer 1/éA.b-c"), "Peer_1__A.b-c");
    assert_eq!(sanitize_cache_component(""), "");
    assert_eq!(cached_cover_file_name("pe:er", "One Piece", 12), "pe_er_One_Piece_12.jpg");
    assert_eq!(cached_cover_file_name("p", "c", -3), "p_c_-3.jpg");
}
