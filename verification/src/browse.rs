//! Browsing a peer's library: the answer to a cover request and how the
//! requesting side reads that answer.

use vstd::prelude::*;
use crate::messages::{
    CoverRequest, CoverResponse, COVER_STATUS_CHANGED, COVER_STATUS_NOT_MODIFIED,
    COVER_STATUS_UNAVAILABLE,
};
use crate::text::{chars_of, concat, i64_to_string, signed_decimal, str_eq, string_of};
use crate::transfer::P2pError;

verus! {

/// How a cover request is answered, before any bytes are published.
#[derive(Debug, Clone, Copy, PartialEq, Eq, Structural)]
pub enum CoverDecision {
    /// The comic has no cover.
    Unavailable,
    /// The requester already has this version.
    NotModified(i64),
    /// The cover of this version must be published.
    Publish(i64),
}

/// Decides the answer to `request` given the version of the local cover
/// (`None`: no cover).
pub fn decide_cover(request: &CoverRequest, local_version: Option<i64>) -> (r: CoverDecision)
    ensures
        local_version is None ==> r == CoverDecision::Unavailable,
        local_version matches Some(v) ==> (if request.known_version == Some(v) {
            r == CoverDecision::NotModified(v)
        } else {
            r == CoverDecision::Publish(v)
        }),
{
    match local_version {
        None => CoverDecision::Unavailable,
        Some(v) => match request.known_version {
            Some(k) => if k == v {
                CoverDecision::NotModified(v)
            } else {
                CoverDecision::Publish(v)
            },
            None => CoverDecision::Publish(v),
        },
    }
}

/// An optional text, by its characters.
pub open spec fn opt_text(o: Option<String>) -> Option<Seq<char>> {
    match o {
        Some(t) => Some(t@),
        None => None,
    }
}

/// The status sent for a decision.
pub open spec fn answer_status(decision: CoverDecision) -> Seq<char> {
    match decision {
        CoverDecision::Unavailable => COVER_STATUS_UNAVAILABLE@,
        CoverDecision::NotModified(_) => COVER_STATUS_NOT_MODIFIED@,
        CoverDecision::Publish(_) => COVER_STATUS_CHANGED@,
    }
}

/// The cover version sent for a decision.
pub open spec fn answer_version(decision: CoverDecision) -> Option<i64> {
    match decision {
        CoverDecision::Unavailable => None,
        CoverDecision::NotModified(v) => Some(v),
        CoverDecision::Publish(v) => Some(v),
    }
}

/// The cover hash sent for a decision: only a published cover has one.
pub open spec fn answer_hash(decision: CoverDecision, cover_hash: Option<Seq<char>>) -> Option<Seq<char>> {
    match decision {
        CoverDecision::Publish(_) => cover_hash,
        _ => None,
    }
}

/// The answer for a decision; `cover_hash` is where a published cover was
/// stored.
pub fn cover_response(decision: CoverDecision, cover_hash: Option<String>) -> (r: CoverResponse)
    ensures
        r.status@ == answer_status(decision),
        r.cover_version == answer_version(decision),
        opt_text(r.cover_hash) == answer_hash(decision, opt_text(cover_hash)),
        decision is Publish ==> r.cover_hash == cover_hash,
{
    match decision {
        CoverDecision::Unavailable => CoverResponse {
            status: COVER_STATUS_UNAVAILABLE.to_string(),
            cover_version: None,
            cover_hash: None,
        },
        CoverDecision::NotModified(v) => CoverResponse {
            status: COVER_STATUS_NOT_MODIFIED.to_string(),
            cover_version: Some(v),
            cover_hash: None,
        },
        CoverDecision::Publish(v) => CoverResponse {
            status: COVER_STATUS_CHANGED.to_string(),
            cover_version: Some(v),
            cover_hash,
        },
    }
}

/// What the requesting side does with an answer.
#[derive(Debug, Clone, PartialEq, Eq)]
pub enum CoverOutcome {
    /// Keep the cached cover of this version.
    NotModified(i64),
    /// Fetch the cover of this version stored under this hash.
    Fetch(i64, String),
    /// The peer has no cover.
    Unavailable,
}

/// What the requesting side makes of an answer, by value.
pub enum CoverReading {
    NotModified(i64),
    Fetch(i64, Seq<char>),
    Unavailable,
}

/// The reading of an outcome.
pub open spec fn reading_of(o: CoverOutcome) -> CoverReading {
    match o {
        CoverOutcome::NotModified(v) => CoverReading::NotModified(v),
        CoverOutcome::Fetch(v, h) => CoverReading::Fetch(v, h@),
        CoverOutcome::Unavailable => CoverReading::Unavailable,
    }
}

/// How an answer is read: a known status with the fields it needs, or the
/// text of the failure naming what is missing or the unknown status.
pub open spec fn read_answer(status: Seq<char>, version: Option<i64>, hash: Option<Seq<char>>) -> Result<
    CoverReading,
    Seq<char>,
> {
    if status == COVER_STATUS_NOT_MODIFIED@ {
        match version {
            Some(v) => Ok(CoverReading::NotModified(v)),
            None => Err("cover response missing cover_version for not_modified"@),
        }
    } else if status == COVER_STATUS_CHANGED@ {
        match (version, hash) {
            (Some(v), Some(h)) => Ok(CoverReading::Fetch(v, h)),
            (None, _) => Err("cover response missing cover_version for changed"@),
            (Some(_), None) => Err("cover response missing cover_hash for changed"@),
        }
    } else if status == COVER_STATUS_UNAVAILABLE@ {
        Ok(CoverReading::Unavailable)
    } else {
        Err("unknown cover response status: "@ + status)
    }
}

/// Reads an answer: a known status with the fields it needs, or a stream
/// failure naming what is missing or the unknown status.
pub fn interpret_cover_response(response: &CoverResponse) -> (r: Result<CoverOutcome, P2pError>)
    ensures
        match r {
            Ok(o) => read_answer(response.status@, response.cover_version, opt_text(response.cover_hash))
                == Ok::<CoverReading, Seq<char>>(reading_of(o)),
            Err(e) => e matches P2pError::StreamFailed(m) && read_answer(
                response.status@,
                response.cover_version,
                opt_text(response.cover_hash),
            ) == Err::<CoverReading, Seq<char>>(m@),
        },
{
    proof {
        reveal_strlit("not_modified");
        reveal_strlit("changed");
        reveal_strlit("unavailable");
        assert(COVER_STATUS_NOT_MODIFIED@.len() == 12);
        assert(COVER_STATUS_CHANGED@.len() == 7);
        assert(COVER_STATUS_UNAVAILABLE@.len() == 11);
    }
    let status = response.status.as_str();
    if str_eq(status, COVER_STATUS_NOT_MODIFIED) {
        match response.cover_version {
            Some(v) => Ok(CoverOutcome::NotModified(v)),
            None => Err(P2pError::StreamFailed("cover response missing cover_version for not_modified".to_string())),
        }
    } else if str_eq(status, COVER_STATUS_CHANGED) {
        match response.cover_version {
            None => Err(P2pError::StreamFailed("cover response missing cover_version for changed".to_string())),
            Some(v) => match &response.cover_hash {
                Some(h) => Ok(CoverOutcome::Fetch(v, h.clone())),
                None => Err(P2pError::StreamFailed("cover response missing cover_hash for changed".to_string())),
            },
        }
    } else if str_eq(status, COVER_STATUS_UNAVAILABLE) {
        Ok(CoverOutcome::Unavailable)
    } else {
        Err(P2pError::StreamFailed(concat("unknown cover response status: ", status)))
    }
}

/// A character kept in a cache file name: ASCII letters and digits, `.`
/// and `-`; anything else becomes `_`.
pub open spec fn cache_char(c: char) -> char {
    if ('a' <= c && c <= 'z') || ('A' <= c && c <= 'Z') || ('0' <= c && c <= '9') || c == '.' || c == '-' {
        c
    } else {
        '_'
    }
}

/// A value made safe for a cache file name.
pub fn sanitize_cache_component(value: &str) -> (r: String)
    ensures
        r@ == value@.map_values(|c: char| cache_char(c)),
{
    let c = chars_of(value);
    let mut out: Vec<char> = Vec::new();
    let mut i: usize = 0;
    while i < c.len()
        invariant
            i <= c.len(),
            out@ == c@.take(i as int).map_values(|x: char| cache_char(x)),
        decreases c.len() - i,
    {
        let ch = c[i];
        let keep = ('a' <= ch && ch <= 'z') || ('A' <= ch && ch <= 'Z') || ('0' <= ch && ch <= '9') || ch == '.' || ch == '-';
        out.push(if keep { ch } else { '_' });
        i += 1;
        assert(out@ =~= c@.take(i as int).map_values(|x: char| cache_char(x)));
    }
    assert(c@.take(c.len() as int) =~= c@);
    string_of(&out)
}

/// The cache file of a peer's cover: `<peer>_<comic>_<version>.jpg`, both
/// names made safe.
pub fn cached_cover_file_name(peer_id: &str, comic_name: &str, cover_version: i64) -> (r: String)
    ensures
        r@ == peer_id@.map_values(|c: char| cache_char(c)) + "_"@ + comic_name@.map_values(|c: char| cache_char(c))
            + "_"@ + signed_decimal(cover_version as int) + ".jpg"@,
{
    let p = sanitize_cache_component(peer_id);
    let c = sanitize_cache_component(comic_name);
    let v = i64_to_string(cover_version);
    let a = concat(p.as_str(), "_");
    let b = concat(a.as_str(), c.as_str());
    let d = concat(b.as_str(), "_");
    let e = concat(d.as_str(), v.as_str());
    concat(e.as_str(), ".jpg")
}

/// An answer is read as it was meant: no cover is read as unavailable, a
/// current version as not modified, and a published cover with its hash as
/// a fetch of that version and hash; a published cover sent without a hash
/// is refused.
pub proof fn answers_are_read_as_sent(decision: CoverDecision, cover_hash: Option<Seq<char>>)
    ensures
        read_answer(answer_status(decision), answer_version(decision), answer_hash(decision, cover_hash))
            == match decision {
            CoverDecision::Unavailable => Ok::<CoverReading, Seq<char>>(CoverReading::Unavailable),
            CoverDecision::NotModified(v) => Ok(CoverReading::NotModified(v)),
            CoverDecision::Publish(v) => match cover_hash {
                Some(h) => Ok(CoverReading::Fetch(v, h)),
                None => Err("cover response missing cover_hash for changed"@),
            },
        },
{
    reveal_strlit("not_modified");
    reveal_strlit("changed");
    reveal_strlit("unavailable");
    assert(COVER_STATUS_NOT_MODIFIED@.len() == 12);
    assert(COVER_STATUS_CHANGED@.len() == 7);
    assert(COVER_STATUS_UNAVAILABLE@.len() == 11);
}

} // verus!
