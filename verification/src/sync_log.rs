//! Entries of the log of past sync sessions.

use vstd::prelude::*;
use crate::clock::{millis_i64, nanos_i64, now, total_millis, total_nanos, Instant};

verus! {

/// One past sync session with a peer.
#[derive(Debug, Clone, PartialEq, Eq)]
pub struct SyncHistoryLogEntry {
    pub id: i64,
    pub peer_id: String,
    pub kind: String,
    pub status: String,
    pub message: Option<String>,
    pub created_at: i64,
}

/// The entry made at instant `at`: its id is the instant in nanoseconds and
/// its creation time the instant in milliseconds.
pub open spec fn entry_at(
    e: SyncHistoryLogEntry,
    at: Instant,
    peer_id: Seq<char>,
    kind: Seq<char>,
    status: Seq<char>,
    message: Option<Seq<char>>,
) -> bool {
    &&& e.id == total_nanos(at)
    &&& e.created_at == total_millis(at)
    &&& e.peer_id@ == peer_id
    &&& e.kind@ == kind
    &&& e.status@ == status
    &&& match message {
        Some(m) => e.message matches Some(x) && x@ == m,
        None => e.message is None,
    }
}

/// The view of an optional string.
pub open spec fn opt_view(o: Option<&str>) -> Option<Seq<char>> {
    match o {
        Some(s) => Some(s@),
        None => None,
    }
}

impl SyncHistoryLogEntry {
    /// The entry for a session at instant `at`.
    pub fn at(
        at: Instant,
        peer_id: &str,
        kind: &str,
        status: &str,
        message: Option<&str>,
    ) -> (r: Self)
        requires
            at.nanos < 1_000_000_000,
        ensures
            entry_at(r, at, peer_id@, kind@, status@, opt_view(message)),
    {
        SyncHistoryLogEntry {
            id: nanos_i64(at),
            peer_id: peer_id.to_string(),
            kind: kind.to_string(),
            status: status.to_string(),
            message: match message {
                Some(m) => Some(m.to_string()),
                None => None,
            },
            created_at: millis_i64(at),
        }
    }

    /// The entry for a session that ends now.
    pub fn new(peer_id: &str, kind: &str, status: &str, message: Option<&str>) -> (r: Self)
        ensures
            exists|t: Instant|
                t.nanos < 1_000_000_000 && entry_at(r, t, peer_id@, kind@, status@, opt_view(message)),
    {
        let t = now();
        Self::at(t, peer_id, kind, status, message)
    }
}

} // verus!
