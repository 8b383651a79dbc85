//! Side channels between a command that starts a sync and the protocol
//! handler that runs it: the command records what the next session with a
//! peer is scoped to, and the handler consumes it once when the session
//! starts.

use vstd::prelude::*;
use vstd::hash_map::StringHashMap;
use crate::messages::SyncDirection;

verus! {

/// The scope of a pending single-comic sync, as plain values.
pub open spec fn comic_scope_view(v: (String, SyncDirection, Vec<i64>)) -> (
    Seq<char>,
    SyncDirection,
    Seq<i64>,
) {
    (v.0@, v.1, v.2@)
}

/// Pending single-comic syncs, keyed by peer id: comic name, direction and
/// the local chapter ids it is limited to (empty: the whole comic).
pub struct PendingComicSyncRegistry {
    pending: StringHashMap<(String, SyncDirection, Vec<i64>)>,
}

impl PendingComicSyncRegistry {
    /// The pending scopes, by peer id.
    pub closed spec fn scopes(&self) -> Map<Seq<char>, (Seq<char>, SyncDirection, Seq<i64>)> {
        Map::new(
            |k: Seq<char>| self.pending@.contains_key(k),
            |k: Seq<char>| comic_scope_view(self.pending@[k]),
        )
    }

    /// An empty registry.
    pub fn new() -> (r: Self)
        ensures
            r.scopes() == Map::<Seq<char>, (Seq<char>, SyncDirection, Seq<i64>)>::empty(),
    {
        let r = PendingComicSyncRegistry { pending: StringHashMap::new() };
        assert(r.scopes() =~= Map::<Seq<char>, (Seq<char>, SyncDirection, Seq<i64>)>::empty());
        r
    }

    /// Records the scope of the next sync with `peer_id`, replacing any
    /// earlier one.
    pub fn set(
        &mut self,
        peer_id: String,
        comic_name: String,
        direction: SyncDirection,
        chapter_ids: Vec<i64>,
    )
        ensures
            final(self).scopes() == old(self).scopes().insert(
                peer_id@,
                (comic_name@, direction, chapter_ids@),
            ),
    {
        let ghost key = peer_id@;
        let ghost value = (comic_name@, direction, chapter_ids@);
        self.pending.insert(peer_id, (comic_name, direction, chapter_ids));
        assert(self.scopes() =~= old(self).scopes().insert(key, value));
    }

    /// Removes and returns the scope recorded for `peer_id`, if any.
    pub fn take(&mut self, peer_id: &str) -> (r: Option<(String, SyncDirection, Vec<i64>)>)
        ensures
            final(self).scopes() == old(self).scopes().remove(peer_id@),
            old(self).scopes().contains_key(peer_id@) <==> r is Some,
            r matches Some(v) ==> comic_scope_view(v) == old(self).scopes()[peer_id@],
    {
        let found = match self.pending.get(peer_id) {
            Some(v) => {
                let ids = v.2.clone();
                assert(ids@ =~= v.2@);
                Some((v.0.clone(), v.1, ids))
            },
            None => None,
        };
        self.pending.remove(peer_id);
        assert(self.scopes() =~= old(self).scopes().remove(peer_id@));
        found
    }
}

/// Pending single-entry history pushes, keyed by peer id: the comic whose
/// progress the next session sends.
pub struct PendingHistoryEntryRegistry {
    pending: StringHashMap<String>,
}

impl PendingHistoryEntryRegistry {
    /// The pending comic names, by peer id.
    pub closed spec fn scopes(&self) -> Map<Seq<char>, Seq<char>> {
        Map::new(
            |k: Seq<char>| self.pending@.contains_key(k),
            |k: Seq<char>| self.pending@[k]@,
        )
    }

    /// An empty registry.
    pub fn new() -> (r: Self)
        ensures
            r.scopes() == Map::<Seq<char>, Seq<char>>::empty(),
    {
        let r = PendingHistoryEntryRegistry { pending: StringHashMap::new() };
        assert(r.scopes() =~= Map::<Seq<char>, Seq<char>>::empty());
        r
    }

    /// Records the comic of the next history push to `peer_id`, replacing
    /// any earlier one.
    pub fn set(&mut self, peer_id: String, comic_name: String)
        ensures
            final(self).scopes() == old(self).scopes().insert(peer_id@, comic_name@),
    {
        let ghost key = peer_id@;
        let ghost value = comic_name@;
        self.pending.insert(peer_id, comic_name);
        assert(self.scopes() =~= old(self).scopes().insert(key, value));
    }

    /// Removes and returns the comic recorded for `peer_id`, if any.
    pub fn take(&mut self, peer_id: &str) -> (r: Option<String>)
        ensures
            final(self).scopes() == old(self).scopes().remove(peer_id@),
            old(self).scopes().contains_key(peer_id@) <==> r is Some,
            r matches Some(v) ==> v@ == old(self).scopes()[peer_id@],
    {
        let found = match self.pending.get(peer_id) {
            Some(v) => Some(v.clone()),
            None => None,
        };
        self.pending.remove(peer_id);
        assert(self.scopes() =~= old(self).scopes().remove(peer_id@));
        found
    }
}

/// A scope recorded for a peer is what the next `take` for that peer gives
/// back, and once taken it is gone.
pub proof fn comic_scope_take_after_set(
    before: Map<Seq<char>, (Seq<char>, SyncDirection, Seq<i64>)>,
    peer: Seq<char>,
    scope: (Seq<char>, SyncDirection, Seq<i64>),
)
    ensures
        before.insert(peer, scope).contains_key(peer),
        before.insert(peer, scope)[peer] == scope,
        !before.insert(peer, scope).remove(peer).contains_key(peer),
{
}

} // verus!
