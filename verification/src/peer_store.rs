//! The cache of paired peers and of their device information, kept with at
//! most one entry per peer id string.

use vstd::prelude::*;
use crate::text::str_eq;

verus! {

/// A peer's identity: its id string and, when the handshake gave one, the
/// device id.
#[derive(Debug, Clone, PartialEq, Eq)]
pub struct PeerIdentity {
    pub id: String,
    pub device_id: Option<String>,
}

/// A known peer and its address bytes.
#[derive(Debug, Clone, PartialEq, Eq)]
pub struct PeerAddr {
    pub id: PeerIdentity,
    pub addrs: Vec<u8>,
}

/// The id string that entries are compared by.
pub open spec fn peer_key(p: PeerAddr) -> Seq<char> {
    p.id.id@
}

/// The id string of a device-information entry.
pub open spec fn info_key<T>(e: (PeerIdentity, T)) -> Seq<char> {
    e.0.id@
}

/// The index of the first entry of `peers` with id `key`, if any.
pub open spec fn position_of(peers: Seq<PeerAddr>, key: Seq<char>) -> Option<int> {
    if exists|i: int| 0 <= i < peers.len() && peer_key(#[trigger] peers[i]) == key {
        Some(
            choose|i: int|
                0 <= i < peers.len() && peer_key(#[trigger] peers[i]) == key && forall|j: int|
                    0 <= j < i ==> peer_key(#[trigger] peers[j]) != key,
        )
    } else {
        None
    }
}

/// `peers` after recording `peer`: the first entry with the same id is
/// replaced by it, or it is appended when there is none.
pub open spec fn upserted(peers: Seq<PeerAddr>, peer: PeerAddr) -> Seq<PeerAddr> {
    match position_of(peers, peer_key(peer)) {
        Some(i) => peers.update(i, peer),
        None => peers.push(peer),
    }
}

/// No two entries share an id.
pub open spec fn unique_ids(peers: Seq<PeerAddr>) -> bool {
    forall|i: int, j: int|
        0 <= i < peers.len() && 0 <= j < peers.len() && i != j ==> peer_key(#[trigger] peers[i])
            != peer_key(#[trigger] peers[j])
}

/// The ids present in `peers`.
pub open spec fn ids_of(peers: Seq<PeerAddr>) -> Set<Seq<char>> {
    Set::new(|k: Seq<char>| exists|i: int| 0 <= i < peers.len() && peer_key(#[trigger] peers[i]) == k)
}

/// `peers` with one entry per id, each the last entry of that id: the
/// result of recording every entry in order.
pub open spec fn deduped(peers: Seq<PeerAddr>) -> Seq<PeerAddr>
    decreases peers.len(),
{
    if peers.len() == 0 {
        Seq::<PeerAddr>::empty()
    } else {
        upserted(deduped(peers.drop_last()), peers.last())
    }
}

proof fn position_of_facts(peers: Seq<PeerAddr>, key: Seq<char>)
    ensures
        position_of(peers, key) matches Some(i) ==> 0 <= i < peers.len() && peer_key(peers[i])
            == key,
        position_of(peers, key) is None ==> forall|i: int|
            0 <= i < peers.len() ==> peer_key(#[trigger] peers[i]) != key,
{
    if exists|i: int| 0 <= i < peers.len() && peer_key(#[trigger] peers[i]) == key {
        let w = choose|i: int| 0 <= i < peers.len() && peer_key(#[trigger] peers[i]) == key;
        lemma_first_index(peers, key, w);
    }
}

proof fn lemma_first_index(peers: Seq<PeerAddr>, key: Seq<char>, w: int)
    requires
        0 <= w < peers.len(),
        peer_key(peers[w]) == key,
    ensures
        exists|i: int|
            0 <= i < peers.len() && peer_key(#[trigger] peers[i]) == key && forall|j: int|
                0 <= j < i ==> peer_key(#[trigger] peers[j]) != key,
    decreases w,
{
    if exists|j: int| 0 <= j < w && peer_key(#[trigger] peers[j]) == key {
        let v = choose|j: int| 0 <= j < w && peer_key(#[trigger] peers[j]) == key;
        lemma_first_index(peers, key, v);
    } else {
        assert(forall|j: int| 0 <= j < w ==> peer_key(#[trigger] peers[j]) != key);
    }
}

/// Recording a peer keeps ids unique, and the ids present are the old ones
/// plus the peer's.
pub proof fn upsert_keeps_ids_unique(peers: Seq<PeerAddr>, peer: PeerAddr)
    requires
        unique_ids(peers),
    ensures
        unique_ids(upserted(peers, peer)),
        ids_of(upserted(peers, peer)) == ids_of(peers).insert(peer_key(peer)),
{
    position_of_facts(peers, peer_key(peer));
    let r = upserted(peers, peer);
    match position_of(peers, peer_key(peer)) {
        Some(p) => {
            assert forall|k: Seq<char>| #[trigger] ids_of(r).contains(k) == ids_of(peers).insert(
                peer_key(peer),
            ).contains(k) by {
                if ids_of(peers).contains(k) {
                    let i = choose|i: int| 0 <= i < peers.len() && peer_key(#[trigger] peers[i]) == k;
                    if i == p {
                        assert(peer_key(r[p]) == peer_key(peer));
                    } else {
                        assert(r[i] == peers[i]);
                    }
                }
                if k == peer_key(peer) {
                    assert(r[p] == peer);
                }
                if ids_of(r).contains(k) {
                    let i = choose|i: int| 0 <= i < r.len() && peer_key(#[trigger] r[i]) == k;
                    if i != p {
                        assert(peers[i] == r[i]);
                    }
                }
            }
            assert(ids_of(r) =~= ids_of(peers).insert(peer_key(peer)));
        },
        None => {
            assert forall|k: Seq<char>| #[trigger] ids_of(r).contains(k) == ids_of(peers).insert(
                peer_key(peer),
            ).contains(k) by {
                if ids_of(peers).contains(k) {
                    let i = choose|i: int| 0 <= i < peers.len() && peer_key(#[trigger] peers[i]) == k;
                    assert(r[i] == peers[i]);
                }
                if k == peer_key(peer) {
                    assert(r[peers.len() as int] == peer);
                }
                if ids_of(r).contains(k) {
                    let i = choose|i: int| 0 <= i < r.len() && peer_key(#[trigger] r[i]) == k;
                    if i < peers.len() {
                        assert(peers[i] == r[i]);
                    }
                }
            }
            assert(ids_of(r) =~= ids_of(peers).insert(peer_key(peer)));
        },
    }
}

/// Deduplication leaves one entry per id and keeps every id that occurred.
pub proof fn dedupe_leaves_unique_ids(peers: Seq<PeerAddr>)
    ensures
        unique_ids(deduped(peers)),
        ids_of(deduped(peers)) == ids_of(peers),
    decreases peers.len(),
{
    if peers.len() == 0 {
        assert(ids_of(peers) =~= Set::<Seq<char>>::empty());
        assert(ids_of(deduped(peers)) =~= Set::<Seq<char>>::empty());
    } else {
        dedupe_leaves_unique_ids(peers.drop_last());
        upsert_keeps_ids_unique(deduped(peers.drop_last()), peers.last());
        assert forall|k: Seq<char>| #[trigger] ids_of(peers).contains(k) == ids_of(
            peers.drop_last(),
        ).insert(peer_key(peers.last())).contains(k) by {
            if ids_of(peers).contains(k) {
                let i = choose|i: int| 0 <= i < peers.len() && peer_key(#[trigger] peers[i]) == k;
                if i < peers.len() - 1 {
                    assert(peers.drop_last()[i] == peers[i]);
                }
            }
            if ids_of(peers.drop_last()).contains(k) {
                let i = choose|i: int|
                    0 <= i < peers.drop_last().len() && peer_key(#[trigger] peers.drop_last()[i])
                        == k;
                assert(peers[i] == peers.drop_last()[i]);
            }
        }
        assert(ids_of(peers) =~= ids_of(peers.drop_last()).insert(peer_key(peers.last())));
    }
}

/// Finds the first entry with the id of `key`.
fn find_peer(peers: &Vec<PeerAddr>, key: &str) -> (r: Option<usize>)
    ensures
        r matches Some(i) ==> position_of(peers@, key@) == Some(i as int) && i < peers.len(),
        r is None ==> position_of(peers@, key@) is None,
{
    let mut i: usize = 0;
    while i < peers.len()
        invariant
            i <= peers.len(),
            forall|j: int| 0 <= j < i ==> peer_key(#[trigger] peers@[j]) != key@,
        decreases peers.len() - i,
    {
        if str_eq(peers[i].id.id.as_str(), key) {
            proof {
                let w = i as int;
                assert(peer_key(peers@[w]) == key@);
                let c = choose|c: int|
                    0 <= c < peers@.len() && peer_key(#[trigger] peers@[c]) == key@ && forall|j: int|
                        0 <= j < c ==> peer_key(#[trigger] peers@[j]) != key@;
                lemma_first_index(peers@, key@, w);
                if c < w {
                } else if c > w {
                    assert(peer_key(peers@[w]) != key@);
                }
            }
            return Some(i);
        }
        i += 1;
    }
    None
}

/// Records `peer` in the cache: an entry with the same id string is
/// replaced (whatever its device id), otherwise the peer is appended.
pub fn upsert_peer(peers: &mut Vec<PeerAddr>, peer: PeerAddr)
    ensures
        final(peers)@ == upserted(old(peers)@, peer),
{
    match find_peer(peers, peer.id.id.as_str()) {
        Some(i) => {
            peers.set(i, peer);
        },
        None => {
            peers.push(peer);
        },
    }
}

/// Collapses entries that share an id, keeping the last of each, in the
/// order in which the ids first occur.
pub fn dedupe_by_id(peers: Vec<PeerAddr>) -> (r: Vec<PeerAddr>)
    ensures
        r@ == deduped(peers@),
        unique_ids(r@),
        ids_of(r@) == ids_of(peers@),
{
    let mut out: Vec<PeerAddr> = Vec::new();
    let mut rest = peers;
    let ghost all = rest@;
    let ghost mut k: int = 0;
    while rest.len() > 0
        invariant
            0 <= k <= all.len(),
            rest@ == all.skip(k),
            out@ == deduped(all.take(k)),
        decreases rest.len(),
    {
        let p = rest.remove(0);
        proof {
            assert(p == all[k]);
            assert(all.take(k + 1).drop_last() =~= all.take(k));
            assert(all.take(k + 1).last() == p);
            assert(rest@ =~= all.skip(k + 1));
        }
        upsert_peer(&mut out, p);
        proof {
            k = k + 1;
        }
    }
    assert(all.take(k) =~= all);
    proof {
        dedupe_leaves_unique_ids(all);
    }
    out
}

/// `peers` without the entries whose id is `key`, in order.
pub open spec fn without_id(peers: Seq<PeerAddr>, key: Seq<char>) -> Seq<PeerAddr>
    decreases peers.len(),
{
    if peers.len() == 0 {
        Seq::<PeerAddr>::empty()
    } else if peer_key(peers.last()) == key {
        without_id(peers.drop_last(), key)
    } else {
        without_id(peers.drop_last(), key).push(peers.last())
    }
}

/// Removing an id leaves every other id and drops that one.
pub proof fn removal_drops_only_that_id(peers: Seq<PeerAddr>, key: Seq<char>)
    ensures
        ids_of(without_id(peers, key)) == ids_of(peers).remove(key),
        without_id(peers, key).len() <= peers.len(),
        without_id(peers, key).len() == peers.len() <==> !ids_of(peers).contains(key),
    decreases peers.len(),
{
    if peers.len() == 0 {
        assert(ids_of(peers) =~= Set::<Seq<char>>::empty());
        assert(ids_of(without_id(peers, key)) =~= Set::<Seq<char>>::empty());
    } else {
        let init = peers.drop_last();
        removal_drops_only_that_id(init, key);
        let r = without_id(peers, key);
        let ri = without_id(init, key);
        assert forall|k: Seq<char>| #[trigger] ids_of(peers).contains(k) == (ids_of(init).contains(k)
            || k == peer_key(peers.last())) by {
            if ids_of(peers).contains(k) {
                let i = choose|i: int| 0 <= i < peers.len() && peer_key(#[trigger] peers[i]) == k;
                if i < init.len() {
                    assert(init[i] == peers[i]);
                }
            }
            if ids_of(init).contains(k) {
                let i = choose|i: int| 0 <= i < init.len() && peer_key(#[trigger] init[i]) == k;
                assert(peers[i] == init[i]);
            }
            if k == peer_key(peers.last()) {
                assert(peer_key(peers[peers.len() - 1]) == k);
            }
        }
        if peer_key(peers.last()) != key {
            assert forall|k: Seq<char>| #[trigger] ids_of(r).contains(k) == (ids_of(ri).contains(k)
                || k == peer_key(peers.last())) by {
                if ids_of(r).contains(k) {
                    let i = choose|i: int| 0 <= i < r.len() && peer_key(#[trigger] r[i]) == k;
                    if i < ri.len() {
                        assert(ri[i] == r[i]);
                    }
                }
                if ids_of(ri).contains(k) {
                    let i = choose|i: int| 0 <= i < ri.len() && peer_key(#[trigger] ri[i]) == k;
                    assert(r[i] == ri[i]);
                }
                if k == peer_key(peers.last()) {
                    assert(peer_key(r[ri.len() as int]) == k);
                }
            }
        }
        assert(ids_of(r) =~= ids_of(peers).remove(key));
    }
}

/// Removes every entry with id `id`; returns whether anything was removed
/// (the cache is written back only then).
pub fn remove_peer(peers: &mut Vec<PeerAddr>, id: &str) -> (changed: bool)
    ensures
        final(peers)@ == without_id(old(peers)@, id@),
        changed == (final(peers)@.len() != old(peers)@.len()),
        changed == ids_of(old(peers)@).contains(id@),
{
    let mut all: Vec<PeerAddr> = Vec::new();
    std::mem::swap(peers, &mut all);
    let ghost orig = all@;
    let before = all.len();
    let ghost mut k: int = 0;
    while all.len() > 0
        invariant
            0 <= k <= orig.len(),
            all@ == orig.skip(k),
            peers@ == without_id(orig.take(k), id@),
            before == orig.len(),
        decreases all.len(),
    {
        let p = all.remove(0);
        proof {
            assert(p == orig[k]);
            assert(orig.take(k + 1).drop_last() =~= orig.take(k));
            assert(orig.take(k + 1).last() == p);
            assert(all@ =~= orig.skip(k + 1));
        }
        if !str_eq(p.id.id.as_str(), id) {
            peers.push(p);
        }
        proof {
            k = k + 1;
        }
    }
    assert(orig.take(k) =~= orig);
    proof {
        removal_drops_only_that_id(orig, id@);
    }
    peers.len() != before
}

/// Records the device information of `peer`: the entry with the same id
/// string keeps its stored identity and takes `info`; without one, the pair
/// is appended.
pub fn upsert_device_info<T>(cache: &mut Vec<(PeerIdentity, T)>, peer: PeerIdentity, info: T)
    ensures
        (exists|i: int| 0 <= i < old(cache)@.len() && info_key(#[trigger] old(cache)@[i]) == peer.id@)
            ==> exists|i: int|
            0 <= i < old(cache)@.len() && info_key(#[trigger] old(cache)@[i]) == peer.id@ && (forall|
                j: int,
            | 0 <= j < i ==> info_key(#[trigger] old(cache)@[j]) != peer.id@) && final(cache)@
                == old(cache)@.update(i, (old(cache)@[i].0, info)),
        !(exists|i: int| 0 <= i < old(cache)@.len() && info_key(#[trigger] old(cache)@[i])
            == peer.id@) ==> final(cache)@ == old(cache)@.push((peer, info)),
{
    let mut i: usize = 0;
    while i < cache.len()
        invariant
            i <= cache.len(),
            cache@ == old(cache)@,
            forall|j: int| 0 <= j < i ==> info_key(#[trigger] cache@[j]) != peer.id@,
        decreases cache.len() - i,
    {
        if str_eq(cache[i].0.id.as_str(), peer.id.as_str()) {
            let ghost old_cache = cache@;
            let (ident, _old) = cache.remove(i);
            cache.insert(i, (ident, info));
            assert(cache@ =~= old_cache.update(i as int, (old_cache[i as int].0, info)));
            assert(info_key(old_cache[i as int]) == peer.id@);
            assert(forall|j: int| 0 <= j < i ==> info_key(#[trigger] old_cache[j]) != peer.id@);
            return;
        }
        i += 1;
    }
    cache.push((peer, info));
}

/// Removes the device information of id `id`; returns whether anything was
/// removed.
pub fn remove_device_info<T>(cache: &mut Vec<(PeerIdentity, T)>, id: &str) -> (changed: bool)
    ensures
        final(cache)@ == old(cache)@.filter(|e: (PeerIdentity, T)| info_key(e) != id@),
        changed == (final(cache)@.len() != old(cache)@.len()),
{
    let mut all: Vec<(PeerIdentity, T)> = Vec::new();
    std::mem::swap(cache, &mut all);
    let ghost orig = all@;
    let before = all.len();
    let ghost mut k: int = 0;
    while all.len() > 0
        invariant
            0 <= k <= orig.len(),
            all@ == orig.skip(k),
            cache@ == orig.take(k).filter(|e: (PeerIdentity, T)| info_key(e) != id@),
            before == orig.len(),
        decreases all.len(),
    {
        let e = all.remove(0);
        proof {
            assert(e == orig[k]);
            assert(orig.take(k + 1).drop_last() =~= orig.take(k));
            assert(all@ =~= orig.skip(k + 1));
            reveal(Seq::filter);
        }
        if !str_eq(e.0.id.as_str(), id) {
            cache.push(e);
        }
        proof {
            k = k + 1;
        }
    }
    assert(orig.take(k) =~= orig);
    cache.len() != before
}

} // verus!
