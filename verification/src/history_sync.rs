//! Merging reading history received from a peer: progress is
//! last-write-wins by `updated_at`, read markers are a union.

use vstd::prelude::*;
use crate::messages::{HistoryEntry, ReadMarker};
use crate::text::str_eq;

verus! {

/// How many entries and markers of a received manifest were applied.
#[derive(Debug, Clone, Copy, PartialEq, Eq, Structural)]
pub struct ApplyManifestStats {
    pub entries_applied: u32,
    pub markers_applied: u32,
}

impl ApplyManifestStats {
    /// Nothing applied yet.
    pub fn new() -> (r: Self)
        ensures
            r.entries_applied == 0,
            r.markers_applied == 0,
    {
        ApplyManifestStats { entries_applied: 0, markers_applied: 0 }
    }

    /// Counts one more applied progress entry.
    pub fn record_entry(&mut self)
        requires
            old(self).entries_applied < u32::MAX,
        ensures
            final(self).entries_applied == old(self).entries_applied + 1,
            final(self).markers_applied == old(self).markers_applied,
    {
        self.entries_applied = self.entries_applied + 1;
    }

    /// Counts one more applied read marker.
    pub fn record_marker(&mut self)
        requires
            old(self).markers_applied < u32::MAX,
        ensures
            final(self).markers_applied == old(self).markers_applied + 1,
            final(self).entries_applied == old(self).entries_applied,
    {
        self.markers_applied = self.markers_applied + 1;
    }
}

/// Reading progress of one comic as stored locally.
#[derive(Debug, Clone, Copy, PartialEq, Eq, Structural)]
pub struct ReadingHistory {
    pub comic_directory_id: i64,
    pub chapter_archive_id: i64,
    pub last_page: i64,
    pub is_completed: bool,
    pub updated_at: i64,
}

/// A received progress entry replaces the local one only when it is newer;
/// without local progress it is always taken.
pub open spec fn should_apply(incoming_updated_at: i64, local: Option<ReadingHistory>) -> bool {
    match local {
        Some(l) => incoming_updated_at > l.updated_at,
        None => true,
    }
}

/// The local progress after merging `incoming`.
pub open spec fn merged(local: Option<ReadingHistory>, incoming: ReadingHistory) -> Option<
    ReadingHistory,
> {
    if should_apply(incoming.updated_at, local) {
        Some(incoming)
    } else {
        local
    }
}

/// Whether a received progress entry with `incoming_updated_at` replaces
/// the local progress.
pub fn should_apply_entry(incoming_updated_at: i64, local: Option<ReadingHistory>) -> (r: bool)
    ensures
        r == should_apply(incoming_updated_at, local),
{
    match local {
        Some(l) => incoming_updated_at > l.updated_at,
        None => true,
    }
}

/// Merges received progress into the local one (last write wins); returns
/// the new local progress and whether it changed.
pub fn merge_progress(local: Option<ReadingHistory>, incoming: ReadingHistory) -> (r: (
    Option<ReadingHistory>,
    bool,
))
    ensures
        r.0 == merged(local, incoming),
        r.1 == should_apply(incoming.updated_at, local),
{
    if should_apply_entry(incoming.updated_at, local) {
        (Some(incoming), true)
    } else {
        (local, false)
    }
}

/// The progress row a received entry becomes, once its comic and chapter
/// were found locally.
pub fn progress_from_entry(entry: &HistoryEntry, comic_id: i64, chapter_id: i64) -> (r:
    ReadingHistory)
    ensures
        r.comic_directory_id == comic_id,
        r.chapter_archive_id == chapter_id,
        r.last_page == entry.last_page,
        r.is_completed == entry.is_completed,
        r.updated_at == entry.updated_at,
{
    ReadingHistory {
        comic_directory_id: comic_id,
        chapter_archive_id: chapter_id,
        last_page: entry.last_page,
        is_completed: entry.is_completed,
        updated_at: entry.updated_at,
    }
}

/// Merging the same entry twice changes nothing the second time, and the
/// kept progress never gets older.
pub proof fn merge_is_idempotent_and_monotone(local: Option<ReadingHistory>, incoming: ReadingHistory)
    ensures
        merged(merged(local, incoming), incoming) == merged(local, incoming),
        !should_apply(incoming.updated_at, merged(local, incoming)),
        local matches Some(l) ==> merged(local, incoming).unwrap().updated_at >= l.updated_at,
        merged(local, incoming).unwrap().updated_at >= incoming.updated_at,
{
}

/// Entries with different timestamps can be merged in either order: the
/// newest one wins.
pub proof fn merge_order_does_not_matter(
    local: Option<ReadingHistory>,
    a: ReadingHistory,
    b: ReadingHistory,
)
    requires
        a.updated_at != b.updated_at,
    ensures
        merged(merged(local, a), b) == merged(merged(local, b), a),
{
}

/// Whether the chapter of the current progress is among the selected
/// chapter labels.
pub fn is_selected(chapter_sorts: &Vec<String>, chapter_sort: &str) -> (r: bool)
    ensures
        r == exists|i: int| 0 <= i < chapter_sorts.len() && (#[trigger] chapter_sorts@[i])@
            == chapter_sort@,
{
    let mut i: usize = 0;
    while i < chapter_sorts.len()
        invariant
            i <= chapter_sorts.len(),
            forall|j: int| 0 <= j < i ==> (#[trigger] chapter_sorts@[j])@ != chapter_sort@,
        decreases chapter_sorts.len() - i,
    {
        if str_eq(chapter_sorts[i].as_str(), chapter_sort) {
            return true;
        }
        i += 1;
    }
    false
}

/// The history entry that reports local progress under the natural key
/// (comic name and chapter label).
pub fn entry_from_progress(comic_name: &str, chapter_sort: String, progress: &ReadingHistory) -> (r:
    HistoryEntry)
    ensures
        r.comic_name@ == comic_name@,
        r.chapter == chapter_sort,
        r.last_page == progress.last_page,
        r.is_completed == progress.is_completed,
        r.updated_at == progress.updated_at,
{
    HistoryEntry {
        comic_name: comic_name.to_string(),
        chapter: chapter_sort,
        last_page: progress.last_page,
        is_completed: progress.is_completed,
        updated_at: progress.updated_at,
    }
}

/// The read marker reporting a chapter read at `created_at`.
pub fn marker_for(comic_name: &str, chapter: String, created_at: i64) -> (r: ReadMarker)
    ensures
        r.comic_name@ == comic_name@,
        r.chapter == chapter,
        r.created_at == created_at,
{
    ReadMarker { comic_name: comic_name.to_string(), chapter, created_at }
}

/// The labels of the requested chapters that exist and belong to comic
/// `comic_id`, in request order; `found[i]` is the comic and label of the
/// i-th requested chapter when it exists.
pub fn chapter_sorts_of_comic(comic_id: i64, found: Vec<Option<(i64, String)>>) -> (r: Vec<String>)
    ensures
        r@.map_values(|s: String| s@) == found@.filter(
            |f: Option<(i64, String)>| f matches Some(x) && x.0 == comic_id,
        ).map_values(|f: Option<(i64, String)>| f.unwrap().1@),
{
    let mut all = found;
    let ghost orig = all@;
    let mut out: Vec<String> = Vec::new();
    let ghost mut k: int = 0;
    while all.len() > 0
        invariant
            0 <= k <= orig.len(),
            all@ == orig.skip(k),
            out@.map_values(|s: String| s@) == orig.take(k).filter(
                |f: Option<(i64, String)>| f matches Some(x) && x.0 == comic_id,
            ).map_values(|f: Option<(i64, String)>| f.unwrap().1@),
        decreases all.len(),
    {
        let f = all.remove(0);
        let ghost prev = orig.take(k).filter(
            |f: Option<(i64, String)>| f matches Some(x) && x.0 == comic_id,
        );
        let ghost old_out = out@;
        proof {
            assert(f == orig[k]);
            assert(orig.take(k + 1).drop_last() =~= orig.take(k));
            assert(all@ =~= orig.skip(k + 1));
            reveal(Seq::filter);
        }
        match f {
            Some((fk, sort)) => {
                if fk == comic_id {
                    out.push(sort);
                    assert(out@.map_values(|s: String| s@) =~= old_out.map_values(|s: String| s@).push(
                        orig[k].unwrap().1@,
                    ));
                    assert(prev.push(orig[k]).map_values(
                        |f: Option<(i64, String)>| f.unwrap().1@,
                    ) =~= prev.map_values(|f: Option<(i64, String)>| f.unwrap().1@).push(
                        orig[k].unwrap().1@,
                    ));
                }
            },
            None => {},
        }
        proof {
            k = k + 1;
        }
    }
    assert(orig.take(k) =~= orig);
    out
}

/// No two rows of stored progress are for the same comic.
pub open spec fn one_row_per_comic(v: Seq<ReadingHistory>) -> bool {
    forall|i: int, j: int| 0 <= i < j < v.len() ==> (#[trigger] v[i]).comic_directory_id != (#[trigger] v[j]).comic_directory_id
}

/// Stored progress rows as a map from comic to its progress.
pub open spec fn progress_map(v: Seq<ReadingHistory>) -> Map<i64, ReadingHistory> {
    Map::new(
        |k: i64| exists|i: int| 0 <= i < v.len() && (#[trigger] v[i]).comic_directory_id == k,
        |k: i64| v[choose|i: int| 0 <= i < v.len() && (#[trigger] v[i]).comic_directory_id == k],
    )
}

/// The local progress of comic `k`, if any.
pub open spec fn progress_of(m: Map<i64, ReadingHistory>, k: i64) -> Option<ReadingHistory> {
    if m.contains_key(k) {
        Some(m[k])
    } else {
        None
    }
}

/// Progress after one received entry: `None` stands for an entry whose
/// comic or chapter is not in the local library, which is passed over;
/// otherwise the entry is merged into its comic's progress.
pub open spec fn apply_one(m: Map<i64, ReadingHistory>, e: Option<ReadingHistory>) -> Map<i64, ReadingHistory> {
    match e {
        Some(x) => if should_apply(x.updated_at, progress_of(m, x.comic_directory_id)) {
            m.insert(x.comic_directory_id, x)
        } else {
            m
        },
        None => m,
    }
}

/// Whether a received entry is applied to progress `m`.
pub open spec fn applies(m: Map<i64, ReadingHistory>, e: Option<ReadingHistory>) -> bool {
    e matches Some(x) && should_apply(x.updated_at, progress_of(m, x.comic_directory_id))
}

/// Progress after the received entries `es`, in order.
pub open spec fn applied_all(m: Map<i64, ReadingHistory>, es: Seq<Option<ReadingHistory>>) -> Map<i64, ReadingHistory>
    decreases es.len(),
{
    if es.len() == 0 {
        m
    } else {
        apply_one(applied_all(m, es.drop_last()), es.last())
    }
}

/// How many of the received entries `es` are applied, in order.
pub open spec fn applied_count(m: Map<i64, ReadingHistory>, es: Seq<Option<ReadingHistory>>) -> nat
    decreases es.len(),
{
    if es.len() == 0 {
        0
    } else {
        applied_count(m, es.drop_last()) + if applies(applied_all(m, es.drop_last()), es.last()) {
            1nat
        } else {
            0nat
        }
    }
}

proof fn lemma_progress_row(v: Seq<ReadingHistory>, i: int)
    requires
        one_row_per_comic(v),
        0 <= i < v.len(),
    ensures
        progress_map(v).contains_key(v[i].comic_directory_id),
        progress_map(v)[v[i].comic_directory_id] == v[i],
{
    let k = v[i].comic_directory_id;
    let c = choose|j: int| 0 <= j < v.len() && (#[trigger] v[j]).comic_directory_id == k;
    if c != i {
        if c < i {
            assert(v[c].comic_directory_id != v[i].comic_directory_id);
        } else {
            assert(v[i].comic_directory_id != v[c].comic_directory_id);
        }
    }
}

proof fn lemma_progress_update(v: Seq<ReadingHistory>, i: int, x: ReadingHistory)
    requires
        one_row_per_comic(v),
        0 <= i < v.len(),
        x.comic_directory_id == v[i].comic_directory_id,
    ensures
        one_row_per_comic(v.update(i, x)),
        progress_map(v.update(i, x)) == progress_map(v).insert(x.comic_directory_id, x),
{
    let w = v.update(i, x);
    assert forall|a: int, b: int| 0 <= a < b < w.len() implies (#[trigger] w[a]).comic_directory_id != (#[trigger] w[b]).comic_directory_id by {
        assert(w[a].comic_directory_id == v[a].comic_directory_id);
        assert(w[b].comic_directory_id == v[b].comic_directory_id);
    }
    let m = progress_map(v).insert(x.comic_directory_id, x);
    assert forall|k: i64| m.contains_key(k) implies #[trigger] progress_map(w).contains_key(k) by {
        if k == x.comic_directory_id {
            assert(0 <= i < w.len() && w[i].comic_directory_id == k);
        } else {
            assert(progress_map(v).contains_key(k));
            let j = choose|j: int| 0 <= j < v.len() && (#[trigger] v[j]).comic_directory_id == k;
            assert(w[j].comic_directory_id == v[j].comic_directory_id);
            assert(0 <= j < w.len() && w[j].comic_directory_id == k);
        }
    }
    assert forall|k: i64| #[trigger] progress_map(w).contains_key(k) implies m.contains_key(k) by {
        let j = choose|j: int| 0 <= j < w.len() && (#[trigger] w[j]).comic_directory_id == k;
        assert(w[j].comic_directory_id == v[j].comic_directory_id);
        assert(0 <= j < v.len() && v[j].comic_directory_id == k);
        assert(progress_map(v).contains_key(k));
    }
    assert forall|k: i64| #[trigger] progress_map(w).contains_key(k) implies progress_map(w)[k] == m[k] by {
        let j = choose|j: int| 0 <= j < w.len() && (#[trigger] w[j]).comic_directory_id == k;
        lemma_progress_row(w, j);
        assert(v[j].comic_directory_id == k);
        if j != i {
            lemma_progress_row(v, j);
        }
    }
    assert(progress_map(w) =~= m);
}

proof fn lemma_progress_push(v: Seq<ReadingHistory>, x: ReadingHistory)
    requires
        one_row_per_comic(v),
        !progress_map(v).contains_key(x.comic_directory_id),
    ensures
        one_row_per_comic(v.push(x)),
        progress_map(v.push(x)) == progress_map(v).insert(x.comic_directory_id, x),
{
    let w = v.push(x);
    assert forall|a: int, b: int| 0 <= a < b < w.len() implies (#[trigger] w[a]).comic_directory_id != (#[trigger] w[b]).comic_directory_id by {
        if b == v.len() {
            assert(w[a] == v[a]);
            if v[a].comic_directory_id == x.comic_directory_id {
                assert(progress_map(v).contains_key(x.comic_directory_id));
            }
        } else {
            assert(w[a] == v[a] && w[b] == v[b]);
        }
    }
    let m = progress_map(v).insert(x.comic_directory_id, x);
    assert forall|k: i64| m.contains_key(k) implies #[trigger] progress_map(w).contains_key(k) by {
        if k == x.comic_directory_id {
            assert(w[v.len() as int] == x);
            assert(0 <= v.len() < w.len() && w[v.len() as int].comic_directory_id == k);
        } else {
            assert(progress_map(v).contains_key(k));
            let j = choose|j: int| 0 <= j < v.len() && (#[trigger] v[j]).comic_directory_id == k;
            assert(w[j] == v[j]);
            assert(0 <= j < w.len() && w[j].comic_directory_id == k);
        }
    }
    assert forall|k: i64| #[trigger] progress_map(w).contains_key(k) implies m.contains_key(k) by {
        if k != x.comic_directory_id {
            let j = choose|j: int| 0 <= j < w.len() && (#[trigger] w[j]).comic_directory_id == k;
            assert(w[v.len() as int] == x);
            assert(j != v.len());
            assert(w[j] == v[j]);
            assert(0 <= j < v.len() && v[j].comic_directory_id == k);
            assert(progress_map(v).contains_key(k));
        }
    }
    assert forall|k: i64| #[trigger] progress_map(w).contains_key(k) implies progress_map(w)[k] == m[k] by {
        let j = choose|j: int| 0 <= j < w.len() && (#[trigger] w[j]).comic_directory_id == k;
        lemma_progress_row(w, j);
        if j < v.len() {
            assert(v[j] == w[j]);
            lemma_progress_row(v, j);
        }
    }
    assert(progress_map(w) =~= m);
}

/// Applies received progress entries to the stored progress rows, in
/// order: each replaces its comic's progress only when it is newer (last
/// write wins). `incoming[i]` is the row the i-th entry becomes, or `None`
/// when its comic or chapter is not in the local library, which is passed
/// over. Returns how many entries were applied.
pub fn apply_progress_entries(progress: &mut Vec<ReadingHistory>, incoming: &Vec<Option<ReadingHistory>>) -> (applied: u32)
    requires
        one_row_per_comic(old(progress)@),
        incoming.len() <= u32::MAX,
    ensures
        one_row_per_comic(final(progress)@),
        progress_map(final(progress)@) == applied_all(progress_map(old(progress)@), incoming@),
        applied as nat == applied_count(progress_map(old(progress)@), incoming@),
{
    let ghost m0 = progress_map(progress@);
    let mut applied: u32 = 0;
    let mut i: usize = 0;
    assert(incoming@.take(0) =~= Seq::<Option<ReadingHistory>>::empty());
    while i < incoming.len()
        invariant
            i <= incoming.len(),
            incoming.len() <= u32::MAX,
            applied <= i,
            one_row_per_comic(progress@),
            progress_map(progress@) == applied_all(m0, incoming@.take(i as int)),
            applied as nat == applied_count(m0, incoming@.take(i as int)),
        decreases incoming.len() - i,
    {
        proof {
            assert(incoming@.take(i + 1).drop_last() =~= incoming@.take(i as int));
            assert(incoming@.take(i + 1).last() == incoming@[i as int]);
        }
        match incoming[i] {
            Some(x) => {
                let mut j: usize = 0;
                while j < progress.len() && progress[j].comic_directory_id != x.comic_directory_id
                    invariant
                        j <= progress.len(),
                        forall|q: int| 0 <= q < j ==> (#[trigger] progress@[q]).comic_directory_id != x.comic_directory_id,
                    decreases progress.len() - j,
                {
                    j += 1;
                }
                if j < progress.len() {
                    proof {
                        lemma_progress_row(progress@, j as int);
                    }
                    if x.updated_at > progress[j].updated_at {
                        proof {
                            lemma_progress_update(progress@, j as int, x);
                        }
                        progress.set(j, x);
                        applied += 1;
                    }
                } else {
                    proof {
                        if progress_map(progress@).contains_key(x.comic_directory_id) {
                            let q = choose|q: int| 0 <= q < progress@.len() && (#[trigger] progress@[q]).comic_directory_id == x.comic_directory_id;
                            assert(progress@[q].comic_directory_id != x.comic_directory_id);
                        }
                        lemma_progress_push(progress@, x);
                    }
                    progress.push(x);
                    applied += 1;
                }
            },
            None => {},
        }
        i += 1;
    }
    assert(incoming@.take(incoming.len() as int) =~= incoming@);
    applied
}

/// Progress `m` is at least as new as every entry of `es`, comic by comic.
pub open spec fn covers(m: Map<i64, ReadingHistory>, es: Seq<Option<ReadingHistory>>) -> bool {
    forall|k: int| 0 <= k < es.len() ==> (#[trigger] es[k] matches Some(x) ==> m.contains_key(x.comic_directory_id)
        && m[x.comic_directory_id].updated_at >= x.updated_at)
}

proof fn lemma_covered_entries_change_nothing(m: Map<i64, ReadingHistory>, es: Seq<Option<ReadingHistory>>)
    requires
        covers(m, es),
    ensures
        applied_all(m, es) == m,
        applied_count(m, es) == 0,
    decreases es.len(),
{
    if es.len() > 0 {
        let p = es.drop_last();
        assert forall|k: int| 0 <= k < p.len() implies (#[trigger] p[k] matches Some(x) ==> m.contains_key(x.comic_directory_id)
            && m[x.comic_directory_id].updated_at >= x.updated_at) by {
            assert(p[k] == es[k]);
        }
        lemma_covered_entries_change_nothing(m, p);
        assert(es[es.len() - 1] == es.last());
    }
}

proof fn lemma_applied_covers(m: Map<i64, ReadingHistory>, es: Seq<Option<ReadingHistory>>)
    ensures
        covers(applied_all(m, es), es),
        forall|c: i64| #[trigger] m.contains_key(c) ==> applied_all(m, es).contains_key(c)
            && applied_all(m, es)[c].updated_at >= m[c].updated_at,
    decreases es.len(),
{
    if es.len() > 0 {
        let p = es.drop_last();
        lemma_applied_covers(m, p);
        let before = applied_all(m, p);
        let after = applied_all(m, es);
        assert(after == apply_one(before, es.last()));
        assert forall|c: i64| #[trigger] before.contains_key(c) implies after.contains_key(c)
            && after[c].updated_at >= before[c].updated_at by {
        }
        assert forall|k: int| 0 <= k < es.len() implies (#[trigger] es[k] matches Some(x) ==> after.contains_key(x.comic_directory_id)
            && after[x.comic_directory_id].updated_at >= x.updated_at) by {
            if k < p.len() {
                assert(p[k] == es[k]);
            }
        }
    }
}

/// Applying the same received entries again changes nothing and applies
/// none of them: a history sync repeated right after a complete one leaves
/// the stored progress as it is.
pub proof fn applying_again_changes_nothing(m: Map<i64, ReadingHistory>, es: Seq<Option<ReadingHistory>>)
    ensures
        applied_all(applied_all(m, es), es) == applied_all(m, es),
        applied_count(applied_all(m, es), es) == 0,
{
    lemma_applied_covers(m, es);
    lemma_covered_entries_change_nothing(applied_all(m, es), es);
}

/// A chapter marked as read locally.
#[derive(Debug, Clone, Copy, PartialEq, Eq, Structural)]
pub struct ChapterRead {
    pub comic_directory_id: i64,
    pub chapter_archive_id: i64,
    pub created_at: i64,
}

/// Whether chapter `chapter` of comic `comic` is marked as read in `v`.
pub open spec fn marked(v: Seq<ChapterRead>, comic: i64, chapter: i64) -> bool {
    exists|i: int| 0 <= i < v.len() && (#[trigger] v[i]).comic_directory_id == comic && v[i].chapter_archive_id == chapter
}

/// Read markers after one received marker: `None` stands for a marker whose
/// comic or chapter is not in the local library; a chapter already marked
/// keeps its marker; otherwise the marker is added.
pub open spec fn with_marker(v: Seq<ChapterRead>, e: Option<ChapterRead>) -> Seq<ChapterRead> {
    match e {
        Some(x) => if marked(v, x.comic_directory_id, x.chapter_archive_id) {
            v
        } else {
            v.push(x)
        },
        None => v,
    }
}

/// Read markers after the received markers `es`, in order.
pub open spec fn with_markers(v: Seq<ChapterRead>, es: Seq<Option<ChapterRead>>) -> Seq<ChapterRead>
    decreases es.len(),
{
    if es.len() == 0 {
        v
    } else {
        with_marker(with_markers(v, es.drop_last()), es.last())
    }
}

/// Adds received read markers to the local ones, in order, keeping the
/// marker a chapter already has (markers are a union). `incoming[i]` is the
/// row the i-th marker becomes, or `None` when its comic or chapter is not
/// in the local library. Returns how many markers were written, that is,
/// added for a chapter that had none.
pub fn apply_read_markers(reads: &mut Vec<ChapterRead>, incoming: &Vec<Option<ChapterRead>>) -> (applied: u32)
    requires
        incoming.len() <= u32::MAX,
    ensures
        final(reads)@ == with_markers(old(reads)@, incoming@),
        applied as nat == final(reads)@.len() - old(reads)@.len(),
{
    let ghost v0 = reads@;
    let mut applied: u32 = 0;
    let mut i: usize = 0;
    assert(incoming@.take(0) =~= Seq::<Option<ChapterRead>>::empty());
    while i < incoming.len()
        invariant
            i <= incoming.len(),
            incoming.len() <= u32::MAX,
            applied <= i,
            reads@ == with_markers(v0, incoming@.take(i as int)),
            applied as nat == reads@.len() - v0.len(),
        decreases incoming.len() - i,
    {
        proof {
            assert(incoming@.take(i + 1).drop_last() =~= incoming@.take(i as int));
            assert(incoming@.take(i + 1).last() == incoming@[i as int]);
        }
        match incoming[i] {
            Some(x) => {
                let mut j: usize = 0;
                while j < reads.len() && !(reads[j].comic_directory_id == x.comic_directory_id
                    && reads[j].chapter_archive_id == x.chapter_archive_id)
                    invariant
                        j <= reads.len(),
                        forall|q: int| 0 <= q < j ==> !((#[trigger] reads@[q]).comic_directory_id == x.comic_directory_id
                            && reads@[q].chapter_archive_id == x.chapter_archive_id),
                    decreases reads.len() - j,
                {
                    j += 1;
                }
                if j == reads.len() {
                    proof {
                        if marked(reads@, x.comic_directory_id, x.chapter_archive_id) {
                            let q = choose|q: int| 0 <= q < reads@.len() && (#[trigger] reads@[q]).comic_directory_id == x.comic_directory_id
                                && reads@[q].chapter_archive_id == x.chapter_archive_id;
                            assert(!((reads@[q]).comic_directory_id == x.comic_directory_id
                                && reads@[q].chapter_archive_id == x.chapter_archive_id));
                        }
                    }
                    reads.push(x);
                    applied += 1;
                } else {
                    assert(reads@[j as int].comic_directory_id == x.comic_directory_id);
                }
            },
            None => {},
        }
        i += 1;
    }
    assert(incoming@.take(incoming.len() as int) =~= incoming@);
    applied
}

proof fn lemma_marker_keeps_marks(v: Seq<ChapterRead>, e: Option<ChapterRead>, c: i64, ch: i64)
    requires
        marked(v, c, ch),
    ensures
        marked(with_marker(v, e), c, ch),
{
    let i = choose|i: int| 0 <= i < v.len() && (#[trigger] v[i]).comic_directory_id == c && v[i].chapter_archive_id == ch;
    assert(with_marker(v, e)[i] == v[i]);
}

proof fn lemma_markers_mark_all(v: Seq<ChapterRead>, es: Seq<Option<ChapterRead>>)
    ensures
        forall|k: int| 0 <= k < es.len() ==> (#[trigger] es[k] matches Some(x) ==> marked(
            with_markers(v, es),
            x.comic_directory_id,
            x.chapter_archive_id,
        )),
    decreases es.len(),
{
    if es.len() > 0 {
        let p = es.drop_last();
        lemma_markers_mark_all(v, p);
        let before = with_markers(v, p);
        let after = with_markers(v, es);
        assert forall|k: int| 0 <= k < es.len() implies (#[trigger] es[k] matches Some(x) ==> marked(
            after,
            x.comic_directory_id,
            x.chapter_archive_id,
        )) by {
            if let Some(x) = es[k] {
                if k < p.len() {
                    assert(p[k] == es[k]);
                    lemma_marker_keeps_marks(before, es.last(), x.comic_directory_id, x.chapter_archive_id);
                } else {
                    assert(es[k] == es.last());
                    if !marked(before, x.comic_directory_id, x.chapter_archive_id) {
                        assert(after == before.push(x));
                        assert(after[before.len() as int] == x);
                    }
                }
            }
        }
    }
}

proof fn lemma_marked_entries_change_nothing(v: Seq<ChapterRead>, es: Seq<Option<ChapterRead>>)
    requires
        forall|k: int| 0 <= k < es.len() ==> (#[trigger] es[k] matches Some(x) ==> marked(v, x.comic_directory_id, x.chapter_archive_id)),
    ensures
        with_markers(v, es) == v,
    decreases es.len(),
{
    if es.len() > 0 {
        let p = es.drop_last();
        assert forall|k: int| 0 <= k < p.len() implies (#[trigger] p[k] matches Some(x) ==> marked(v, x.comic_directory_id, x.chapter_archive_id)) by {
            assert(p[k] == es[k]);
        }
        lemma_marked_entries_change_nothing(v, p);
        assert(es[es.len() - 1] == es.last());
    }
}

/// Read markers are a union: adding the same received markers again
/// changes nothing and writes no marker.
pub proof fn adding_markers_again_changes_nothing(v: Seq<ChapterRead>, es: Seq<Option<ChapterRead>>)
    ensures
        with_markers(with_markers(v, es), es) == with_markers(v, es),
        with_markers(with_markers(v, es), es).len() - with_markers(v, es).len() == 0,
{
    lemma_markers_mark_all(v, es);
    lemma_marked_entries_change_nothing(with_markers(v, es), es);
}

} // verus!
