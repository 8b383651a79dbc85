//! An open chapter of the reader: its pages, the current page, and a
//! least-recently-used cache of decoded pages.

use vstd::prelude::*;
use lru::LruCache;
use std::num::NonZeroUsize;
use std::collections::hash_map::RandomState;
use crate::archive::{listing_view, list_zip, page_entries, image_entries, zip_entry_contents, zip_listing, ZipReadError};
use crate::formats::{spec_image_format_of_path, spec_mime_type};
use crate::natural_sort::{naturally_sorted, sort_natural, string_views};
use crate::reader::{mime_type_for, spec_window, window_indices, ReaderError, DEFAULT_CACHE_CAPACITY};

verus! {

#[verifier::external_type_specification]
#[verifier::external_body]
#[verifier::reject_recursive_types(K)]
#[verifier::reject_recursive_types(V)]
#[verifier::reject_recursive_types(S)]
pub struct ExLruCache<K, V, S>(LruCache<K, V, S>);

/// What a page cache holds, from least to most recently used: page index,
/// MIME type and bytes.
pub uninterp spec fn cached_pages(c: LruCache<usize, (String, Vec<u8>), RandomState>) -> Seq<(usize, (Seq<char>, Seq<u8>))>;

/// How many pages a page cache keeps at most.
pub uninterp spec fn cache_capacity(c: LruCache<usize, (String, Vec<u8>), RandomState>) -> nat;

/// The page indices of cache contents, least recently used first.
pub open spec fn keys_of(p: Seq<(usize, (Seq<char>, Seq<u8>))>) -> Seq<usize> {
    Seq::new(p.len(), |i: int| p[i].0)
}

/// The position of page `k` in cache contents, if cached.
pub open spec fn key_index(p: Seq<(usize, (Seq<char>, Seq<u8>))>, k: usize) -> Option<int> {
    if exists|i: int| 0 <= i < p.len() && (#[trigger] p[i]).0 == k {
        Some(choose|i: int| 0 <= i < p.len() && (#[trigger] p[i]).0 == k)
    } else {
        None
    }
}

/// Cache contents after an entry is used again: it moves to the most
/// recent end.
pub open spec fn promoted(p: Seq<(usize, (Seq<char>, Seq<u8>))>, i: int) -> Seq<(usize, (Seq<char>, Seq<u8>))> {
    p.remove(i).push(p[i])
}

/// Cache contents after `put(k, v)` with capacity `cap`: an existing entry
/// is replaced and becomes the most recent; otherwise the entry is added as
/// the most recent, evicting the least recent one when the cache is full.
pub open spec fn after_put(
    p: Seq<(usize, (Seq<char>, Seq<u8>))>,
    cap: nat,
    k: usize,
    v: (Seq<char>, Seq<u8>),
) -> Seq<(usize, (Seq<char>, Seq<u8>))> {
    match key_index(p, k) {
        Some(i) => p.remove(i).push((k, v)),
        None => if p.len() >= cap {
            p.drop_first().push((k, v))
        } else {
            p.push((k, v))
        },
    }
}

/// `LruCache::with_hasher` with a fresh `RandomState`: an empty cache of capacity `cap` (which must not be
/// zero: `NonZeroUsize::new` is unwrapped).
#[verifier::external_body]
fn cache_new(cap: usize) -> (r: LruCache<usize, (String, Vec<u8>), RandomState>)
    requires
        cap > 0,
    ensures
        cached_pages(r) == Seq::<(usize, (Seq<char>, Seq<u8>))>::empty(),
        cache_capacity(r) == cap,
{
    LruCache::with_hasher(NonZeroUsize::new(cap).unwrap(), RandomState::new())
}

/// `LruCache::contains`: whether page `k` is cached; recency is unchanged.
#[verifier::external_body]
fn cache_contains(c: &LruCache<usize, (String, Vec<u8>), RandomState>, k: usize) -> (r: bool)
    ensures
        r == (key_index(cached_pages(*c), k) is Some),
{
    c.contains(&k)
}

/// `LruCache::get`: the cached page `k` (its value copied out), which
/// becomes the most recently used; `None` when it is not cached.
#[verifier::external_body]
fn cache_get(c: &mut LruCache<usize, (String, Vec<u8>), RandomState>, k: usize) -> (r: Option<(String, Vec<u8>)>)
    ensures
        cache_capacity(*final(c)) == cache_capacity(*old(c)),
        match key_index(cached_pages(*old(c)), k) {
            Some(i) => r matches Some(v) && (v.0@, v.1@) == cached_pages(*old(c))[i].1
                && cached_pages(*final(c)) == promoted(cached_pages(*old(c)), i),
            None => r is None && cached_pages(*final(c)) == cached_pages(*old(c)),
        },
{
    c.get(&k).cloned()
}

/// `LruCache::put`: stores page `k` as the most recently used, evicting
/// the least recently used page when the cache is full.
#[verifier::external_body]
fn cache_put(c: &mut LruCache<usize, (String, Vec<u8>), RandomState>, k: usize, v: (String, Vec<u8>))
    ensures
        cache_capacity(*final(c)) == cache_capacity(*old(c)),
        cached_pages(*final(c)) == after_put(cached_pages(*old(c)), cache_capacity(*old(c)), k, (v.0@, v.1@)),
{
    c.put(k, v);
}

/// `LruCache::iter` keys: the cached pages, most recently used first.
#[verifier::external_body]
fn cache_keys(c: &LruCache<usize, (String, Vec<u8>), RandomState>) -> (r: Vec<usize>)
    ensures
        r@ == keys_of(cached_pages(*c)).reverse(),
{
    c.iter().map(|(k, _)| *k).collect()
}

/// `LruCache::cap`.
#[verifier::external_body]
fn cache_cap(c: &LruCache<usize, (String, Vec<u8>), RandomState>) -> (r: usize)
    ensures
        r == cache_capacity(*c),
{
    c.cap().get()
}

/// `a` and `b` hold the same names, as many of each.
pub open spec fn same_names(a: Seq<Seq<char>>, b: Seq<Seq<char>>) -> bool {
    &&& a.len() == b.len()
    &&& forall|k: int| 0 <= k < a.len() ==> b.contains(#[trigger] a[k])
    &&& forall|k: int| 0 <= k < b.len() ==> a.contains(#[trigger] b[k])
}

/// The pages of a CBZ chapter held in memory.
pub struct CbzPageSource {
    data: Vec<u8>,
    entries: Vec<String>,
}

/// A page read from the archive.
#[derive(Debug, Clone, PartialEq, Eq)]
pub struct RawPage {
    pub name: String,
    pub bytes: Vec<u8>,
}

impl CbzPageSource {
    /// The archive bytes.
    pub closed spec fn data(&self) -> Seq<u8> {
        self.data@
    }

    /// The page entry names, in reading order.
    pub closed spec fn pages(&self) -> Seq<Seq<char>> {
        string_views(self.entries@)
    }

    /// A source lists the page images of its archive in natural order, and
    /// has at least one.
    pub open spec fn wf(&self) -> bool {
        &&& self.pages().len() > 0
        &&& zip_listing(self.data()) matches Some(l) && same_names(self.pages(), image_entries(l))
        &&& naturally_sorted(self.pages())
        &&& forall|k: int| 0 <= k < self.pages().len() ==> spec_image_format_of_path(#[trigger] self.pages()[k]) is Some
    }

    /// Opens the CBZ held in `data` (read from `path`): its page images in
    /// natural order; an unreadable archive and one without pages are
    /// refused.
    pub fn open(path: &str, data: Vec<u8>) -> (r: Result<Self, ReaderError>)
        ensures
            zip_listing(data@) is None ==> r matches Err(ReaderError::Archive(_)),
            zip_listing(data@) matches Some(l) ==> (image_entries(l).len() == 0 <==> (r matches Err(ReaderError::EmptyChapter(p)) && p@ == path@)),
            zip_listing(data@) matches Some(l) && image_entries(l).len() > 0 ==> r is Ok,
            r matches Ok(s) ==> s.wf() && s.data() == data@,
    {
        let listing = match list_zip(data.as_slice()) {
            Ok(l) => l,
            Err(t) => return Err(ReaderError::Archive(t)),
        };
        let ghost l = listing_view(listing@);
        let mut entries = page_entries(listing);
        let ghost before = entries@;
        sort_natural(&mut entries);
        proof {
            vstd::seq_lib::to_multiset_len(entries@);
            vstd::seq_lib::to_multiset_len(before);
            assert forall|k: int| 0 <= k < entries@.len() implies image_entries(l).contains(#[trigger] string_views(entries@)[k]) by {
                lemma_member_views(entries@, before, k);
            }
            assert forall|k: int| 0 <= k < before.len() implies string_views(entries@).contains(#[trigger] image_entries(l)[k]) by {
                assert(image_entries(l)[k] == string_views(before)[k]);
                lemma_member_views(before, entries@, k);
            }
        }
        if entries.len() == 0 {
            return Err(ReaderError::EmptyChapter(path.to_string()));
        }
        let s = CbzPageSource { data, entries };
        proof {
            assert forall|k: int| 0 <= k < s.pages().len() implies spec_image_format_of_path(#[trigger] s.pages()[k]) is Some by {
                assert(image_entries(l).contains(s.pages()[k]));
                let w = choose|w: int| 0 <= w < image_entries(l).len() && image_entries(l)[w] == s.pages()[k];
                lemma_image_entry(l, w);
            }
        }
        Ok(s)
    }

    /// The number of pages.
    pub fn page_count(&self) -> (r: usize)
        ensures
            r == self.pages().len(),
    {
        self.entries.len()
    }

    /// Reads page `index`: its entry name and bytes; an index past the last
    /// page is refused, and an entry that cannot be read is refused as
    /// missing or as an archive failure.
    pub fn read_page(&self, index: usize) -> (r: Result<RawPage, ReaderError>)
        ensures
            index >= self.pages().len() ==> r == Err::<RawPage, ReaderError>(ReaderError::PageOutOfBounds { index, total: self.pages().len() as usize }),
            index < self.pages().len() ==> match r {
                Ok(p) => p.name@ == self.pages()[index as int] && zip_entry_contents(self.data(), self.pages()[index as int]) == Some(p.bytes@),
                Err(e) => zip_entry_contents(self.data(), self.pages()[index as int]) is None
                    && ((e matches ReaderError::PageEntryMissing { index: i, name } && i == index && name@ == self.pages()[index as int]) || e is Archive),
            },
    {
        if index >= self.entries.len() {
            return Err(ReaderError::PageOutOfBounds { index, total: self.entries.len() });
        }
        let name = &self.entries[index];
        match crate::archive::zip_read(self.data.as_slice(), name.as_str()) {
            Ok(bytes) => Ok(RawPage { name: name.clone(), bytes }),
            Err(ZipReadError::NotFound) => Err(ReaderError::PageEntryMissing { index, name: name.clone() }),
            Err(ZipReadError::Other(t)) => Err(ReaderError::Archive(t)),
        }
    }
}

proof fn lemma_member_views(a: Seq<String>, b: Seq<String>, k: int)
    requires
        a.to_multiset() == b.to_multiset(),
        0 <= k < a.len(),
    ensures
        string_views(b).contains(string_views(a)[k]),
{
    vstd::seq_lib::to_multiset_contains(a, a[k]);
    vstd::seq_lib::to_multiset_contains(b, a[k]);
    let w = choose|w: int| 0 <= w < b.len() && b[w] == a[k];
    assert(string_views(b)[w] == string_views(a)[k]);
}

proof fn lemma_image_entry(listing: Seq<(Seq<char>, bool)>, w: int)
    requires
        0 <= w < image_entries(listing).len(),
    ensures
        spec_image_format_of_path(image_entries(listing)[w]) is Some,
{
    broadcast use vstd::seq_lib::group_filter_ensures;
    let f = listing.filter(|e: (Seq<char>, bool)| e.1 && spec_image_format_of_path(e.0) is Some);
    assert(image_entries(listing)[w] == f[w].0);
}

/// The chapter a session reads.
#[derive(Debug, Clone, PartialEq, Eq)]
pub struct ReaderChapter {
    pub id: String,
    pub path: String,
}

/// What a page shows: its MIME type (by its name) and its bytes.
pub open spec fn page_content(s: CbzPageSource, k: int) -> (Seq<char>, Seq<u8>) {
    (
        spec_mime_type(spec_image_format_of_path(s.pages()[k]).unwrap()),
        zip_entry_contents(s.data(), s.pages()[k]).unwrap(),
    )
}

/// Cache contents for source `s`: at most `cap` distinct pages of the
/// chapter, each holding exactly what that page shows.
pub open spec fn cache_ok(p: Seq<(usize, (Seq<char>, Seq<u8>))>, s: CbzPageSource, cap: nat) -> bool {
    &&& p.len() <= cap
    &&& forall|i: int| 0 <= i < p.len() ==> (#[trigger] p[i]).0 < s.pages().len()
        && zip_entry_contents(s.data(), s.pages()[p[i].0 as int]) is Some
        && p[i].1 == page_content(s, p[i].0 as int)
    &&& forall|i: int, j: int| 0 <= i < p.len() && 0 <= j < p.len() && i != j ==> (#[trigger] p[i]).0 != (#[trigger] p[j]).0
}

proof fn lemma_key_index(p: Seq<(usize, (Seq<char>, Seq<u8>))>, k: usize)
    ensures
        key_index(p, k) matches Some(i) ==> 0 <= i < p.len() && p[i].0 == k,
        key_index(p, k) is None ==> forall|i: int| 0 <= i < p.len() ==> (#[trigger] p[i]).0 != k,
{
}

proof fn lemma_promote_ok(p: Seq<(usize, (Seq<char>, Seq<u8>))>, s: CbzPageSource, cap: nat, i: int)
    requires
        cache_ok(p, s, cap),
        0 <= i < p.len(),
    ensures
        cache_ok(promoted(p, i), s, cap),
        key_index(promoted(p, i), p[i].0) is Some,
{
    let q = promoted(p, i);
    assert(q.len() == p.len());
    assert forall|a: int| 0 <= a < q.len() implies exists|b: int| 0 <= b < p.len() && (#[trigger] q[a]) == p[b] && (a < q.len() - 1 ==> b == (if a < i { a } else { a + 1 })) && (a == q.len() - 1 ==> b == i) by {
        if a == q.len() - 1 {
            assert(q[a] == p[i]);
        } else if a < i {
            assert(q[a] == p[a]);
        } else {
            assert(q[a] == p[a + 1]);
        }
    }
    assert(q[q.len() - 1] == p[i]);
    assert forall|a: int, c: int| 0 <= a < q.len() && 0 <= c < q.len() && a != c implies (#[trigger] q[a]).0 != (#[trigger] q[c]).0 by {
        let ba = if a == q.len() - 1 { i } else if a < i { a } else { a + 1 };
        let bc = if c == q.len() - 1 { i } else if c < i { c } else { c + 1 };
        assert(q[a] == p[ba]);
        assert(q[c] == p[bc]);
    }
}

proof fn lemma_put_new_ok(p: Seq<(usize, (Seq<char>, Seq<u8>))>, s: CbzPageSource, cap: nat, k: usize, v: (Seq<char>, Seq<u8>))
    requires
        cache_ok(p, s, cap),
        cap > 0,
        key_index(p, k) is None,
        k < s.pages().len(),
        zip_entry_contents(s.data(), s.pages()[k as int]) is Some,
        v == page_content(s, k as int),
    ensures
        cache_ok(after_put(p, cap, k, v), s, cap),
        key_index(after_put(p, cap, k, v), k) is Some,
{
    lemma_key_index(p, k);
    let q = after_put(p, cap, k, v);
    if p.len() >= cap {
        let d = p.drop_first();
        assert(q == d.push((k, v)));
        assert forall|a: int, c: int| 0 <= a < q.len() && 0 <= c < q.len() && a != c implies (#[trigger] q[a]).0 != (#[trigger] q[c]).0 by {
            if a < d.len() {
                assert(q[a] == p[a + 1]);
            }
            if c < d.len() {
                assert(q[c] == p[c + 1]);
            }
        }
        assert forall|a: int| 0 <= a < q.len() implies (#[trigger] q[a]).0 < s.pages().len()
            && zip_entry_contents(s.data(), s.pages()[q[a].0 as int]) is Some
            && q[a].1 == page_content(s, q[a].0 as int) by {
            if a < d.len() {
                assert(q[a] == p[a + 1]);
            }
        }
        assert(q[q.len() - 1].0 == k);
    } else {
        assert(q == p.push((k, v)));
        assert forall|a: int, c: int| 0 <= a < q.len() && 0 <= c < q.len() && a != c implies (#[trigger] q[a]).0 != (#[trigger] q[c]).0 by {
            if a < p.len() {
                assert(q[a] == p[a]);
            }
            if c < p.len() {
                assert(q[c] == p[c]);
            }
        }
        assert forall|a: int| 0 <= a < q.len() implies (#[trigger] q[a]).0 < s.pages().len()
            && zip_entry_contents(s.data(), s.pages()[q[a].0 as int]) is Some
            && q[a].1 == page_content(s, q[a].0 as int) by {
            if a < p.len() {
                assert(q[a] == p[a]);
            }
        }
        assert(q[q.len() - 1].0 == k);
    }
}

/// A page as the reader serves it.
#[derive(Debug, Clone, PartialEq, Eq)]
pub struct ReaderPagePayload {
    pub chapter_id: String,
    pub index: usize,
    pub total: usize,
    pub mime_type: String,
    pub bytes: Vec<u8>,
    pub cache_hit: bool,
}

/// The state of an open session.
#[derive(Debug, Clone, PartialEq, Eq)]
pub struct ReaderSessionPayload {
    pub chapter: ReaderChapter,
    pub page_count: usize,
    pub current_page: usize,
    pub cache_capacity: usize,
}

/// The reader's status while a chapter is open.
#[derive(Debug, Clone, PartialEq, Eq)]
pub struct ReaderStatusPayload {
    pub is_open: bool,
    pub chapter_id: Option<String>,
    pub page_count: usize,
    pub current_page: Option<usize>,
    pub cache_keys: Vec<usize>,
    pub cache_capacity: usize,
}

/// An open chapter: its pages, the current page and a cache of read pages.
pub struct ReaderSession {
    chapter: ReaderChapter,
    source: CbzPageSource,
    cache: LruCache<usize, (String, Vec<u8>), RandomState>,
    current_page: usize,
}

/// Cache contents after page `index` of `s` is used by a load: a cached
/// page becomes the most recent; otherwise it is read and put in.
pub open spec fn after_load(
    p: Seq<(usize, (Seq<char>, Seq<u8>))>,
    s: CbzPageSource,
    index: usize,
) -> Seq<(usize, (Seq<char>, Seq<u8>))> {
    match key_index(p, index) {
        Some(i) => promoted(p, i),
        None => after_put(p, DEFAULT_CACHE_CAPACITY as nat, index, page_content(s, index as int)),
    }
}

/// Cache contents after making sure page `index` of `s` is cached: left as
/// they are when it already is (its recency unchanged), else the page is
/// read and put in.
pub open spec fn after_ensure(
    p: Seq<(usize, (Seq<char>, Seq<u8>))>,
    s: CbzPageSource,
    index: usize,
) -> Seq<(usize, (Seq<char>, Seq<u8>))> {
    if key_index(p, index) is Some {
        p
    } else {
        after_put(p, DEFAULT_CACHE_CAPACITY as nat, index, page_content(s, index as int))
    }
}

/// Cache contents after the pages `w` are made sure of, in order.
pub open spec fn after_prefetch(
    p: Seq<(usize, (Seq<char>, Seq<u8>))>,
    s: CbzPageSource,
    w: Seq<usize>,
) -> Seq<(usize, (Seq<char>, Seq<u8>))>
    decreases w.len(),
{
    if w.len() == 0 {
        p
    } else {
        after_ensure(after_prefetch(p, s, w.drop_last()), s, w.last())
    }
}

/// Page `index` of `s` can be read from its archive.
pub open spec fn page_readable(s: CbzPageSource, index: usize) -> bool {
    zip_entry_contents(s.data(), s.pages()[index as int]) is Some
}

impl ReaderSession {
    /// The chapter's pages.
    pub closed spec fn source(&self) -> CbzPageSource {
        self.source
    }

    /// The cached pages, least recently used first.
    pub closed spec fn cached(&self) -> Seq<(usize, (Seq<char>, Seq<u8>))> {
        cached_pages(self.cache)
    }

    /// The current page.
    pub closed spec fn current(&self) -> usize {
        self.current_page
    }

    /// The chapter read.
    pub closed spec fn chapter(&self) -> ReaderChapter {
        self.chapter
    }

    /// A session reads a well-formed source, keeps at most the default
    /// number of pages cached, each with exactly what that page shows, and
    /// its current page is a page of the chapter.
    pub closed spec fn wf(&self) -> bool {
        &&& self.source.wf()
        &&& cache_capacity(self.cache) == DEFAULT_CACHE_CAPACITY
        &&& cache_ok(cached_pages(self.cache), self.source, DEFAULT_CACHE_CAPACITY as nat)
        &&& self.current_page < self.source.pages().len()
    }

    /// Opens a CBZ chapter whose archive bytes are `data`: page 0 is
    /// current and nothing is cached.
    pub fn open(chapter: ReaderChapter, data: Vec<u8>) -> (r: Result<Self, ReaderError>)
        ensures
            zip_listing(data@) is None ==> r matches Err(ReaderError::Archive(_)),
            zip_listing(data@) matches Some(l) ==> (image_entries(l).len() == 0 <==> (r matches Err(ReaderError::EmptyChapter(p)) && p@ == chapter.path@)),
            zip_listing(data@) matches Some(l) && image_entries(l).len() > 0 ==> r is Ok,
            r matches Ok(s) ==> s.wf() && s.current() == 0 && s.cached().len() == 0 && s.source().data() == data@
                && s.chapter() == chapter,
    {
        let source = CbzPageSource::open(chapter.path.as_str(), data)?;
        let cache = cache_new(DEFAULT_CACHE_CAPACITY);
        Ok(ReaderSession { chapter, source, cache, current_page: 0 })
    }

    /// The number of pages.
    pub fn total_pages(&self) -> (r: usize)
        ensures
            r == self.source().pages().len(),
    {
        self.source.page_count()
    }

    /// Refuses an index past the last page.
    pub fn ensure_index(&self, index: usize) -> (r: Result<(), ReaderError>)
        ensures
            index < self.source().pages().len() ==> r is Ok,
            index >= self.source().pages().len() ==> r == Err::<(), ReaderError>(ReaderError::PageOutOfBounds { index, total: self.source().pages().len() as usize }),
    {
        crate::reader::ensure_index(index, self.total_pages())
    }

    /// Makes `index` the current page (marking it used if it is cached).
    pub fn set_current_page(&mut self, index: usize) -> (r: Result<(), ReaderError>)
        requires
            old(self).wf(),
        ensures
            final(self).wf(),
            final(self).source() == old(self).source(),
            index >= old(self).source().pages().len() ==> r == Err::<(), ReaderError>(ReaderError::PageOutOfBounds { index, total: old(self).source().pages().len() as usize })
                && final(self).current() == old(self).current() && final(self).cached() == old(self).cached(),
            index < old(self).source().pages().len() ==> r is Ok && final(self).current() == index
                && match key_index(old(self).cached(), index) {
                    Some(i) => final(self).cached() == promoted(old(self).cached(), i),
                    None => final(self).cached() == old(self).cached(),
                },
    {
        self.ensure_index(index)?;
        self.current_page = index;
        if cache_contains(&self.cache, index) {
            let ghost before = cached_pages(self.cache);
            let _ = cache_get(&mut self.cache, index);
            proof {
                lemma_key_index(before, index);
                lemma_promote_ok(before, self.source, DEFAULT_CACHE_CAPACITY as nat, key_index(before, index).unwrap());
            }
        }
        Ok(())
    }

    /// Reads page `index` from the archive, as the cache stores it.
    fn read_page(&self, index: usize) -> (r: Result<(String, Vec<u8>), ReaderError>)
        requires
            self.wf(),
            index < self.source().pages().len(),
        ensures
            r matches Ok(v) ==> zip_entry_contents(self.source().data(), self.source().pages()[index as int]) is Some
                && (v.0@, v.1@) == page_content(self.source(), index as int),
            zip_entry_contents(self.source().data(), self.source().pages()[index as int]) is None ==> r is Err,
            zip_entry_contents(self.source().data(), self.source().pages()[index as int]) is Some ==> r is Ok,
            r matches Err(e) ==> (e matches ReaderError::PageEntryMissing { index: i, name } && i == index
                && name@ == self.source().pages()[index as int]) || e is Archive,
    {
        assert(spec_image_format_of_path(self.source().pages()[index as int]) is Some);
        let raw = self.source.read_page(index)?;
        let mime = mime_type_for(raw.name.as_str())?;
        Ok((mime, raw.bytes))
    }

    /// Page `index` from the cache, or read and cached; says whether it
    /// came from the cache.
    fn cached_page(&mut self, index: usize) -> (r: Result<(String, Vec<u8>, bool), ReaderError>)
        requires
            old(self).wf(),
            index < old(self).source().pages().len(),
        ensures
            final(self).wf(),
            final(self).source() == old(self).source(),
            final(self).current() == old(self).current(),
            final(self).chapter() == old(self).chapter(),
            r matches Ok(v) ==> (v.0@, v.1@) == page_content(old(self).source(), index as int)
                && v.2 == (key_index(old(self).cached(), index) is Some),
            key_index(old(self).cached(), index) is Some ==> r is Ok,
            page_readable(old(self).source(), index) ==> r is Ok,
            r is Ok ==> key_index(final(self).cached(), index) is Some,
            r is Ok ==> final(self).cached() == after_load(old(self).cached(), old(self).source(), index),
            r is Err ==> final(self).cached() == old(self).cached(),
    {
        let ghost before = cached_pages(self.cache);
        proof {
            lemma_key_index(before, index);
        }
        match cache_get(&mut self.cache, index) {
            Some((m, b)) => {
                proof {
                    lemma_promote_ok(before, self.source, DEFAULT_CACHE_CAPACITY as nat, key_index(before, index).unwrap());
                }
                Ok((m, b, true))
            },
            None => {
                let (m, b) = self.read_page(index)?;
                let ghost v = (m@, b@);
                cache_put(&mut self.cache, index, (m.clone(), b.clone()));
                proof {
                    lemma_put_new_ok(before, self.source, DEFAULT_CACHE_CAPACITY as nat, index, v);
                }
                Ok((m, b, false))
            },
        }
    }

    /// Loads page `index` (making it current when asked): what the page
    /// shows, whether it came from the cache or was read now.
    pub fn load_page(&mut self, index: usize, set_current: bool) -> (r: Result<ReaderPagePayload, ReaderError>)
        requires
            old(self).wf(),
        ensures
            final(self).wf(),
            final(self).source() == old(self).source(),
            index >= old(self).source().pages().len() ==> r == Err::<ReaderPagePayload, ReaderError>(ReaderError::PageOutOfBounds { index, total: old(self).source().pages().len() as usize }),
            r matches Ok(p) ==> p.index == index && p.total == old(self).source().pages().len()
                && (p.mime_type@, p.bytes@) == page_content(old(self).source(), index as int)
                && p.cache_hit == (key_index(old(self).cached(), index) is Some)
                && p.chapter_id@ == old(self).chapter().id@
                && final(self).current() == (if set_current { index } else { old(self).current() }),
            index >= old(self).source().pages().len() ==> final(self).cached() == old(self).cached()
                && final(self).current() == old(self).current(),
            index < old(self).source().pages().len() && key_index(old(self).cached(), index) is Some ==> r is Ok,
            index < old(self).source().pages().len() && page_readable(old(self).source(), index) ==> r is Ok,
            index < old(self).source().pages().len() ==> final(self).current() == (if set_current {
                index
            } else {
                old(self).current()
            }),
            r is Ok ==> key_index(final(self).cached(), index) is Some,
            r is Ok ==> final(self).cached() == after_load(old(self).cached(), old(self).source(), index),
            r is Err ==> final(self).cached() == old(self).cached(),
    {
        self.ensure_index(index)?;
        if set_current {
            self.current_page = index;
        }
        let (mime_type, bytes, cache_hit) = self.cached_page(index)?;
        Ok(ReaderPagePayload {
            chapter_id: self.chapter.id.clone(),
            index,
            total: self.total_pages(),
            mime_type,
            bytes,
            cache_hit,
        })
    }

    /// Makes sure page `index` is cached.
    fn ensure_cached(&mut self, index: usize) -> (r: Result<(), ReaderError>)
        requires
            old(self).wf(),
            index < old(self).source().pages().len(),
        ensures
            final(self).wf(),
            final(self).source() == old(self).source(),
            final(self).current() == old(self).current(),
            final(self).chapter() == old(self).chapter(),
            key_index(old(self).cached(), index) is Some ==> r is Ok && final(self).cached() == old(self).cached(),
            r is Ok <==> (key_index(old(self).cached(), index) is Some || page_readable(old(self).source(), index)),
            r is Ok ==> key_index(final(self).cached(), index) is Some,
            r is Ok ==> final(self).cached() == after_ensure(old(self).cached(), old(self).source(), index),
            r is Err ==> final(self).cached() == old(self).cached(),
    {
        if cache_contains(&self.cache, index) {
            return Ok(());
        }
        let ghost before = cached_pages(self.cache);
        let (m, b) = self.read_page(index)?;
        let ghost v = (m@, b@);
        cache_put(&mut self.cache, index, (m, b));
        proof {
            lemma_put_new_ok(before, self.source, DEFAULT_CACHE_CAPACITY as nat, index, v);
        }
        Ok(())
    }

    /// Caches the pages within `radius` of `center`, in order; stops at the
    /// first page that cannot be read.
    pub fn prefetch_window(&mut self, center: usize, radius: usize) -> (r: Result<(), ReaderError>)
        requires
            old(self).wf(),
        ensures
            final(self).wf(),
            final(self).source() == old(self).source(),
            final(self).current() == old(self).current(),
            center >= old(self).source().pages().len() ==> r == Err::<(), ReaderError>(ReaderError::PageOutOfBounds { index: center, total: old(self).source().pages().len() as usize })
                && final(self).cached() == old(self).cached(),
            r is Ok ==> center < old(self).source().pages().len() && final(self).cached() == after_prefetch(
                old(self).cached(),
                old(self).source(),
                spec_window(center, old(self).source().pages().len() as usize, radius),
            ),
            center < old(self).source().pages().len() && (forall|k: int|
                0 <= k < spec_window(center, old(self).source().pages().len() as usize, radius).len()
                    ==> page_readable(old(self).source(), #[trigger] spec_window(center, old(self).source().pages().len() as usize, radius)[k]))
                ==> r is Ok,
            r is Err && center < old(self).source().pages().len() ==> exists|i: int|
                0 <= i < spec_window(center, old(self).source().pages().len() as usize, radius).len()
                && !page_readable(old(self).source(), #[trigger] spec_window(center, old(self).source().pages().len() as usize, radius)[i])
                && final(self).cached() == after_prefetch(
                    old(self).cached(),
                    old(self).source(),
                    spec_window(center, old(self).source().pages().len() as usize, radius).take(i),
                ),
    {
        self.ensure_index(center)?;
        let total = self.total_pages();
        let window = window_indices(center, total, radius);
        let ghost c0 = self.cached();
        let ghost s0 = self.source();
        assert(window@.take(0) =~= Seq::<usize>::empty());
        let mut i: usize = 0;
        while i < window.len()
            invariant
                self.wf(),
                self.source() == s0,
                self.current() == old(self).current(),
                s0 == old(self).source(),
                c0 == old(self).cached(),
                total == self.source().pages().len(),
                window@ == spec_window(center, total, radius),
                i <= window.len(),
                center < total,
                self.cached() == after_prefetch(c0, s0, window@.take(i as int)),
            decreases window.len() - i,
        {
            let index = window[i];
            proof {
                crate::reader::lemma_window_in_range(center, total, radius);
                assert(window@.take(i + 1).drop_last() =~= window@.take(i as int));
                assert(window@.take(i + 1).last() == index);
            }
            match self.ensure_cached(index) {
                Ok(()) => {},
                Err(e) => {
                    proof {
                        assert(!page_readable(s0, window@[i as int]));
                    }
                    return Err(e);
                },
            }
            i += 1;
        }
        assert(window@.take(window.len() as int) =~= window@);
        Ok(())
    }

    /// The state of the session.
    pub fn session_payload(&self) -> (r: ReaderSessionPayload)
        requires
            self.wf(),
        ensures
            r.chapter.id@ == self.chapter().id@,
            r.chapter.path@ == self.chapter().path@,
            r.page_count == self.source().pages().len(),
            r.current_page == self.current(),
            r.cache_capacity == DEFAULT_CACHE_CAPACITY,
    {
        ReaderSessionPayload {
            chapter: ReaderChapter { id: self.chapter.id.clone(), path: self.chapter.path.clone() },
            page_count: self.total_pages(),
            current_page: self.current_page,
            cache_capacity: cache_cap(&self.cache),
        }
    }

    /// The reader's status: open, with the cached pages most recently used
    /// first.
    pub fn status_payload(&self) -> (r: ReaderStatusPayload)
        requires
            self.wf(),
        ensures
            r.is_open,
            r.chapter_id matches Some(id) && id@ == self.chapter().id@,
            r.page_count == self.source().pages().len(),
            r.current_page == Some(self.current()),
            r.cache_keys@ == keys_of(self.cached()).reverse(),
            r.cache_capacity == DEFAULT_CACHE_CAPACITY,
    {
        ReaderStatusPayload {
            is_open: true,
            chapter_id: Some(self.chapter.id.clone()),
            page_count: self.total_pages(),
            current_page: Some(self.current_page),
            cache_keys: cache_keys(&self.cache),
            cache_capacity: cache_cap(&self.cache),
        }
    }
}

} // verus!
