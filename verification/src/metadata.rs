//! Matching a comic to the results of an online catalogue search, and the
//! metadata taken from the chosen result.

use vstd::prelude::*;
use crate::file_sync::{spec_trim, trim_chars};
use crate::text::{chars_of, contains_seq, contains_str, str_eq, string_of};
use crate::natural_sort::string_views;

verus! {

/// `char::is_alphanumeric`: whether `c` is alphabetic or numeric in
/// Unicode.
pub uninterp spec fn unicode_alphanumeric(c: char) -> bool;

/// `str::to_lowercase`: the Unicode lower-case mapping of `s`.
pub uninterp spec fn unicode_lowercase(s: Seq<char>) -> Seq<char>;

/// `char::is_alphanumeric`. The contract names the result, a fixed
/// property of the character.
#[verifier::external_body]
fn is_alphanumeric(c: char) -> (r: bool)
    ensures
        r == unicode_alphanumeric(c),
{
    c.is_alphanumeric()
}

/// `str::to_lowercase`. The contract names the result, which depends on
/// the characters alone (the mapping does not depend on a locale).
#[verifier::external_body]
pub(crate) fn to_lowercase(s: &str) -> (r: String)
    ensures
        r@ == unicode_lowercase(s@),
{
    s.to_lowercase()
}

/// The name a title is compared by: its alphanumeric characters, in order,
/// lower-cased.
pub open spec fn normalized(name: Seq<char>) -> Seq<char> {
    unicode_lowercase(name.filter(|c: char| unicode_alphanumeric(c)))
}

/// The name a title is compared by.
pub fn normalize_name(name: &str) -> (r: String)
    ensures
        r@ == normalized(name@),
{
    let c = chars_of(name);
    let mut kept: Vec<char> = Vec::new();
    let mut i: usize = 0;
    while i < c.len()
        invariant
            i <= c.len(),
            kept@ == c@.take(i as int).filter(|x: char| unicode_alphanumeric(x)),
        decreases c.len() - i,
    {
        proof {
            assert(c@.take(i + 1).drop_last() =~= c@.take(i as int));
            reveal(Seq::filter);
        }
        if is_alphanumeric(c[i]) {
            kept.push(c[i]);
        }
        i += 1;
    }
    assert(c@.take(c.len() as int) =~= c@);
    let s = string_of(&kept);
    to_lowercase(s.as_str())
}

/// Whether any of `texts` has the normalized name `target`.
pub open spec fn any_matches(texts: Seq<Seq<char>>, target: Seq<char>) -> bool {
    exists|j: int| 0 <= j < texts.len() && normalized(#[trigger] texts[j]) == target
}

fn any_matches_exec(texts: &Vec<String>, target: &str) -> (r: bool)
    ensures
        r == any_matches(string_views(texts@), target@),
{
    let ghost tv = string_views(texts@);
    let mut j: usize = 0;
    while j < texts.len()
        invariant
            j <= texts.len(),
            tv == string_views(texts@),
            forall|k: int| 0 <= k < j ==> normalized(#[trigger] tv[k]) != target@,
        decreases texts.len() - j,
    {
        let n = normalize_name(texts[j].as_str());
        if str_eq(n.as_str(), target) {
            assert(normalized(tv[j as int]) == target@);
            return true;
        }
        j += 1;
    }
    false
}

/// A catalogue search result, reduced to the titles it is matched by.
#[derive(Debug, Clone, PartialEq, Eq)]
pub struct TitleCandidate {
    /// The titles of the result (every language).
    pub titles: Vec<String>,
    /// Its alternative titles (every language of every entry).
    pub alt_titles: Vec<String>,
}

/// The first position holding `true`, if any.
pub open spec fn first_true(flags: Seq<bool>) -> Option<int> {
    if exists|i: int| 0 <= i < flags.len() && #[trigger] flags[i] {
        Some(choose|i: int| 0 <= i < flags.len() && #[trigger] flags[i] && forall|j: int| 0 <= j < i ==> !#[trigger] flags[j])
    } else {
        None
    }
}

proof fn lemma_first_true(flags: Seq<bool>, w: int)
    requires
        0 <= w < flags.len(),
        flags[w],
        forall|j: int| 0 <= j < w ==> !#[trigger] flags[j],
    ensures
        first_true(flags) == Some(w),
{
    let c = choose|i: int| 0 <= i < flags.len() && #[trigger] flags[i] && forall|j: int| 0 <= j < i ==> !#[trigger] flags[j];
    if c < w {
        assert(!flags[c]);
    } else if c > w {
        assert(!flags[w]);
    }
}

/// Which candidates match `target` by title.
pub open spec fn title_flags(candidates: Seq<TitleCandidate>, target: Seq<char>) -> Seq<bool> {
    Seq::new(candidates.len(), |i: int| any_matches(string_views(candidates[i].titles@), target))
}

/// Which candidates match `target` by alternative title.
pub open spec fn alt_flags(candidates: Seq<TitleCandidate>, target: Seq<char>) -> Seq<bool> {
    Seq::new(candidates.len(), |i: int| any_matches(string_views(candidates[i].alt_titles@), target))
}

/// Which result a search for `title` picks: the first whose title matches
/// the normalized title, else the first whose alternative title does, else
/// the first result; `None` when there are no results.
pub open spec fn picked_result(candidates: Seq<TitleCandidate>, title: Seq<char>) -> Option<int> {
    let target = normalized(title);
    match first_true(title_flags(candidates, target)) {
        Some(i) => Some(i),
        None => match first_true(alt_flags(candidates, target)) {
            Some(i) => Some(i),
            None => if candidates.len() > 0 {
                Some(0)
            } else {
                None
            },
        },
    }
}

/// Picks the search result for `title` (the index among `candidates`).
pub fn pick_result(candidates: &Vec<TitleCandidate>, title: &str) -> (r: Option<usize>)
    ensures
        match r {
            Some(i) => picked_result(candidates@, title@) == Some(i as int),
            None => picked_result(candidates@, title@) is None,
        },
{
    let target = normalize_name(title);
    let ghost tf = title_flags(candidates@, target@);
    let ghost af = alt_flags(candidates@, target@);
    let mut i: usize = 0;
    while i < candidates.len()
        invariant
            i <= candidates.len(),
            target@ == normalized(title@),
            tf == title_flags(candidates@, target@),
            forall|j: int| 0 <= j < i ==> !#[trigger] tf[j],
        decreases candidates.len() - i,
    {
        if any_matches_exec(&candidates[i].titles, target.as_str()) {
            proof {
                lemma_first_true(tf, i as int);
            }
            return Some(i);
        }
        i += 1;
    }
    assert(first_true(tf) is None);
    let mut k: usize = 0;
    while k < candidates.len()
        invariant
            k <= candidates.len(),
            target@ == normalized(title@),
            tf == title_flags(candidates@, target@),
            af == alt_flags(candidates@, target@),
            first_true(tf) is None,
            forall|j: int| 0 <= j < k ==> !#[trigger] af[j],
        decreases candidates.len() - k,
    {
        if any_matches_exec(&candidates[k].alt_titles, target.as_str()) {
            proof {
                lemma_first_true(af, k as int);
            }
            return Some(k);
        }
        k += 1;
    }
    assert(first_true(af) is None);
    if candidates.len() > 0 {
        Some(0)
    } else {
        None
    }
}

/// Law: the result picked for `title` is the first whose titles include
/// one (any one of them) equal to `title` once both are normalized; when
/// no result matches by title, the first whose alternative titles include
/// such a one; when none matches either way, the first result (none when
/// there are no results).
pub proof fn picked_result_is_first_match(candidates: Seq<TitleCandidate>, title: Seq<char>)
    ensures
        forall|i: int|
            0 <= i < candidates.len() && (exists|j: int| 0 <= j < candidates[i].titles.len()
                && normalized((#[trigger] candidates[i].titles@[j])@) == normalized(title))
                && (forall|a: int, j: int| 0 <= a < i && 0 <= j < candidates[a].titles.len()
                    ==> normalized((#[trigger] candidates[a].titles@[j])@) != normalized(title))
                ==> picked_result(candidates, title) == Some(i),
        forall|i: int|
            0 <= i < candidates.len() && (forall|a: int, j: int| 0 <= a < candidates.len() && 0 <= j < candidates[a].titles.len()
                ==> normalized((#[trigger] candidates[a].titles@[j])@) != normalized(title))
                && (exists|j: int| 0 <= j < candidates[i].alt_titles.len()
                && normalized((#[trigger] candidates[i].alt_titles@[j])@) == normalized(title))
                && (forall|a: int, j: int| 0 <= a < i && 0 <= j < candidates[a].alt_titles.len()
                    ==> normalized((#[trigger] candidates[a].alt_titles@[j])@) != normalized(title))
                ==> picked_result(candidates, title) == Some(i),
        (forall|a: int, j: int| 0 <= a < candidates.len() && 0 <= j < candidates[a].titles.len()
            ==> normalized((#[trigger] candidates[a].titles@[j])@) != normalized(title))
            && (forall|a: int, j: int| 0 <= a < candidates.len() && 0 <= j < candidates[a].alt_titles.len()
            ==> normalized((#[trigger] candidates[a].alt_titles@[j])@) != normalized(title))
            ==> picked_result(candidates, title) == (if candidates.len() > 0 { Some(0int) } else { None }),
{
    let target = normalized(title);
    let tf = title_flags(candidates, target);
    let af = alt_flags(candidates, target);
    assert forall|a: int| 0 <= a < candidates.len() implies (#[trigger] tf[a]) == (exists|j: int|
        0 <= j < candidates[a].titles.len() && normalized((#[trigger] candidates[a].titles@[j])@) == target) by {
        let v = string_views(candidates[a].titles@);
        if tf[a] {
            let j = choose|j: int| 0 <= j < v.len() && normalized(#[trigger] v[j]) == target;
            assert(v[j] == candidates[a].titles@[j]@);
        }
        if exists|j: int| 0 <= j < candidates[a].titles.len() && normalized((#[trigger] candidates[a].titles@[j])@) == target {
            let j = choose|j: int| 0 <= j < candidates[a].titles.len() && normalized((#[trigger] candidates[a].titles@[j])@) == target;
            assert(v[j] == candidates[a].titles@[j]@);
        }
    }
    assert forall|a: int| 0 <= a < candidates.len() implies (#[trigger] af[a]) == (exists|j: int|
        0 <= j < candidates[a].alt_titles.len() && normalized((#[trigger] candidates[a].alt_titles@[j])@) == target) by {
        let v = string_views(candidates[a].alt_titles@);
        if af[a] {
            let j = choose|j: int| 0 <= j < v.len() && normalized(#[trigger] v[j]) == target;
            assert(v[j] == candidates[a].alt_titles@[j]@);
        }
        if exists|j: int| 0 <= j < candidates[a].alt_titles.len() && normalized((#[trigger] candidates[a].alt_titles@[j])@) == target {
            let j = choose|j: int| 0 <= j < candidates[a].alt_titles.len() && normalized((#[trigger] candidates[a].alt_titles@[j])@) == target;
            assert(v[j] == candidates[a].alt_titles@[j]@);
        }
    }
    assert forall|i: int|
        0 <= i < candidates.len() && (exists|j: int| 0 <= j < candidates[i].titles.len()
            && normalized((#[trigger] candidates[i].titles@[j])@) == normalized(title))
            && (forall|a: int, j: int| 0 <= a < i && 0 <= j < candidates[a].titles.len()
                ==> normalized((#[trigger] candidates[a].titles@[j])@) != normalized(title))
        implies picked_result(candidates, title) == Some(i) by {
        assert(tf[i]);
        assert forall|a: int| 0 <= a < i implies !#[trigger] tf[a] by {
            assert(tf[a] == (exists|j: int| 0 <= j < candidates[a].titles.len() && normalized((#[trigger] candidates[a].titles@[j])@) == target));
        }
        lemma_first_true(tf, i);
    }
    if forall|a: int, j: int| 0 <= a < candidates.len() && 0 <= j < candidates[a].titles.len()
        ==> normalized((#[trigger] candidates[a].titles@[j])@) != normalized(title) {
        assert forall|a: int| 0 <= a < tf.len() implies !#[trigger] tf[a] by {
            assert(tf[a] == (exists|j: int| 0 <= j < candidates[a].titles.len() && normalized((#[trigger] candidates[a].titles@[j])@) == target));
        }
        assert(first_true(tf) is None);
        assert forall|i: int|
            0 <= i < candidates.len() && (exists|j: int| 0 <= j < candidates[i].alt_titles.len()
                && normalized((#[trigger] candidates[i].alt_titles@[j])@) == normalized(title))
                && (forall|a: int, j: int| 0 <= a < i && 0 <= j < candidates[a].alt_titles.len()
                    ==> normalized((#[trigger] candidates[a].alt_titles@[j])@) != normalized(title))
            implies picked_result(candidates, title) == Some(i) by {
            assert(af[i]);
            assert forall|a: int| 0 <= a < i implies !#[trigger] af[a] by {
                assert(af[a] == (exists|j: int| 0 <= j < candidates[a].alt_titles.len() && normalized((#[trigger] candidates[a].alt_titles@[j])@) == target));
            }
            lemma_first_true(af, i);
        }
        if forall|a: int, j: int| 0 <= a < candidates.len() && 0 <= j < candidates[a].alt_titles.len()
            ==> normalized((#[trigger] candidates[a].alt_titles@[j])@) != normalized(title) {
            assert forall|a: int| 0 <= a < af.len() implies !#[trigger] af[a] by {
                assert(af[a] == (exists|j: int| 0 <= j < candidates[a].alt_titles.len() && normalized((#[trigger] candidates[a].alt_titles@[j])@) == target));
            }
            assert(first_true(af) is None);
        }
    }
}

/// Which AniList result a search for `title` picks: the first with a
/// matching preferred, English or romaji title, else the first result.
pub fn pick_anilist_media(media: &Vec<AnilistMedia>, title: &str) -> (r: Option<usize>)
    ensures
        media.len() == 0 <==> r is None,
        r matches Some(i) ==> i < media.len(),
        r matches Some(i) ==> (any_matches(string_views(anilist_titles(media@[i as int].title)), normalized(title@))
            || (i == 0 && forall|j: int| 0 <= j < media.len() ==> !#[trigger] any_matches(
            string_views(anilist_titles(media@[j].title)),
            normalized(title@),
        ))),
        r matches Some(i) ==> forall|j: int| 0 <= j < i ==> !#[trigger] any_matches(
            string_views(anilist_titles(media@[j].title)),
            normalized(title@),
        ),
{
    let target = normalize_name(title);
    let mut i: usize = 0;
    while i < media.len()
        invariant
            i <= media.len(),
            target@ == normalized(title@),
            forall|j: int| 0 <= j < i ==> !#[trigger] any_matches(string_views(anilist_titles(media@[j].title)), target@),
        decreases media.len() - i,
    {
        let titles = anilist_title_list(&media[i].title);
        assert(string_views(titles@) == string_views(anilist_titles(media@[i as int].title)));
        if any_matches_exec(&titles, target.as_str()) {
            return Some(i);
        }
        i += 1;
    }
    if media.len() > 0 {
        Some(0)
    } else {
        None
    }
}

/// The titles of an AniList entry that are present, in the order
/// preferred, English, romaji.
pub open spec fn anilist_titles(t: AnilistTitle) -> Seq<String> {
    let a = match t.user_preferred {
        Some(s) => seq![s],
        None => Seq::empty(),
    };
    let b = match t.english {
        Some(s) => seq![s],
        None => Seq::empty(),
    };
    let c = match t.romaji {
        Some(s) => seq![s],
        None => Seq::empty(),
    };
    a + b + c
}

/// Law: an AniList result matches a normalized title when its preferred,
/// English or romaji title (any of those it has) normalizes to it.
pub proof fn anilist_match_is_any_of_its_titles(t: AnilistTitle, target: Seq<char>)
    ensures
        any_matches(string_views(anilist_titles(t)), target) == (
            (t.user_preferred matches Some(s) && normalized(s@) == target)
            || (t.english matches Some(s) && normalized(s@) == target)
            || (t.romaji matches Some(s) && normalized(s@) == target)),
{
    let v = string_views(anilist_titles(t));
    let a: Seq<String> = match t.user_preferred { Some(s) => seq![s], None => Seq::empty() };
    let b: Seq<String> = match t.english { Some(s) => seq![s], None => Seq::empty() };
    let c: Seq<String> = match t.romaji { Some(s) => seq![s], None => Seq::empty() };
    assert(anilist_titles(t) == a + b + c);
    if any_matches(v, target) {
        let j = choose|j: int| 0 <= j < v.len() && normalized(#[trigger] v[j]) == target;
        let all = a + b + c;
        assert(v[j] == all[j]@);
        if j < a.len() {
            assert(all[j] == a[j]);
        } else if j < a.len() + b.len() {
            assert(all[j] == b[j - a.len()]);
        } else {
            assert(all[j] == c[j - a.len() - b.len()]);
        }
    }
    let all = a + b + c;
    if t.user_preferred matches Some(s) && normalized(s@) == target {
        assert(v[0] == all[0]@);
    }
    if t.english matches Some(s) && normalized(s@) == target {
        assert(v[a.len() as int] == all[a.len() as int]@);
    }
    if t.romaji matches Some(s) && normalized(s@) == target {
        assert(v[(a.len() + b.len()) as int] == all[(a.len() + b.len()) as int]@);
    }
}

fn anilist_title_list(t: &AnilistTitle) -> (r: Vec<String>)
    ensures
        string_views(r@) == string_views(anilist_titles(*t)),
{
    let mut out: Vec<String> = Vec::new();
    match &t.user_preferred {
        Some(s) => out.push(s.clone()),
        None => {},
    }
    match &t.english {
        Some(s) => out.push(s.clone()),
        None => {},
    }
    match &t.romaji {
        Some(s) => out.push(s.clone()),
        None => {},
    }
    assert(string_views(out@) =~= string_views(anilist_titles(*t)));
    out
}

/// The language part of a language tag: what precedes the first `-`.
pub open spec fn language_code(tag: Seq<char>) -> Seq<char> {
    if exists|i: int| 0 <= i < tag.len() && tag[i] == '-' {
        tag.take(choose|i: int| 0 <= i < tag.len() && tag[i] == '-' && forall|j: int| 0 <= j < i ==> tag[j] != '-')
    } else {
        tag
    }
}

/// The language part of a language tag.
pub fn lang_code(tag: &str) -> (r: String)
    ensures
        r@ == language_code(tag@),
{
    let c = chars_of(tag);
    let mut i: usize = 0;
    while i < c.len() && c[i] != '-'
        invariant
            i <= c.len(),
            forall|j: int| 0 <= j < i ==> c@[j] != '-',
        decreases c.len() - i,
    {
        i += 1;
    }
    let mut out: Vec<char> = Vec::new();
    let mut k: usize = 0;
    while k < i
        invariant
            k <= i <= c.len(),
            out@ == c@.take(k as int),
        decreases i - k,
    {
        out.push(c[k]);
        k += 1;
        assert(out@ =~= c@.take(k as int));
    }
    proof {
        if i < c.len() {
            let w = choose|x: int| 0 <= x < tag@.len() && tag@[x] == '-' && forall|j: int| 0 <= j < x ==> tag@[j] != '-';
            assert(c@[i as int] == '-');
            if w < i {
                assert(c@[w] != '-');
            } else if w > i {
                assert(tag@[i as int] != '-');
            }
        } else {
            assert(c@.take(i as int) =~= c@);
        }
    }
    string_of(&out)
}

/// The text of a localized map (as its entries, in the map's order): the
/// entry for `language`, else for `en`, else for `fallback`, else the
/// first entry, else empty.
pub open spec fn localized(entries: Seq<(String, String)>, language: Seq<char>, fallback: Seq<char>) -> Seq<char> {
    if exists|i: int| 0 <= i < entries.len() && (#[trigger] entries[i]).0@ == language {
        entries[choose|i: int| 0 <= i < entries.len() && (#[trigger] entries[i]).0@ == language].1@
    } else if exists|i: int| 0 <= i < entries.len() && (#[trigger] entries[i]).0@ == "en"@ {
        entries[choose|i: int| 0 <= i < entries.len() && (#[trigger] entries[i]).0@ == "en"@].1@
    } else if exists|i: int| 0 <= i < entries.len() && (#[trigger] entries[i]).0@ == fallback {
        entries[choose|i: int| 0 <= i < entries.len() && (#[trigger] entries[i]).0@ == fallback].1@
    } else if entries.len() > 0 {
        entries[0].1@
    } else {
        Seq::empty()
    }
}

/// Keys are unique in a map's entries.
pub open spec fn unique_keys(entries: Seq<(String, String)>) -> bool {
    forall|i: int, j: int| 0 <= i < entries.len() && 0 <= j < entries.len() && i != j ==> (#[trigger] entries[i]).0@ != (#[trigger] entries[j]).0@
}

fn find_key(entries: &Vec<(String, String)>, key: &str) -> (r: Option<usize>)
    ensures
        r matches Some(i) ==> i < entries.len() && entries@[i as int].0@ == key@,
        r is None ==> forall|i: int| 0 <= i < entries.len() ==> (#[trigger] entries@[i]).0@ != key@,
{
    let mut i: usize = 0;
    while i < entries.len()
        invariant
            i <= entries.len(),
            forall|j: int| 0 <= j < i ==> (#[trigger] entries@[j]).0@ != key@,
        decreases entries.len() - i,
    {
        if str_eq(entries[i].0.as_str(), key) {
            return Some(i);
        }
        i += 1;
    }
    None
}

/// The text of a localized map for `language`, falling back to English,
/// then to `fallback`, then to any entry.
pub fn extract_localized_text(entries: &Vec<(String, String)>, language: &str, fallback: &str) -> (r: String)
    requires
        unique_keys(entries@),
    ensures
        r@ == localized(entries@, language@, fallback@),
{
    proof {
        reveal_strlit("en");
    }
    match find_key(entries, language) {
        Some(i) => return entries[i].1.clone(),
        None => {},
    }
    match find_key(entries, "en") {
        Some(i) => return entries[i].1.clone(),
        None => {},
    }
    match find_key(entries, fallback) {
        Some(i) => return entries[i].1.clone(),
        None => {},
    }
    if entries.len() > 0 {
        entries[0].1.clone()
    } else {
        String::new()
    }
}

/// The AniList search response envelope.
#[derive(Debug, Clone, PartialEq, Eq)]
pub struct AnilistResponse<T> {
    pub data: T,
}

/// The `Page` of an AniList search.
#[derive(Debug, Clone, PartialEq, Eq)]
pub struct AnilistSearchData {
    pub page: AnilistPage,
}

/// The media of an AniList search page.
#[derive(Debug, Clone, PartialEq, Eq)]
pub struct AnilistPage {
    pub media: Vec<AnilistMedia>,
}

/// One AniList entry.
#[derive(Debug, Clone, PartialEq, Eq)]
pub struct AnilistMedia {
    pub id: i32,
    pub title: AnilistTitle,
    pub description: Option<String>,
    pub status: Option<String>,
    pub staff: Option<AnilistStaff>,
    pub cover_image: Option<AnilistCoverImage>,
    pub banner_image: Option<String>,
    pub average_score: Option<i64>,
}

/// The titles of an AniList entry.
#[derive(Debug, Clone, PartialEq, Eq)]
pub struct AnilistTitle {
    pub romaji: Option<String>,
    pub english: Option<String>,
    pub user_preferred: Option<String>,
}

/// The cover of an AniList entry.
#[derive(Debug, Clone, PartialEq, Eq)]
pub struct AnilistCoverImage {
    pub large: Option<String>,
}

/// The staff of an AniList entry.
#[derive(Debug, Clone, PartialEq, Eq)]
pub struct AnilistStaff {
    pub edges: Vec<AnilistStaffEdge>,
}

/// One staff member and their role.
#[derive(Debug, Clone, PartialEq, Eq)]
pub struct AnilistStaffEdge {
    pub role: String,
    pub node: AnilistStaffNode,
}

/// A staff member.
#[derive(Debug, Clone, PartialEq, Eq)]
pub struct AnilistStaffNode {
    pub name: AnilistStaffName,
}

/// A staff member's name.
#[derive(Debug, Clone, PartialEq, Eq)]
pub struct AnilistStaffName {
    pub full: String,
}

/// The title taken from an AniList entry: preferred, else English, else
/// romaji, else empty.
pub open spec fn anilist_display_title(t: AnilistTitle) -> Seq<char> {
    match t.user_preferred {
        Some(s) => s@,
        None => match t.english {
            Some(s) => s@,
            None => match t.romaji {
                Some(s) => s@,
                None => Seq::empty(),
            },
        },
    }
}

/// The title taken from an AniList entry.
pub fn anilist_title(t: &AnilistTitle) -> (r: String)
    ensures
        r@ == anilist_display_title(*t),
{
    match &t.user_preferred {
        Some(s) => s.clone(),
        None => match &t.english {
            Some(s) => s.clone(),
            None => match &t.romaji {
                Some(s) => s.clone(),
                None => String::new(),
            },
        },
    }
}

/// A staff role that credits an author: its lower-cased text mentions
/// story, art or author.
pub open spec fn is_author_role(role: Seq<char>) -> bool {
    let r = unicode_lowercase(role);
    contains_seq(r, "story"@) || contains_seq(r, "art"@) || contains_seq(r, "author"@)
}

fn first_author_edge(edges: &Vec<AnilistStaffEdge>) -> (r: Option<usize>)
    ensures
        match r {
            Some(i) => i < edges.len() && is_author_role(edges@[i as int].role@) && forall|j: int|
                0 <= j < i ==> !is_author_role(#[trigger] edges@[j].role@),
            None => forall|j: int| 0 <= j < edges.len() ==> !is_author_role(#[trigger] edges@[j].role@),
        },
{
    let mut i: usize = 0;
    while i < edges.len()
        invariant
            i <= edges.len(),
            forall|j: int| 0 <= j < i ==> !is_author_role(#[trigger] edges@[j].role@),
        decreases edges.len() - i,
    {
        let role = to_lowercase(edges[i].role.as_str());
        if contains_str(role.as_str(), "story") || contains_str(role.as_str(), "art")
            || contains_str(role.as_str(), "author") {
            return Some(i);
        }
        i += 1;
    }
    None
}

/// The first staff member credited as an author, if any.
pub fn anilist_author(media: &AnilistMedia) -> (r: Option<usize>)
    ensures
        media.staff is None ==> r is None,
        media.staff matches Some(s) ==> match r {
            Some(i) => i < s.edges.len() && is_author_role(s.edges@[i as int].role@) && forall|j: int|
                0 <= j < i ==> !is_author_role(#[trigger] s.edges@[j].role@),
            None => forall|j: int| 0 <= j < s.edges.len() ==> !is_author_role(#[trigger] s.edges@[j].role@),
        },
{
    match &media.staff {
        None => None,
        Some(staff) => first_author_edge(&staff.edges),
    }
}

/// The writer credited by a `ComicInfo.xml`, when its text is not blank.
pub fn comic_info_writer(writer: &Option<String>) -> (r: Option<String>)
    ensures
        match *writer {
            Some(w) => if spec_trim(w@).len() > 0 {
                r matches Some(x) && x@ == w@
            } else {
                r is None
            },
            None => r is None,
        },
{
    match writer {
        Some(w) => {
            let c = chars_of(w.as_str());
            let t = trim_chars(&c);
            if t.len() > 0 {
                Some(w.clone())
            } else {
                None
            }
        },
        None => None,
    }
}

} // verus!
