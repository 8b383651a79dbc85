//! Decisions of the file sync service: folder names for comics created by
//! a sync, which chapters and extras to ask a peer for, and where received
//! files go.

use vstd::prelude::*;
use crate::text::{chars_of, string_of, str_eq, concat};
use crate::checksum::{checksum_of, sha256_hex};
use crate::formats::{spec_ascii_lowercase, to_ascii_lowercase};
use crate::paths::{extension, file_name, file_stem, spec_extension, spec_file_name, spec_file_stem};
use crate::security::ComicError;
use crate::messages::{
    ComicSummaryEntry, FileChapterInfo, FileComicInfo, FileExtraInfo, FileManifest, EXTRA_KIND_BANNER,
    EXTRA_KIND_COMIC_INFO, EXTRA_KIND_COVER,
};

verus! {

/// `char::is_whitespace`: the characters with the Unicode `White_Space`
/// property.
pub open spec fn is_white_space(c: char) -> bool {
    ||| ('\u{9}' <= c && c <= '\u{d}')
    ||| c == ' '
    ||| c == '\u{85}'
    ||| c == '\u{a0}'
    ||| c == '\u{1680}'
    ||| ('\u{2000}' <= c && c <= '\u{200a}')
    ||| c == '\u{2028}'
    ||| c == '\u{2029}'
    ||| c == '\u{202f}'
    ||| c == '\u{205f}'
    ||| c == '\u{3000}'
}

/// Whether `c` is Unicode white space.
pub fn is_white_space_exec(c: char) -> (r: bool)
    ensures
        r == is_white_space(c),
{
    ('\u{9}' <= c && c <= '\u{d}') || c == ' ' || c == '\u{85}' || c == '\u{a0}' || c
        == '\u{1680}' || ('\u{2000}' <= c && c <= '\u{200a}') || c == '\u{2028}' || c == '\u{2029}'
        || c == '\u{202f}' || c == '\u{205f}' || c == '\u{3000}'
}

/// `s` without its leading white space.
pub open spec fn trim_start(s: Seq<char>) -> Seq<char>
    decreases s.len(),
{
    if s.len() > 0 && is_white_space(s[0]) {
        trim_start(s.drop_first())
    } else {
        s
    }
}

/// `s` without its trailing white space.
pub open spec fn trim_end(s: Seq<char>) -> Seq<char>
    decreases s.len(),
{
    if s.len() > 0 && is_white_space(s.last()) {
        trim_end(s.drop_last())
    } else {
        s
    }
}

/// `str::trim`.
pub open spec fn spec_trim(s: Seq<char>) -> Seq<char> {
    trim_end(trim_start(s))
}

proof fn lemma_trim_start(s: Seq<char>, i: int)
    requires
        0 <= i <= s.len(),
        forall|k: int| 0 <= k < i ==> is_white_space(#[trigger] s[k]),
        i == s.len() || !is_white_space(s[i]),
    ensures
        trim_start(s) == s.skip(i),
    decreases i,
{
    if i == 0 {
        assert(s.skip(0) =~= s);
    } else {
        let t = s.drop_first();
        assert forall|k: int| 0 <= k < i - 1 implies is_white_space(#[trigger] t[k]) by {
            assert(t[k] == s[k + 1]);
        }
        if i - 1 < t.len() {
            assert(t[i - 1] == s[i]);
        }
        lemma_trim_start(t, i - 1);
        assert(t.skip(i - 1) =~= s.skip(i));
    }
}

proof fn lemma_trim_end(s: Seq<char>, j: int)
    requires
        0 <= j <= s.len(),
        forall|k: int| j <= k < s.len() ==> is_white_space(#[trigger] s[k]),
        j == 0 || !is_white_space(s[j - 1]),
    ensures
        trim_end(s) == s.take(j),
    decreases s.len() - j,
{
    if j == s.len() {
        assert(s.take(j) =~= s);
    } else {
        let t = s.drop_last();
        assert forall|k: int| j <= k < t.len() implies is_white_space(#[trigger] t[k]) by {
            assert(t[k] == s[k]);
        }
        if j > 0 {
            assert(t[j - 1] == s[j - 1]);
        }
        lemma_trim_end(t, j);
        assert(t.take(j) =~= s.take(j));
    }
}

/// `str::trim` on a character vector.
pub fn trim_chars(s: &Vec<char>) -> (r: Vec<char>)
    ensures
        r@ == spec_trim(s@),
{
    let mut i: usize = 0;
    while i < s.len() && is_white_space_exec(s[i])
        invariant
            i <= s.len(),
            forall|k: int| 0 <= k < i ==> is_white_space(#[trigger] s@[k]),
        decreases s.len() - i,
    {
        i += 1;
    }
    proof {
        lemma_trim_start(s@, i as int);
    }
    let mut j: usize = s.len();
    while j > i && is_white_space_exec(s[j - 1])
        invariant
            i <= j <= s.len(),
            forall|k: int| j <= k < s.len() ==> is_white_space(#[trigger] s@[k]),
        decreases j,
    {
        j -= 1;
    }
    let ghost rest = s@.skip(i as int);
    proof {
        assert forall|k: int| j - i <= k < rest.len() implies is_white_space(#[trigger] rest[k]) by {
            assert(rest[k] == s@[k + i]);
        }
        if j > i {
            assert(rest[j - i - 1] == s@[j - 1]);
        }
        lemma_trim_end(rest, (j - i) as int);
    }
    let mut out: Vec<char> = Vec::new();
    let mut k: usize = i;
    while k < j
        invariant
            i <= k <= j,
            j <= s.len(),
            out@ == s@.subrange(i as int, k as int),
        decreases j - k,
    {
        out.push(s[k]);
        k += 1;
        assert(out@ =~= s@.subrange(i as int, k as int));
    }
    assert(rest.take((j - i) as int) =~= s@.subrange(i as int, j as int));
    out
}

/// The characters that cannot appear in a folder name.
pub open spec fn forbidden_in_folder_name(c: char) -> bool {
    c == '\\' || c == '/' || c == ':' || c == '*' || c == '?' || c == '"' || c == '<' || c == '>'
        || c == '|'
}

/// A character of a folder name: forbidden characters become `_`.
pub open spec fn folder_char(c: char) -> char {
    if forbidden_in_folder_name(c) {
        '_'
    } else {
        c
    }
}

/// The folder name for a comic named `name`: forbidden characters replaced
/// by `_`, then surrounding white space removed.
pub open spec fn spec_sanitize_folder_name(name: Seq<char>) -> Seq<char> {
    spec_trim(name.map_values(|c: char| folder_char(c)))
}

/// The folder name for a comic created by a sync.
pub fn sanitize_folder_name(name: &str) -> (r: String)
    ensures
        r@ == spec_sanitize_folder_name(name@),
{
    let c = chars_of(name);
    let mut mapped: Vec<char> = Vec::new();
    let mut i: usize = 0;
    while i < c.len()
        invariant
            i <= c.len(),
            mapped@ == c@.take(i as int).map_values(|x: char| folder_char(x)),
        decreases c.len() - i,
    {
        let ch = c[i];
        let m = if ch == '\\' || ch == '/' || ch == ':' || ch == '*' || ch == '?' || ch == '"' || ch
            == '<' || ch == '>' || ch == '|' {
            '_'
        } else {
            ch
        };
        mapped.push(m);
        i += 1;
        assert(mapped@ =~= c@.take(i as int).map_values(|x: char| folder_char(x)));
    }
    assert(c@.take(c.len() as int) =~= c@);
    let t = trim_chars(&mapped);
    string_of(&t)
}

/// What this side holds of one comic that the peer announced.
#[derive(Debug, Clone, PartialEq, Eq)]
pub struct LocalComicState {
    /// For each chapter the peer announced, in order: the checksum of the
    /// local chapter with that label, when there is one and it has a
    /// checksum.
    pub chapter_checksums: Vec<Option<String>>,
    /// Checksums of the local cover, banner and `ComicInfo.xml`, when they
    /// exist.
    pub cover: Option<String>,
    pub banner: Option<String>,
    pub comic_info: Option<String>,
}

/// A chapter is already held when the local copy has a checksum equal to
/// the one the peer announced.
pub open spec fn already_have(local: Option<String>, peer: Option<String>) -> bool {
    local is Some && peer is Some && local.unwrap()@ == peer.unwrap()@
}

/// An extra the peer has is wanted unless the local one has the same
/// checksum.
pub open spec fn extra_wanted(local: Option<String>, peer: Option<FileExtraInfo>) -> bool {
    peer is Some && !(local is Some && local.unwrap()@ == peer.unwrap().checksum@)
}

/// The wanted `(comic, chapter)` pairs of one comic, in the peer's order.
pub open spec fn wanted_chapters(
    name: Seq<char>,
    chapters: Seq<FileChapterInfo>,
    locals: Seq<Option<String>>,
) -> Seq<(Seq<char>, Seq<char>)>
    decreases chapters.len(),
{
    if chapters.len() == 0 {
        Seq::empty()
    } else {
        let rest = wanted_chapters(name, chapters.drop_last(), locals.drop_last());
        if already_have(locals.last(), chapters.last().checksum) {
            rest
        } else {
            rest.push((name, chapters.last().chapter@))
        }
    }
}

/// One wanted extra, or none.
pub open spec fn wanted_extra(
    name: Seq<char>,
    kind: Seq<char>,
    local: Option<String>,
    peer: Option<FileExtraInfo>,
) -> Seq<(Seq<char>, Seq<char>)> {
    if extra_wanted(local, peer) {
        seq![(name, kind)]
    } else {
        Seq::empty()
    }
}

/// The wanted `(comic, kind)` pairs of one comic: cover, banner, then
/// `ComicInfo.xml`.
pub open spec fn wanted_extras_of(comic: FileComicInfo, local: LocalComicState) -> Seq<
    (Seq<char>, Seq<char>),
> {
    wanted_extra(comic.comic_name@, EXTRA_KIND_COVER@, local.cover, comic.cover) + wanted_extra(
        comic.comic_name@,
        EXTRA_KIND_BANNER@,
        local.banner,
        comic.banner,
    ) + wanted_extra(comic.comic_name@, EXTRA_KIND_COMIC_INFO@, local.comic_info, comic.comic_info)
}

/// The wanted chapters and extras of a whole manifest, comic by comic.
pub open spec fn wanted_all(comics: Seq<FileComicInfo>, locals: Seq<LocalComicState>) -> (
    Seq<(Seq<char>, Seq<char>)>,
    Seq<(Seq<char>, Seq<char>)>,
)
    decreases comics.len(),
{
    if comics.len() == 0 {
        (Seq::empty(), Seq::empty())
    } else {
        let rest = wanted_all(comics.drop_last(), locals.drop_last());
        let c = comics.last();
        let l = locals.last();
        (
            rest.0 + wanted_chapters(c.comic_name@, c.chapters@, l.chapter_checksums@),
            rest.1 + wanted_extras_of(c, l),
        )
    }
}

/// The view of a list of string pairs.
pub open spec fn pairs_view(s: Seq<(String, String)>) -> Seq<(Seq<char>, Seq<char>)> {
    Seq::new(s.len(), |i: int| (s[i].0@, s[i].1@))
}

/// Whether `local` lines up with the comics and chapters of `peer`.
pub open spec fn aligned(peer: Seq<FileComicInfo>, local: Seq<LocalComicState>) -> bool {
    &&& peer.len() == local.len()
    &&& forall|i: int|
        0 <= i < peer.len() ==> (#[trigger] local[i]).chapter_checksums.len()
            == peer[i].chapters.len()
}

fn push_pair(out: &mut Vec<(String, String)>, a: &String, b: &str)
    ensures
        pairs_view(final(out)@) == pairs_view(old(out)@).push((a@, b@)),
{
    out.push((a.clone(), b.to_string()));
    assert(pairs_view(out@) =~= pairs_view(old(out)@).push((a@, b@)));
}

fn push_extra_if_wanted(
    out: &mut Vec<(String, String)>,
    name: &String,
    kind: &str,
    local: &Option<String>,
    peer: &Option<FileExtraInfo>,
)
    ensures
        pairs_view(final(out)@) == pairs_view(old(out)@) + wanted_extra(name@, kind@, *local, *peer),
{
    let wanted = match peer {
        Some(p) => match local {
            Some(l) => !str_eq(l.as_str(), p.checksum.as_str()),
            None => true,
        },
        None => false,
    };
    if wanted {
        push_pair(out, name, kind);
        assert(pairs_view(old(out)@).push((name@, kind@)) =~= pairs_view(old(out)@) + wanted_extra(
            name@,
            kind@,
            *local,
            *peer,
        ));
    } else {
        assert(pairs_view(old(out)@) =~= pairs_view(old(out)@) + wanted_extra(
            name@,
            kind@,
            *local,
            *peer,
        ));
    }
}

/// Compares the peer's manifest with what this side holds and lists what
/// to ask for: every chapter not already held with the same checksum, and
/// every extra whose checksum differs from the local one.
pub fn diff_wanted(peer_manifest: &FileManifest, local: &Vec<LocalComicState>) -> (r: (
    Vec<(String, String)>,
    Vec<(String, String)>,
))
    requires
        aligned(peer_manifest.comics@, local@),
    ensures
        (pairs_view(r.0@), pairs_view(r.1@)) == wanted_all(peer_manifest.comics@, local@),
{
    let comics = &peer_manifest.comics;
    let mut wanted: Vec<(String, String)> = Vec::new();
    let mut wanted_extras: Vec<(String, String)> = Vec::new();
    let mut i: usize = 0;
    while i < comics.len()
        invariant
            i <= comics.len(),
            aligned(comics@, local@),
            (pairs_view(wanted@), pairs_view(wanted_extras@)) == wanted_all(
                comics@.take(i as int),
                local@.take(i as int),
            ),
        decreases comics.len() - i,
    {
        let comic = &comics[i];
        let state = &local[i];
        let ghost before = pairs_view(wanted@);
        let mut j: usize = 0;
        assert(comic.chapters@.take(0) =~= Seq::<FileChapterInfo>::empty());
        while j < comic.chapters.len()
            invariant
                j <= comic.chapters.len(),
                state.chapter_checksums.len() == comic.chapters.len(),
                pairs_view(wanted@) == before + wanted_chapters(
                    comic.comic_name@,
                    comic.chapters@.take(j as int),
                    state.chapter_checksums@.take(j as int),
                ),
            decreases comic.chapters.len() - j,
        {
            let chapter = &comic.chapters[j];
            let have = match &state.chapter_checksums[j] {
                Some(l) => match &chapter.checksum {
                    Some(p) => str_eq(l.as_str(), p.as_str()),
                    None => false,
                },
                None => false,
            };
            proof {
                assert(comic.chapters@.take(j + 1).drop_last() =~= comic.chapters@.take(j as int));
                assert(state.chapter_checksums@.take(j + 1).drop_last()
                    =~= state.chapter_checksums@.take(j as int));
            }
            if !have {
                push_pair(&mut wanted, &comic.comic_name, chapter.chapter.as_str());
            }
            j += 1;
        }
        assert(comic.chapters@.take(j as int) =~= comic.chapters@);
        assert(state.chapter_checksums@.take(j as int) =~= state.chapter_checksums@);
        let ghost before_extras = pairs_view(wanted_extras@);
        push_extra_if_wanted(&mut wanted_extras, &comic.comic_name, EXTRA_KIND_COVER, &state.cover, &comic.cover);
        push_extra_if_wanted(&mut wanted_extras, &comic.comic_name, EXTRA_KIND_BANNER, &state.banner, &comic.banner);
        push_extra_if_wanted(
            &mut wanted_extras,
            &comic.comic_name,
            EXTRA_KIND_COMIC_INFO,
            &state.comic_info,
            &comic.comic_info,
        );
        proof {
            assert(comics@.take(i + 1).drop_last() =~= comics@.take(i as int));
            assert(local@.take(i + 1).drop_last() =~= local@.take(i as int));
            assert(pairs_view(wanted_extras@) =~= before_extras + wanted_extras_of(*comic, *state));
        }
        i += 1;
    }
    assert(comics@.take(i as int) =~= comics@);
    assert(local@.take(i as int) =~= local@);
    (wanted, wanted_extras)
}

/// The peer's extra of kind `kind` (0: cover, 1: banner, 2:
/// `ComicInfo.xml`) for a comic.
pub open spec fn peer_extra(c: FileComicInfo, kind: int) -> Option<FileExtraInfo> {
    if kind == 0 {
        c.cover
    } else if kind == 1 {
        c.banner
    } else {
        c.comic_info
    }
}

/// The checksum of this side's extra of kind `kind`, when it has one.
pub open spec fn local_extra(l: LocalComicState, kind: int) -> Option<String> {
    if kind == 0 {
        l.cover
    } else if kind == 1 {
        l.banner
    } else {
        l.comic_info
    }
}

/// The name under which an extra of kind `kind` is asked for.
pub open spec fn extra_kind_name(kind: int) -> Seq<char> {
    if kind == 0 {
        EXTRA_KIND_COVER@
    } else if kind == 1 {
        EXTRA_KIND_BANNER@
    } else {
        EXTRA_KIND_COMIC_INFO@
    }
}

/// Law: the extras asked for are exactly those the peer has and this side
/// lacks, or holds with another checksum. Every such extra of every comic
/// is asked for (in particular one this side does not have at all, so a
/// comic created by a sync receives its cover, banner and `ComicInfo.xml`),
/// and nothing else is.
pub proof fn wanted_extras_are_the_missing_or_changed(comics: Seq<FileComicInfo>, locals: Seq<LocalComicState>)
    requires
        comics.len() == locals.len(),
    ensures
        forall|i: int, kind: int|
            0 <= i < comics.len() && 0 <= kind < 3 && (#[trigger] peer_extra(comics[i], kind)) is Some
                && (local_extra(locals[i], kind) is None || local_extra(locals[i], kind).unwrap()@
                    != peer_extra(comics[i], kind).unwrap().checksum@)
                ==> wanted_all(comics, locals).1.contains((comics[i].comic_name@, extra_kind_name(kind))),
        forall|k: int| 0 <= k < wanted_all(comics, locals).1.len() ==> exists|i: int, kind: int|
            0 <= i < comics.len() && 0 <= kind < 3 && #[trigger] wanted_all(comics, locals).1[k] == (
                comics[i].comic_name@,
                extra_kind_name(kind),
            ) && (#[trigger] peer_extra(comics[i], kind)) is Some && (local_extra(locals[i], kind) is None
                || local_extra(locals[i], kind).unwrap()@ != peer_extra(comics[i], kind).unwrap().checksum@),
    decreases comics.len(),
{
    if comics.len() > 0 {
        let pc = comics.drop_last();
        let pl = locals.drop_last();
        wanted_extras_are_the_missing_or_changed(pc, pl);
        let rest = wanted_all(pc, pl).1;
        let c = comics.last();
        let l = locals.last();
        let e0 = wanted_extra(c.comic_name@, EXTRA_KIND_COVER@, l.cover, c.cover);
        let e1 = wanted_extra(c.comic_name@, EXTRA_KIND_BANNER@, l.banner, c.banner);
        let e2 = wanted_extra(c.comic_name@, EXTRA_KIND_COMIC_INFO@, l.comic_info, c.comic_info);
        let all = wanted_all(comics, locals).1;
        assert(all == rest + (e0 + e1 + e2));
        let n = comics.len() - 1;
        assert forall|i: int, kind: int|
            0 <= i < comics.len() && 0 <= kind < 3 && (#[trigger] peer_extra(comics[i], kind)) is Some
                && (local_extra(locals[i], kind) is None || local_extra(locals[i], kind).unwrap()@
                    != peer_extra(comics[i], kind).unwrap().checksum@)
            implies all.contains((comics[i].comic_name@, extra_kind_name(kind))) by {
            let want = (comics[i].comic_name@, extra_kind_name(kind));
            if i < n {
                assert(pc[i] == comics[i] && pl[i] == locals[i]);
                assert(peer_extra(pc[i], kind) is Some);
                let w = choose|w: int| 0 <= w < rest.len() && rest[w] == want;
                assert(all[w] == want);
            } else {
                assert(comics[i] == c && locals[i] == l);
                if kind == 0 {
                    assert(all[rest.len() as int] == want);
                } else if kind == 1 {
                    assert(all[(rest.len() + e0.len()) as int] == want);
                } else {
                    assert(all[(rest.len() + e0.len() + e1.len()) as int] == want);
                }
            }
        }
        assert forall|k: int| 0 <= k < all.len() implies exists|i: int, kind: int|
            0 <= i < comics.len() && 0 <= kind < 3 && #[trigger] all[k] == (
                comics[i].comic_name@,
                extra_kind_name(kind),
            ) && (#[trigger] peer_extra(comics[i], kind)) is Some && (local_extra(locals[i], kind) is None
                || local_extra(locals[i], kind).unwrap()@ != peer_extra(comics[i], kind).unwrap().checksum@) by {
            if k < rest.len() {
                assert(all[k] == rest[k]);
                let (i, kind) = choose|i: int, kind: int|
                    0 <= i < pc.len() && 0 <= kind < 3 && #[trigger] rest[k] == (
                        pc[i].comic_name@,
                        extra_kind_name(kind),
                    ) && (#[trigger] peer_extra(pc[i], kind)) is Some && (local_extra(pl[i], kind) is None
                        || local_extra(pl[i], kind).unwrap()@ != peer_extra(pc[i], kind).unwrap().checksum@);
                assert(pc[i] == comics[i] && pl[i] == locals[i]);
                assert(peer_extra(comics[i], kind) is Some);
            } else {
                assert(comics[n] == c && locals[n] == l);
                let q = k - rest.len();
                if q < e0.len() {
                    assert(all[k] == e0[q]);
                    assert(peer_extra(comics[n], 0) is Some);
                } else if q < e0.len() + e1.len() {
                    assert(all[k] == e1[q - e0.len()]);
                    assert(peer_extra(comics[n], 1) is Some);
                } else {
                    assert(all[k] == e2[q - e0.len() - e1.len()]);
                    assert(peer_extra(comics[n], 2) is Some);
                }
            }
        }
    }
}

proof fn lemma_wanted_chapters_of(name: Seq<char>, chapters: Seq<FileChapterInfo>, locals: Seq<Option<String>>)
    requires
        chapters.len() == locals.len(),
    ensures
        forall|j: int| 0 <= j < chapters.len() && !((#[trigger] locals[j]) is Some && chapters[j].checksum is Some
            && locals[j].unwrap()@ == chapters[j].checksum.unwrap()@)
            ==> wanted_chapters(name, chapters, locals).contains((name, chapters[j].chapter@)),
        forall|k: int| 0 <= k < wanted_chapters(name, chapters, locals).len() ==> exists|j: int|
            0 <= j < chapters.len() && #[trigger] wanted_chapters(name, chapters, locals)[k] == (name, chapters[j].chapter@)
                && !((#[trigger] locals[j]) is Some && chapters[j].checksum is Some
                && locals[j].unwrap()@ == chapters[j].checksum.unwrap()@),
    decreases chapters.len(),
{
    if chapters.len() > 0 {
        let pc = chapters.drop_last();
        let pl = locals.drop_last();
        lemma_wanted_chapters_of(name, pc, pl);
        let rest = wanted_chapters(name, pc, pl);
        let all = wanted_chapters(name, chapters, locals);
        let n = chapters.len() - 1;
        assert(chapters.last() == chapters[n] && locals.last() == locals[n]);
        assert forall|j: int| 0 <= j < chapters.len() && !((#[trigger] locals[j]) is Some && chapters[j].checksum is Some
            && locals[j].unwrap()@ == chapters[j].checksum.unwrap()@)
            implies all.contains((name, chapters[j].chapter@)) by {
            if j < n {
                assert(pc[j] == chapters[j] && pl[j] == locals[j]);
                let w = choose|w: int| 0 <= w < rest.len() && rest[w] == (name, pc[j].chapter@);
                assert(all[w] == rest[w]);
            } else {
                assert(all[rest.len() as int] == (name, chapters[j].chapter@));
            }
        }
        assert forall|k: int| 0 <= k < all.len() implies exists|j: int|
            0 <= j < chapters.len() && #[trigger] all[k] == (name, chapters[j].chapter@)
                && !((#[trigger] locals[j]) is Some && chapters[j].checksum is Some
                && locals[j].unwrap()@ == chapters[j].checksum.unwrap()@) by {
            if k < rest.len() {
                assert(all[k] == rest[k]);
                let j = choose|j: int|
                    0 <= j < pc.len() && #[trigger] rest[k] == (name, pc[j].chapter@)
                        && !((#[trigger] pl[j]) is Some && pc[j].checksum is Some
                        && pl[j].unwrap()@ == pc[j].checksum.unwrap()@);
                assert(pc[j] == chapters[j] && pl[j] == locals[j]);
            } else {
                assert(all[k] == (name, chapters[n].chapter@));
            }
        }
    }
}

/// Law: the chapters asked for are exactly those the peer announced that
/// this side does not hold with the same checksum (it lacks them, has no
/// checksum for them, or holds another version); every such chapter of
/// every comic is asked for, and nothing else is.
pub proof fn wanted_chapters_are_the_missing_or_changed(comics: Seq<FileComicInfo>, locals: Seq<LocalComicState>)
    requires
        aligned(comics, locals),
    ensures
        forall|i: int, j: int|
            0 <= i < comics.len() && 0 <= j < comics[i].chapters.len() && !((#[trigger] locals[i].chapter_checksums@[j]) is Some
                && comics[i].chapters@[j].checksum is Some && locals[i].chapter_checksums@[j].unwrap()@
                == comics[i].chapters@[j].checksum.unwrap()@)
                ==> wanted_all(comics, locals).0.contains((comics[i].comic_name@, comics[i].chapters@[j].chapter@)),
        forall|k: int| 0 <= k < wanted_all(comics, locals).0.len() ==> exists|i: int, j: int|
            0 <= i < comics.len() && 0 <= j < comics[i].chapters.len() && #[trigger] wanted_all(comics, locals).0[k] == (
                comics[i].comic_name@,
                comics[i].chapters@[j].chapter@,
            ) && !((#[trigger] locals[i].chapter_checksums@[j]) is Some && comics[i].chapters@[j].checksum is Some
                && locals[i].chapter_checksums@[j].unwrap()@ == comics[i].chapters@[j].checksum.unwrap()@),
    decreases comics.len(),
{
    if comics.len() > 0 {
        let pc = comics.drop_last();
        let pl = locals.drop_last();
        assert forall|i: int| 0 <= i < pc.len() implies (#[trigger] pl[i]).chapter_checksums.len() == pc[i].chapters.len() by {
            assert(pl[i] == locals[i] && pc[i] == comics[i]);
        }
        wanted_chapters_are_the_missing_or_changed(pc, pl);
        let n = comics.len() - 1;
        let c = comics[n];
        let l = locals[n];
        assert(comics.last() == c && locals.last() == l);
        assert(l.chapter_checksums.len() == c.chapters.len());
        lemma_wanted_chapters_of(c.comic_name@, c.chapters@, l.chapter_checksums@);
        let rest = wanted_all(pc, pl).0;
        let mine = wanted_chapters(c.comic_name@, c.chapters@, l.chapter_checksums@);
        let all = wanted_all(comics, locals).0;
        assert(all == rest + mine);
        assert forall|i: int, j: int|
            0 <= i < comics.len() && 0 <= j < comics[i].chapters.len() && !((#[trigger] locals[i].chapter_checksums@[j]) is Some
                && comics[i].chapters@[j].checksum is Some && locals[i].chapter_checksums@[j].unwrap()@
                == comics[i].chapters@[j].checksum.unwrap()@)
            implies all.contains((comics[i].comic_name@, comics[i].chapters@[j].chapter@)) by {
            let want = (comics[i].comic_name@, comics[i].chapters@[j].chapter@);
            if i < n {
                assert(pc[i] == comics[i] && pl[i] == locals[i]);
                assert(pl[i].chapter_checksums@[j] == locals[i].chapter_checksums@[j]);
                let w = choose|w: int| 0 <= w < rest.len() && rest[w] == want;
                assert(all[w] == want);
            } else {
                assert(l.chapter_checksums@[j] == locals[i].chapter_checksums@[j]);
                let w = choose|w: int| 0 <= w < mine.len() && mine[w] == want;
                assert(all[rest.len() + w] == want);
            }
        }
        assert forall|k: int| 0 <= k < all.len() implies exists|i: int, j: int|
            0 <= i < comics.len() && 0 <= j < comics[i].chapters.len() && #[trigger] all[k] == (
                comics[i].comic_name@,
                comics[i].chapters@[j].chapter@,
            ) && !((#[trigger] locals[i].chapter_checksums@[j]) is Some && comics[i].chapters@[j].checksum is Some
                && locals[i].chapter_checksums@[j].unwrap()@ == comics[i].chapters@[j].checksum.unwrap()@) by {
            if k < rest.len() {
                assert(all[k] == rest[k]);
                let (i, j) = choose|i: int, j: int|
                    0 <= i < pc.len() && 0 <= j < pc[i].chapters.len() && #[trigger] rest[k] == (
                        pc[i].comic_name@,
                        pc[i].chapters@[j].chapter@,
                    ) && !((#[trigger] pl[i].chapter_checksums@[j]) is Some && pc[i].chapters@[j].checksum is Some
                        && pl[i].chapter_checksums@[j].unwrap()@ == pc[i].chapters@[j].checksum.unwrap()@);
                assert(pc[i] == comics[i] && pl[i] == locals[i]);
                assert(locals[i].chapter_checksums@[j] == pl[i].chapter_checksums@[j]);
            } else {
                let q = k - rest.len();
                assert(all[k] == mine[q]);
                let j = choose|j: int|
                    0 <= j < c.chapters@.len() && #[trigger] mine[q] == (c.comic_name@, c.chapters@[j].chapter@)
                        && !((#[trigger] l.chapter_checksums@[j]) is Some && c.chapters@[j].checksum is Some
                        && l.chapter_checksums@[j].unwrap()@ == c.chapters@[j].checksum.unwrap()@);
                assert(locals[n].chapter_checksums@[j] == l.chapter_checksums@[j]);
            }
        }
    }
}

/// The manifest reduced to the comic named `comic_name`.
pub fn manifest_for_comic(manifest: FileManifest, comic_name: &str) -> (r: FileManifest)
    ensures
        r.comics@ == manifest.comics@.filter(|c: FileComicInfo| c.comic_name@ == comic_name@),
{
    let mut all = manifest.comics;
    let ghost orig = all@;
    let mut kept: Vec<FileComicInfo> = Vec::new();
    let ghost mut k: int = 0;
    while all.len() > 0
        invariant
            0 <= k <= orig.len(),
            all@ == orig.skip(k),
            kept@ == orig.take(k).filter(|c: FileComicInfo| c.comic_name@ == comic_name@),
        decreases all.len(),
    {
        let c = all.remove(0);
        proof {
            assert(c == orig[k]);
            assert(orig.take(k + 1).drop_last() =~= orig.take(k));
            assert(all@ =~= orig.skip(k + 1));
            reveal(Seq::filter);
        }
        if str_eq(c.comic_name.as_str(), comic_name) {
            kept.push(c);
        }
        proof {
            k = k + 1;
        }
    }
    assert(orig.take(k) =~= orig);
    FileManifest { comics: kept }
}

/// The file name of `path`, or `fallback` when it has none.
pub open spec fn file_name_or(path: Seq<char>, fallback: Seq<char>) -> Seq<char> {
    match spec_file_name(path) {
        Some(n) => n,
        None => fallback,
    }
}

/// The name a local file is announced under: its file name, or `fallback`.
pub fn announced_file_name(path: &str, fallback: &str) -> (r: String)
    ensures
        r@ == file_name_or(path@, fallback@),
{
    match file_name(path) {
        Some(n) => n,
        None => fallback.to_string(),
    }
}

/// The chapter label a received file is recorded under: the stem of its
/// file name, or the label the peer gave when it has none.
pub open spec fn spec_display_chapter(file_name: Seq<char>, chapter: Seq<char>) -> Seq<char> {
    match spec_file_stem(file_name) {
        Some(s) => s,
        None => chapter,
    }
}

/// The chapter label a received file is recorded under.
pub fn display_chapter(file_name: &str, chapter: &str) -> (r: String)
    ensures
        r@ == spec_display_chapter(file_name@, chapter@),
{
    match file_stem(file_name) {
        Some(s) => s,
        None => chapter.to_string(),
    }
}

/// The extension a received cover or banner is stored with: the file's
/// own extension lower-cased, or `jpg` when it has none.
pub open spec fn spec_artwork_extension(file_name: Seq<char>) -> Seq<char> {
    match spec_extension(file_name) {
        Some(e) => spec_ascii_lowercase(e),
        None => "jpg"@,
    }
}

/// The extension a received cover or banner is stored with.
pub fn artwork_extension(file_name: &str) -> (r: String)
    ensures
        r@ == spec_artwork_extension(file_name@),
{
    match extension(file_name) {
        Some(e) => to_ascii_lowercase(e.as_str()),
        None => {
            let r = "jpg".to_string();
            r
        },
    }
}

/// `stem.ext`.
pub open spec fn dotted(stem: Seq<char>, ext: Seq<char>) -> Seq<char> {
    stem + "."@ + ext
}

/// `stem.ext` as a string.
pub fn dotted_name(stem: &str, ext: &str) -> (r: String)
    ensures
        r@ == dotted(stem@, ext@),
{
    let head = concat(stem, ".");
    concat(head.as_str(), ext)
}

/// The artwork extensions a comic folder may hold.
pub open spec fn artwork_extensions() -> Seq<Seq<char>> {
    seq!["jpg"@, "jpeg"@, "png"@]
}

/// The older copies of an artwork to delete when one with extension `ext`
/// arrives: `stem.jpg`, `stem.jpeg` and `stem.png`, except `stem.ext`.
pub open spec fn spec_stale_artwork(stem: Seq<char>, ext: Seq<char>) -> Seq<Seq<char>> {
    artwork_extensions().filter(|e: Seq<char>| e != ext).map_values(|e: Seq<char>| dotted(stem, e))
}

/// The file names of the older copies of an artwork to delete.
pub fn stale_artwork_names(stem: &str, ext: &str) -> (r: Vec<String>)
    ensures
        r@.map_values(|s: String| s@) == spec_stale_artwork(stem@, ext@),
{
    let mut out: Vec<String> = Vec::new();
    let candidates: [&str; 3] = ["jpg", "jpeg", "png"];
    let ghost all = artwork_extensions();
    let mut i: usize = 0;
    proof {
        reveal_strlit("jpg");
        reveal_strlit("jpeg");
        reveal_strlit("png");
    }
    assert(candidates@.map_values(|c: &str| c@) =~= all);
    while i < 3
        invariant
            i <= 3,
            candidates@.map_values(|c: &str| c@) == all,
            out@.map_values(|s: String| s@) == all.take(i as int).filter(|e: Seq<char>| e != ext@).map_values(
                |e: Seq<char>| dotted(stem@, e),
            ),
        decreases 3 - i,
    {
        let candidate = candidates[i];
        assert(candidate@ == all[i as int]);
        assert(all.take(i + 1).drop_last() =~= all.take(i as int));
        proof {
            reveal(Seq::filter);
        }
        let ghost prev = all.take(i as int).filter(|e: Seq<char>| e != ext@);
        let ghost old_out = out@;
        if !str_eq(candidate, ext) {
            let name = dotted_name(stem, candidate);
            out.push(name);
            assert(all.take(i + 1).filter(|e: Seq<char>| e != ext@) == prev.push(all[i as int]));
            assert(out@.map_values(|s: String| s@) =~= old_out.map_values(|s: String| s@).push(
                dotted(stem@, all[i as int]),
            ));
            assert(prev.push(all[i as int]).map_values(|e: Seq<char>| dotted(stem@, e))
                =~= prev.map_values(|e: Seq<char>| dotted(stem@, e)).push(dotted(stem@, all[i as int])));
        } else {
            assert(all.take(i + 1).filter(|e: Seq<char>| e != ext@) == prev);
        }
        i += 1;
    }
    assert(all.take(3) =~= all);
    out
}

/// File name of the comic metadata file in a comic folder.
pub const COMIC_INFO_FILE_NAME: &'static str = "ComicInfo.xml";

/// Where a received extra goes.
#[derive(Debug, Clone, PartialEq, Eq)]
pub enum ExtraDestination {
    /// A cover or banner, stored as `<stem>.<ext>` in the comic folder.
    Artwork(String),
    /// `ComicInfo.xml` at the root of the comic folder.
    ComicInfo,
}

/// The destination of a received extra by its kind; an unknown kind is
/// refused.
pub fn extra_destination(kind: &str) -> (r: Result<ExtraDestination, ComicError>)
    ensures
        kind@ == EXTRA_KIND_COVER@ ==> (r matches Ok(ExtraDestination::Artwork(s)) && s@
            == "cover"@),
        kind@ == EXTRA_KIND_BANNER@ ==> (r matches Ok(ExtraDestination::Artwork(s)) && s@
            == "banner"@),
        kind@ == EXTRA_KIND_COMIC_INFO@ ==> r == Ok::<ExtraDestination, ComicError>(
            ExtraDestination::ComicInfo,
        ),
        kind@ != EXTRA_KIND_COVER@ && kind@ != EXTRA_KIND_BANNER@ && kind@ != EXTRA_KIND_COMIC_INFO@
            ==> (r matches Err(ComicError::SystemFailure(m)) && m@ == "unknown extra kind: "@
            + kind@),
{
    proof {
        reveal_strlit("cover");
        reveal_strlit("banner");
        reveal_strlit("comic_info");
    }
    if str_eq(kind, EXTRA_KIND_COVER) {
        Ok(ExtraDestination::Artwork("cover".to_string()))
    } else if str_eq(kind, EXTRA_KIND_BANNER) {
        Ok(ExtraDestination::Artwork("banner".to_string()))
    } else if str_eq(kind, EXTRA_KIND_COMIC_INFO) {
        Ok(ExtraDestination::ComicInfo)
    } else {
        Err(ComicError::SystemFailure(concat("unknown extra kind: ", kind)))
    }
}

/// What the manifest announces of an extra file named `file_name` with
/// contents `bytes`.
pub fn extra_info_for(file_name: String, bytes: &[u8]) -> (r: FileExtraInfo)
    ensures
        r.file_name == file_name,
        r.checksum@ == checksum_of(bytes@),
        r.size == bytes.len(),
{
    FileExtraInfo { file_name, checksum: sha256_hex(bytes), size: bytes.len() as u64 }
}

/// A comic of the manifest is announced only when it has chapters or at
/// least one extra.
pub open spec fn has_content(comic: FileComicInfo) -> bool {
    comic.chapters.len() > 0 || comic.cover is Some || comic.banner is Some || comic.comic_info is Some
}

/// Whether a comic is worth announcing.
pub fn comic_has_content(comic: &FileComicInfo) -> (r: bool)
    ensures
        r == has_content(*comic),
{
    comic.chapters.len() > 0 || comic.cover.is_some() || comic.banner.is_some()
        || comic.comic_info.is_some()
}

/// One comic of the library summary; the chapter count is narrowed to 32
/// bits as `as` does.
pub fn summary_entry(comic_name: String, chapter_count: i64, cover_version: i64) -> (r:
    ComicSummaryEntry)
    ensures
        r.comic_name == comic_name,
        r.chapter_count == chapter_count as u32,
        r.cover_version == cover_version,
{
    ComicSummaryEntry { comic_name, chapter_count: chapter_count as u32, cover_version }
}

proof fn lemma_trim_start_is_suffix(s: Seq<char>)
    ensures
        exists|i: int| 0 <= i <= s.len() && trim_start(s) == s.skip(i),
        trim_start(s).len() > 0 ==> !is_white_space(trim_start(s)[0]),
    decreases s.len(),
{
    if s.len() > 0 && is_white_space(s[0]) {
        lemma_trim_start_is_suffix(s.drop_first());
        let i = choose|i: int| 0 <= i <= s.drop_first().len() && trim_start(s.drop_first()) == s.drop_first().skip(i);
        assert(s.drop_first().skip(i) =~= s.skip(i + 1));
    } else {
        assert(s.skip(0) =~= s);
    }
}

proof fn lemma_trim_end_is_prefix(s: Seq<char>)
    ensures
        exists|j: int| 0 <= j <= s.len() && trim_end(s) == s.take(j),
        trim_end(s).len() > 0 ==> !is_white_space(trim_end(s).last()),
    decreases s.len(),
{
    if s.len() > 0 && is_white_space(s.last()) {
        lemma_trim_end_is_prefix(s.drop_last());
        let j = choose|j: int| 0 <= j <= s.drop_last().len() && trim_end(s.drop_last()) == s.drop_last().take(j);
        assert(s.drop_last().take(j) =~= s.take(j));
    } else {
        assert(s.take(s.len() as int) =~= s);
    }
}

/// A folder name made for a comic holds none of the characters that
/// folder names cannot hold, and neither starts nor ends with white space.
pub proof fn sanitized_names_are_safe(name: Seq<char>)
    ensures
        forall|k: int| 0 <= k < spec_sanitize_folder_name(name).len() ==> !forbidden_in_folder_name(#[trigger] spec_sanitize_folder_name(name)[k]),
        spec_sanitize_folder_name(name).len() > 0 ==> !is_white_space(spec_sanitize_folder_name(name)[0])
            && !is_white_space(spec_sanitize_folder_name(name).last()),
{
    let m = name.map_values(|c: char| folder_char(c));
    assert forall|k: int| 0 <= k < m.len() implies !forbidden_in_folder_name(#[trigger] m[k]) by {
        assert(m[k] == folder_char(name[k]));
    }
    lemma_trim_start_is_suffix(m);
    let t = trim_start(m);
    let i = choose|i: int| 0 <= i <= m.len() && t == m.skip(i);
    lemma_trim_end_is_prefix(t);
    let j = choose|j: int| 0 <= j <= t.len() && trim_end(t) == t.take(j);
    let r = spec_sanitize_folder_name(name);
    assert(r == trim_end(t));
    assert forall|k: int| 0 <= k < r.len() implies !forbidden_in_folder_name(#[trigger] r[k]) by {
        assert(r[k] == t[k]);
        assert(t[k] == m[k + i]);
    }
    if r.len() > 0 {
        assert(r[0] == t[0]);
        assert(t.len() > 0);
    }
}

/// Sanitizing a folder name twice gives what sanitizing it once gave: a
/// sanitized name is kept as it is.
pub proof fn sanitizing_is_idempotent(name: Seq<char>)
    ensures
        spec_sanitize_folder_name(spec_sanitize_folder_name(name)) == spec_sanitize_folder_name(name),
{
    let r = spec_sanitize_folder_name(name);
    sanitized_names_are_safe(name);
    let m = r.map_values(|c: char| folder_char(c));
    assert forall|k: int| 0 <= k < r.len() implies #[trigger] m[k] == r[k] by {
        assert(!forbidden_in_folder_name(r[k]));
    }
    assert(m =~= r);
    assert(trim_start(r) == r);
    assert(trim_end(r) == r);
}

/// A side that already holds every chapter the peer announced, with the
/// same checksums, and the same extras, asks for nothing: a sync repeated
/// right after a complete one transfers nothing.
pub proof fn synced_side_wants_nothing(comics: Seq<FileComicInfo>, locals: Seq<LocalComicState>)
    requires
        aligned(comics, locals),
        forall|i: int, j: int| 0 <= i < comics.len() && 0 <= j < comics[i].chapters.len()
            ==> already_have(#[trigger] locals[i].chapter_checksums@[j], #[trigger] comics[i].chapters@[j].checksum),
        forall|i: int| 0 <= i < comics.len() ==> !extra_wanted((#[trigger] locals[i]).cover, comics[i].cover)
            && !extra_wanted(locals[i].banner, comics[i].banner)
            && !extra_wanted(locals[i].comic_info, comics[i].comic_info),
    ensures
        wanted_all(comics, locals).0.len() == 0,
        wanted_all(comics, locals).1.len() == 0,
    decreases comics.len(),
{
    if comics.len() > 0 {
        let n = comics.len() - 1;
        assert forall|i: int, j: int| 0 <= i < comics.drop_last().len() && 0 <= j < comics.drop_last()[i].chapters.len()
            implies already_have(#[trigger] locals.drop_last()[i].chapter_checksums@[j], #[trigger] comics.drop_last()[i].chapters@[j].checksum) by {
            assert(locals.drop_last()[i] == locals[i]);
            assert(comics.drop_last()[i] == comics[i]);
            assert(already_have(locals[i].chapter_checksums@[j], comics[i].chapters@[j].checksum));
        }
        assert forall|i: int| 0 <= i < comics.drop_last().len() implies !extra_wanted((#[trigger] locals.drop_last()[i]).cover, comics.drop_last()[i].cover)
            && !extra_wanted(locals.drop_last()[i].banner, comics.drop_last()[i].banner)
            && !extra_wanted(locals.drop_last()[i].comic_info, comics.drop_last()[i].comic_info) by {
            assert(locals.drop_last()[i] == locals[i]);
        }
        assert(aligned(comics.drop_last(), locals.drop_last())) by {
            assert forall|i: int| 0 <= i < comics.drop_last().len() implies (#[trigger] locals.drop_last()[i]).chapter_checksums.len()
                == comics.drop_last()[i].chapters.len() by {
                assert(locals.drop_last()[i] == locals[i]);
                assert(locals[i].chapter_checksums.len() == comics[i].chapters.len());
            }
        }
        synced_side_wants_nothing(comics.drop_last(), locals.drop_last());
        lemma_no_wanted_chapters(comics[n].comic_name@, comics[n].chapters@, locals[n].chapter_checksums@, n, comics, locals);
    }
}

proof fn lemma_no_wanted_chapters(
    name: Seq<char>,
    chapters: Seq<FileChapterInfo>,
    sums: Seq<Option<String>>,
    n: int,
    comics: Seq<FileComicInfo>,
    locals: Seq<LocalComicState>,
)
    requires
        0 <= n < comics.len(),
        chapters.len() <= comics[n].chapters.len(),
        sums.len() == chapters.len(),
        forall|j: int| 0 <= j < chapters.len() ==> chapters[j] == comics[n].chapters@[j] && sums[j] == locals[n].chapter_checksums@[j],
        forall|i: int, j: int| 0 <= i < comics.len() && 0 <= j < comics[i].chapters.len()
            ==> already_have(#[trigger] locals[i].chapter_checksums@[j], #[trigger] comics[i].chapters@[j].checksum),
    ensures
        wanted_chapters(name, chapters, sums).len() == 0,
    decreases chapters.len(),
{
    if chapters.len() > 0 {
        let j = chapters.len() - 1;
        assert(already_have(locals[n].chapter_checksums@[j], comics[n].chapters@[j].checksum));
        lemma_no_wanted_chapters(name, chapters.drop_last(), sums.drop_last(), n, comics, locals);
    }
}

} // verus!
