//! Decisions of the library scanner: how the files of a comic folder are
//! sorted into artwork, archives and PDFs, which folders are skipped or
//! re-processed, which PDFs still need converting, and the record a comic
//! folder becomes.

use vstd::prelude::*;
use crate::files_guard::{
    banner_stem, cover_stem, spec_archive, spec_artwork, spec_named_artwork, ArchiveFileGuard,
    ArtworkFileGuard, FileGuard, GuardOutcome,
};
use crate::formats::{spec_archive_format, ArchiveFormat};
use crate::library::ComicDirectory;
use crate::path_guard::{path_hash, spec_starts_with, starts_with};
use crate::paths::{extension, file_name, spec_extension, spec_file_name, spec_with_extension, with_extension};
use crate::text::str_eq;

verus! {

/// An artwork file named `cover`.
pub open spec fn spec_is_cover(p: Seq<char>) -> bool {
    spec_artwork(p) is Allowed && spec_named_artwork(p, cover_stem())
}

/// An artwork file named `banner`.
pub open spec fn spec_is_banner(p: Seq<char>) -> bool {
    spec_artwork(p) is Allowed && spec_named_artwork(p, banner_stem())
}

/// A CBZ or CBR archive.
pub open spec fn spec_is_archive(p: Seq<char>) -> bool {
    spec_archive(p) is Allowed
}

/// A PDF, by extension with ASCII case ignored.
pub open spec fn spec_is_pdf(p: Seq<char>) -> bool {
    match spec_extension(p) {
        Some(e) => spec_archive_format(e) == Some(ArchiveFormat::Pdf),
        None => false,
    }
}

/// Whether `path` is a PDF.
pub fn is_pdf(path: &str) -> (r: bool)
    ensures
        r == spec_is_pdf(path@),
{
    match extension(path) {
        Some(e) => match ArchiveFormat::from_extension(e.as_str()) {
            Some(ArchiveFormat::Pdf) => true,
            _ => false,
        },
        None => false,
    }
}

/// The files of a comic (or volume) folder, sorted by role.
#[derive(Debug, Clone, PartialEq, Eq)]
pub struct EntryFiles {
    /// The first `cover` artwork.
    pub cover: Option<String>,
    /// The first `banner` artwork.
    pub banner: Option<String>,
    /// Chapter archives, in folder order.
    pub archives: Vec<String>,
    /// PDFs to convert, in folder order.
    pub pdfs: Vec<String>,
}

/// The view of an `EntryFiles`.
pub open spec fn entry_view(e: EntryFiles) -> (
    Option<Seq<char>>,
    Option<Seq<char>>,
    Seq<Seq<char>>,
    Seq<Seq<char>>,
) {
    (
        match e.cover {
            Some(c) => Some(c@),
            None => None,
        },
        match e.banner {
            Some(b) => Some(b@),
            None => None,
        },
        e.archives@.map_values(|s: String| s@),
        e.pdfs@.map_values(|s: String| s@),
    )
}

/// Sorting of `files` in order: the first cover and the first banner are
/// taken as artwork; every other archive is a chapter and every other PDF
/// is to be converted; anything else is ignored.
pub open spec fn classify(files: Seq<Seq<char>>) -> (
    Option<Seq<char>>,
    Option<Seq<char>>,
    Seq<Seq<char>>,
    Seq<Seq<char>>,
)
    decreases files.len(),
{
    if files.len() == 0 {
        (None, None, Seq::empty(), Seq::empty())
    } else {
        let r = classify(files.drop_last());
        let f = files.last();
        if r.0 is None && spec_is_cover(f) {
            (Some(f), r.1, r.2, r.3)
        } else if r.1 is None && spec_is_banner(f) {
            (r.0, Some(f), r.2, r.3)
        } else if spec_is_archive(f) {
            (r.0, r.1, r.2.push(f), r.3)
        } else if spec_is_pdf(f) {
            (r.0, r.1, r.2, r.3.push(f))
        } else {
            r
        }
    }
}

/// Sorts the files of a folder by role.
pub fn classify_entry_files(files: Vec<String>) -> (r: EntryFiles)
    ensures
        entry_view(r) == classify(files@.map_values(|s: String| s@)),
{
    let artwork = ArtworkFileGuard;
    let archive = ArchiveFileGuard;
    let ghost all = files@.map_values(|s: String| s@);
    let mut rest = files;
    let mut out = EntryFiles { cover: None, banner: None, archives: Vec::new(), pdfs: Vec::new() };
    let ghost mut k: int = 0;
    assert(all.take(0) =~= Seq::<Seq<char>>::empty());
    assert(entry_view(out) == classify(all.take(0)));
    while rest.len() > 0
        invariant
            0 <= k <= all.len(),
            rest@.map_values(|s: String| s@) == all.skip(k),
            entry_view(out) == classify(all.take(k)),
        decreases rest.len(),
    {
        let ghost before = entry_view(out);
        let ghost rv = rest@;
        proof {
            assert(rv.map_values(|s: String| s@).len() == rv.len());
            assert(k < all.len());
            assert(rv.map_values(|s: String| s@)[0] == rv[0]@);
        }
        let f = rest.remove(0);
        proof {
            assert(f@ == all[k]) by {
                assert(rv.map_values(|s: String| s@)[0] == all.skip(k)[0]);
            }
            assert(all.take(k + 1).drop_last() =~= all.take(k));
            assert(all.take(k + 1).last() == f@);
            assert forall|j: int| 0 <= j < rest@.len() implies #[trigger] rest@[j]@ == all.skip(k + 1)[j] by {
                assert(rest@[j] == rv[j + 1]);
                assert(rv.map_values(|s: String| s@)[j + 1] == rv[j + 1]@);
            }
            assert(rest@.map_values(|s: String| s@) =~= all.skip(k + 1));
        }
        let is_cover = artwork.is_cover(f.as_str());
        let is_banner = artwork.is_banner(f.as_str());
        if out.cover.is_none() && is_cover {
            out.cover = Some(f);
        } else if out.banner.is_none() && is_banner {
            out.banner = Some(f);
        } else if archive.is_allowed(f.as_str()).is_ok() {
            out.archives.push(f);
            assert(out.archives@.map_values(|s: String| s@) =~= before.2.push(all[k]));
        } else if is_pdf(f.as_str()) {
            out.pdfs.push(f);
            assert(out.pdfs@.map_values(|s: String| s@) =~= before.3.push(all[k]));
        }
        proof {
            k = k + 1;
        }
    }
    assert(all.take(k) =~= all);
    out
}

/// A folder lies strictly inside one already taken as a comic.
pub open spec fn nested_in_processed(directory: Seq<char>, processed: Seq<Seq<char>>) -> bool {
    exists|i: int|
        0 <= i < processed.len() && spec_starts_with(directory, #[trigger] processed[i])
            && directory != processed[i]
}

/// Whether `directory` lies strictly inside a folder already taken as a
/// comic (it is then part of that comic, not a comic of its own).
pub fn is_nested_in_processed(directory: &str, processed: &Vec<String>) -> (r: bool)
    ensures
        r == nested_in_processed(directory@, processed@.map_values(|s: String| s@)),
{
    let ghost pv = processed@.map_values(|s: String| s@);
    let mut i: usize = 0;
    while i < processed.len()
        invariant
            i <= processed.len(),
            pv == processed@.map_values(|s: String| s@),
            forall|j: int|
                0 <= j < i ==> !(spec_starts_with(directory@, #[trigger] pv[j]) && directory@
                    != pv[j]),
        decreases processed.len() - i,
    {
        let p = processed[i].as_str();
        if starts_with(directory, p) && !str_eq(directory, p) {
            assert(pv[i as int] == p@);
            return true;
        }
        i += 1;
    }
    false
}

/// A known folder is processed again only when it changed on disk after it
/// was recorded; an unknown one always is.
pub open spec fn spec_needs_processing(recorded: Option<i64>, disk_modified: i64) -> bool {
    match recorded {
        Some(m) => m < disk_modified,
        None => true,
    }
}

/// Whether a folder must be processed in an incremental scan, given the
/// modification time recorded for it (if it is known) and the one on disk.
pub fn needs_processing(recorded: Option<i64>, disk_modified: i64) -> (r: bool)
    ensures
        r == spec_needs_processing(recorded, disk_modified),
{
    match recorded {
        Some(m) => m < disk_modified,
        None => true,
    }
}

/// The ids of the recorded comics whose folders were not found by the
/// scan, in record order.
pub open spec fn stale_ids(indexed: Seq<ComicDirectory>, discovered: Seq<Seq<char>>) -> Seq<i64> {
    indexed.filter(|c: ComicDirectory| !discovered.contains(c.path@)).map_values(
        |c: ComicDirectory| c.id,
    )
}

fn contains_str_vec(v: &Vec<String>, s: &str) -> (r: bool)
    ensures
        r == v@.map_values(|x: String| x@).contains(s@),
{
    let ghost vv = v@.map_values(|x: String| x@);
    let mut i: usize = 0;
    while i < v.len()
        invariant
            i <= v.len(),
            vv == v@.map_values(|x: String| x@),
            forall|j: int| 0 <= j < i ==> vv[j] != s@,
        decreases v.len() - i,
    {
        if str_eq(v[i].as_str(), s) {
            assert(vv[i as int] == s@);
            return true;
        }
        i += 1;
    }
    false
}

/// The recorded comics to delete because the scan no longer finds them.
pub fn stale_comic_ids(indexed: &Vec<ComicDirectory>, discovered: &Vec<String>) -> (r: Vec<i64>)
    ensures
        r@ == stale_ids(indexed@, discovered@.map_values(|s: String| s@)),
{
    let ghost dv = discovered@.map_values(|s: String| s@);
    let mut out: Vec<i64> = Vec::new();
    let mut i: usize = 0;
    while i < indexed.len()
        invariant
            i <= indexed.len(),
            dv == discovered@.map_values(|s: String| s@),
            out@ == stale_ids(indexed@.take(i as int), dv),
        decreases indexed.len() - i,
    {
        let ghost prev = indexed@.take(i as int).filter(|c: ComicDirectory| !dv.contains(c.path@));
        proof {
            assert(indexed@.take(i + 1).drop_last() =~= indexed@.take(i as int));
            reveal(Seq::filter);
        }
        if !contains_str_vec(discovered, indexed[i].path.as_str()) {
            out.push(indexed[i].id);
            assert(prev.push(indexed@[i as int]).map_values(|c: ComicDirectory| c.id) =~= prev.map_values(
                |c: ComicDirectory| c.id,
            ).push(indexed@[i as int].id));
        }
        i += 1;
    }
    assert(indexed@.take(i as int) =~= indexed@);
    out
}

/// The record of a comic folder found by the scan.
pub fn comic_from_entry(
    directory: &str,
    cover: Option<String>,
    banner: Option<String>,
    last_modified: i64,
    archive_template_fk: Option<i64>,
) -> (r: ComicDirectory)
    ensures
        r.id >= 0,
        r.name@ == (match spec_file_name(directory@) {
            Some(n) => n,
            None => "Unknown"@,
        }),
        r.path@ == directory@,
        r.cover == cover,
        r.banner == banner,
        r.last_modified == last_modified,
        r.archive_template_fk == archive_template_fk,
        r.external_sync_enabled,
        !r.hidden,
{
    let name = match file_name(directory) {
        Some(n) => n,
        None => "Unknown".to_string(),
    };
    ComicDirectory {
        id: path_hash(directory),
        name,
        path: directory.to_string(),
        cover,
        banner,
        last_modified,
        archive_template_fk,
        external_sync_enabled: true,
        hidden: false,
    }
}

/// Two paths that name the same file: equal component by component.
pub open spec fn same_path(a: Seq<char>, b: Seq<char>) -> bool {
    spec_starts_with(a, b) && spec_starts_with(b, a)
}

/// Whether `list` holds a path equal to `p`.
pub open spec fn holds_path(list: Seq<Seq<char>>, p: Seq<char>) -> bool {
    exists|j: int| 0 <= j < list.len() && same_path(#[trigger] list[j], p)
}

fn holds_path_exec(list: &Vec<String>, p: &str) -> (r: bool)
    ensures
        r == holds_path(list@.map_values(|s: String| s@), p@),
{
    let ghost lv = list@.map_values(|s: String| s@);
    let mut i: usize = 0;
    while i < list.len()
        invariant
            i <= list.len(),
            lv == list@.map_values(|s: String| s@),
            forall|j: int| 0 <= j < i ==> !same_path(#[trigger] lv[j], p@),
        decreases list.len() - i,
    {
        let q = list[i].as_str();
        if starts_with(q, p) && starts_with(p, q) {
            assert(same_path(lv[i as int], p@));
            return true;
        }
        i += 1;
    }
    false
}

/// The CBZ a PDF converts to: the same path with extension `cbz`.
pub open spec fn cbz_of(pdf: Seq<char>) -> Seq<char> {
    spec_with_extension(pdf, "cbz"@)
}

/// Which PDFs of a folder (by position) are already converted and which
/// must be converted. A PDF is left out when its CBZ is already among the
/// folder's archives or is the target of an earlier PDF; otherwise it is
/// already converted when its CBZ exists on disk (`exists[i]`). The last
/// component lists the targets claimed so far.
pub open spec fn conversion_plan(pdfs: Seq<Seq<char>>, existing: Seq<Seq<char>>, exists: Seq<bool>) -> (
    Seq<(int, Seq<char>)>,
    Seq<(int, Seq<char>)>,
    Seq<Seq<char>>,
)
    decreases pdfs.len(),
{
    if pdfs.len() == 0 {
        (Seq::empty(), Seq::empty(), Seq::empty())
    } else {
        let i = pdfs.len() - 1;
        let r = conversion_plan(pdfs.drop_last(), existing, exists.take(i));
        let cbz = cbz_of(pdfs[i]);
        if holds_path(existing, cbz) || holds_path(r.2, cbz) {
            r
        } else if exists[i] {
            (r.0.push((i, cbz)), r.1, r.2.push(cbz))
        } else {
            (r.0, r.1.push((i, pdfs[i])), r.2.push(cbz))
        }
    }
}

/// The view of a list of indexed paths.
pub open spec fn indexed_view(s: Seq<(usize, String)>) -> Seq<(int, Seq<char>)> {
    Seq::new(s.len(), |k: int| (s[k].0 as int, s[k].1@))
}

/// The PDFs of a folder split into already converted ones (as their CBZ)
/// and conversion jobs, each with its position among the PDFs.
pub struct ConversionPlan {
    pub pre_converted: Vec<(usize, String)>,
    pub jobs: Vec<(usize, String)>,
}

/// Plans the conversion of the PDFs of a folder; `cbz_exists[i]` says
/// whether the CBZ of the i-th PDF is already on disk.
pub fn plan_pdf_conversion(
    pdf_files: &Vec<String>,
    existing_archives: &Vec<String>,
    cbz_exists: &Vec<bool>,
) -> (r: ConversionPlan)
    requires
        cbz_exists.len() == pdf_files.len(),
    ensures
        ({
            let p = conversion_plan(
                pdf_files@.map_values(|s: String| s@),
                existing_archives@.map_values(|s: String| s@),
                cbz_exists@,
            );
            indexed_view(r.pre_converted@) == p.0 && indexed_view(r.jobs@) == p.1
        }),
{
    let ghost pv = pdf_files@.map_values(|s: String| s@);
    let ghost ev = existing_archives@.map_values(|s: String| s@);
    let mut pre: Vec<(usize, String)> = Vec::new();
    let mut jobs: Vec<(usize, String)> = Vec::new();
    let mut seen: Vec<String> = Vec::new();
    let mut i: usize = 0;
    while i < pdf_files.len()
        invariant
            i <= pdf_files.len(),
            cbz_exists.len() == pdf_files.len(),
            pv == pdf_files@.map_values(|s: String| s@),
            ev == existing_archives@.map_values(|s: String| s@),
            ({
                let p = conversion_plan(pv.take(i as int), ev, cbz_exists@.take(i as int));
                indexed_view(pre@) == p.0 && indexed_view(jobs@) == p.1 && seen@.map_values(
                    |s: String| s@,
                ) == p.2
            }),
        decreases pdf_files.len() - i,
    {
        proof {
            assert(pv.take(i + 1).drop_last() =~= pv.take(i as int));
            assert(cbz_exists@.take(i + 1).take(i as int) =~= cbz_exists@.take(i as int));
            assert(pv.take(i + 1)[i as int] == pdf_files@[i as int]@);
        }
        let cbz = with_extension(pdf_files[i].as_str(), "cbz");
        if holds_path_exec(existing_archives, cbz.as_str()) || holds_path_exec(&seen, cbz.as_str()) {
        } else if cbz_exists[i] {
            let ghost old_pre = indexed_view(pre@);
            let ghost old_seen = seen@.map_values(|s: String| s@);
            seen.push(cbz.clone());
            pre.push((i, cbz));
            assert(indexed_view(pre@) =~= old_pre.push((i as int, cbz_of(pv[i as int]))));
            assert(seen@.map_values(|s: String| s@) =~= old_seen.push(cbz_of(pv[i as int])));
        } else {
            let ghost old_jobs = indexed_view(jobs@);
            let ghost old_seen = seen@.map_values(|s: String| s@);
            seen.push(cbz);
            jobs.push((i, pdf_files[i].clone()));
            assert(indexed_view(jobs@) =~= old_jobs.push((i as int, pv[i as int])));
            assert(seen@.map_values(|s: String| s@) =~= old_seen.push(cbz_of(pv[i as int])));
        }
        i += 1;
    }
    assert(pv.take(i as int) =~= pv);
    assert(cbz_exists@.take(i as int) =~= cbz_exists@);
    ConversionPlan { pre_converted: pre, jobs }
}

/// The indices of `s` never decrease.
pub open spec fn sorted_by_index(s: Seq<(usize, String)>) -> bool {
    forall|a: int, b: int| 0 <= a < b < s.len() ==> (#[trigger] s[a]).0 <= (#[trigger] s[b]).0
}

/// The archives a folder ends up with after conversion: the CBZs that were
/// already there and those converted successfully, in the order of their
/// PDFs.
pub fn merge_conversion_results(
    pre_converted: Vec<(usize, String)>,
    results: Vec<(usize, Option<String>)>,
) -> (r: Vec<(usize, String)>)
    ensures
        sorted_by_index(r@),
        r@.to_multiset() == (pre_converted@ + results@.filter(
            |x: (usize, Option<String>)| x.1 is Some,
        ).map_values(|x: (usize, Option<String>)| (x.0, x.1.unwrap()))).to_multiset(),
{
    let ghost converted = results@.filter(|x: (usize, Option<String>)| x.1 is Some).map_values(
        |x: (usize, Option<String>)| (x.0, x.1.unwrap()),
    );
    let ghost input = pre_converted@ + converted;
    let mut all: Vec<(usize, String)> = pre_converted;
    let mut rest = results;
    let ghost orig = rest@;
    let ghost mut k: int = 0;
    let ghost pre_view = all@;
    while rest.len() > 0
        invariant
            0 <= k <= orig.len(),
            rest@ == orig.skip(k),
            all@ == pre_view + orig.take(k).filter(|x: (usize, Option<String>)| x.1 is Some).map_values(
                |x: (usize, Option<String>)| (x.0, x.1.unwrap()),
            ),
        decreases rest.len(),
    {
        let ghost prev = orig.take(k).filter(|x: (usize, Option<String>)| x.1 is Some);
        let item = rest.remove(0);
        proof {
            assert(item == orig[k]);
            assert(orig.take(k + 1).drop_last() =~= orig.take(k));
            assert(rest@ =~= orig.skip(k + 1));
            reveal(Seq::filter);
        }
        let (index, path) = item;
        match path {
            Some(p) => {
                let ghost old_all = all@;
                all.push((index, p));
                assert(prev.push(orig[k]).map_values(|x: (usize, Option<String>)| (x.0, x.1.unwrap()))
                    =~= prev.map_values(|x: (usize, Option<String>)| (x.0, x.1.unwrap())).push(
                    (orig[k].0, orig[k].1.unwrap()),
                ));
                assert(all@ =~= pre_view + orig.take(k + 1).filter(
                    |x: (usize, Option<String>)| x.1 is Some,
                ).map_values(|x: (usize, Option<String>)| (x.0, x.1.unwrap())));
            },
            None => {},
        }
        proof {
            k = k + 1;
        }
    }
    assert(orig.take(k) =~= orig);
    sort_by_index(&mut all);
    all
}

/// Sorts indexed paths by index (stable).
pub fn sort_by_index(items: &mut Vec<(usize, String)>)
    ensures
        final(items)@.to_multiset() == old(items)@.to_multiset(),
        sorted_by_index(final(items)@),
{
    let mut src = Vec::new();
    std::mem::swap(items, &mut src);
    let ghost orig = src@;
    let ghost mut k: int = 0;
    assert(items@ =~= orig.take(0));
    while src.len() > 0
        invariant
            0 <= k <= orig.len(),
            src@ == orig.skip(k),
            items@.to_multiset() == orig.take(k).to_multiset(),
            sorted_by_index(items@),
        decreases src.len(),
    {
        let item = src.remove(0);
        proof {
            assert(item == orig[k]);
            assert(src@ =~= orig.skip(k + 1));
        }
        let mut p: usize = 0;
        while p < items.len() && items[p].0 <= item.0
            invariant
                p <= items.len(),
                forall|q: int| 0 <= q < p ==> (#[trigger] items@[q]).0 <= item.0,
            decreases items.len() - p,
        {
            p += 1;
        }
        let ghost old_items = items@;
        items.insert(p, item);
        proof {
            assert(orig.take(k + 1) =~= orig.take(k).push(orig[k]));
            vstd::seq_lib::to_multiset_build(orig.take(k), orig[k]);
            vstd::seq_lib::to_multiset_insert(old_items, p as int, orig[k]);
            assert forall|a: int, b: int| 0 <= a < b < items.len() implies (#[trigger] items@[a]).0
                <= (#[trigger] items@[b]).0 by {
                if b < p {
                    assert(items@[a] == old_items[a]);
                    assert(items@[b] == old_items[b]);
                } else if b == p {
                    assert(items@[a] == old_items[a]);
                } else if a < p {
                    assert(items@[a] == old_items[a]);
                    assert(items@[b] == old_items[b - 1]);
                    if p < old_items.len() {
                        assert(old_items[a].0 <= old_items[p as int].0);
                    }
                } else if a == p {
                    assert(items@[b] == old_items[b - 1]);
                } else {
                    assert(items@[a] == old_items[a - 1]);
                    assert(items@[b] == old_items[b - 1]);
                }
            }
            k = k + 1;
        }
    }
    assert(orig.take(k) =~= orig);
}

/// Whether a scanned folder becomes a comic: it must hold at least one
/// chapter archive (PDFs counted once converted) or one volume folder that
/// a naming template recognises; otherwise it is not indexed.
pub fn folder_is_comic(chapter_files: usize, volume_folders: usize) -> (r: bool)
    ensures
        r == (chapter_files > 0 || volume_folders > 0),
{
    chapter_files > 0 || volume_folders > 0
}

} // verus!
