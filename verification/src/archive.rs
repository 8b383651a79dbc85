//! Reading chapter archives held in memory: listing the pages of a CBZ,
//! picking its first page, and reading one page.

use vstd::prelude::*;
use std::io::{Cursor, Read};
use crate::files_guard::{outcome_of, spec_archive, spec_metadata, ArchiveFileGuard, FileGuard, MetadataFileGuard};
use crate::formats::{
    spec_archive_format, spec_ascii_lowercase, spec_image_format_of_path, to_ascii_lowercase,
    ArchiveFormat, ImageFileFormat,
};
use crate::natural_sort::{naturally_sorted, sort_natural, string_views};
use crate::paths::{extension, spec_extension};
use crate::security::ComicError;
use crate::text::concat;

verus! {

/// The number of entries of the ZIP archive `data`, as the `zip` crate
/// reads it; `None` when it cannot be opened.
pub uninterp spec fn zip_entry_count(data: Seq<u8>) -> Option<nat>;

/// The name of entry `index` of the ZIP archive `data` and whether it is a
/// regular file; `None` when it cannot be read.
pub uninterp spec fn zip_entry_info(data: Seq<u8>, index: nat) -> Option<(Seq<char>, bool)>;

/// The contents of the entry named `name` of the ZIP archive `data`;
/// `None` when there is no such entry or it cannot be read.
pub uninterp spec fn zip_entry_contents(data: Seq<u8>, name: Seq<char>) -> Option<Seq<u8>>;

/// The text of entry `index` of the ZIP archive `data`, read as UTF-8;
/// `None` when the archive, the entry or its text cannot be read.
pub uninterp spec fn zip_entry_text(data: Seq<u8>, index: nat) -> Option<Seq<char>>;

/// Why reading a ZIP entry failed.
#[derive(Debug, Clone, PartialEq, Eq)]
pub enum ZipReadError {
    /// The archive has no entry of that name.
    NotFound,
    /// Any other failure, with the crate's text.
    Other(String),
}

/// `ZipArchive::new` on the bytes, then `len`. The contract names the
/// count (a function of the bytes); the error text is not stated.
#[verifier::external_body]
fn zip_count(data: &[u8]) -> (r: Result<usize, String>)
    ensures
        match r {
            Ok(n) => zip_entry_count(data@) == Some(n as nat),
            Err(_) => zip_entry_count(data@) is None,
        },
{
    match zip::ZipArchive::new(Cursor::new(data)) {
        Ok(archive) => Ok(archive.len()),
        Err(e) => Err(e.to_string()),
    }
}

/// `ZipArchive::by_index`, then the entry's `name` and `is_file`. The
/// contract names the result; the error text is not stated.
#[verifier::external_body]
fn zip_info(data: &[u8], index: usize) -> (r: Result<(String, bool), String>)
    ensures
        match r {
            Ok(v) => zip_entry_info(data@, index as nat) == Some((v.0@, v.1)),
            Err(_) => zip_entry_info(data@, index as nat) is None,
        },
{
    let mut archive = zip::ZipArchive::new(Cursor::new(data)).map_err(|e| e.to_string())?;
    let entry = archive.by_index(index).map_err(|e| e.to_string())?;
    let name = entry.name().map_err(|e| e.to_string())?.to_string();
    Ok((name, entry.is_file()))
}

/// `ZipArchive::by_name`, then `read_to_end`. The contract names the
/// contents; which failure a missing entry gives (`NotFound` for the
/// crate's `FileNotFound`) is not stated.
#[verifier::external_body]
pub(crate) fn zip_read(data: &[u8], name: &str) -> (r: Result<Vec<u8>, ZipReadError>)
    ensures
        match r {
            Ok(b) => zip_entry_contents(data@, name@) == Some(b@),
            Err(_) => zip_entry_contents(data@, name@) is None,
        },
{
    let mut archive = zip::ZipArchive::new(Cursor::new(data)).map_err(|e| ZipReadError::Other(e.to_string()))?;
    let mut entry = match archive.by_name(name) {
        Ok(entry) => entry,
        Err(zip::result::ZipError::FileNotFound) => return Err(ZipReadError::NotFound),
        Err(e) => return Err(ZipReadError::Other(e.to_string())),
    };
    let mut bytes = Vec::new();
    entry.read_to_end(&mut bytes).map_err(|e| ZipReadError::Other(e.to_string()))?;
    Ok(bytes)
}

/// `ZipArchive::by_index`, then `read_to_string`. The contract names the
/// text read (a function of the bytes and the index); any failure gives
/// `None`.
#[verifier::external_body]
fn zip_text(data: &[u8], index: usize) -> (r: Option<String>)
    ensures
        match r {
            Some(t) => zip_entry_text(data@, index as nat) == Some(t@),
            None => zip_entry_text(data@, index as nat) is None,
        },
{
    let mut archive = zip::ZipArchive::new(Cursor::new(data)).ok()?;
    let mut entry = archive.by_index(index).ok()?;
    let mut content = String::new();
    entry.read_to_string(&mut content).ok()?;
    Some(content)
}

/// The view of an archive listing.
pub open spec fn listing_view(v: Seq<(String, bool)>) -> Seq<(Seq<char>, bool)> {
    Seq::new(v.len(), |i: int| (v[i].0@, v[i].1))
}

/// The page images among the first `n` entries of an archive listing, in
/// archive order: regular files whose name is a supported image.
pub open spec fn image_entries(listing: Seq<(Seq<char>, bool)>) -> Seq<Seq<char>> {
    listing.filter(|e: (Seq<char>, bool)| e.1 && spec_image_format_of_path(e.0) is Some).map_values(
        |e: (Seq<char>, bool)| e.0,
    )
}

/// The listing of a ZIP archive, when every entry can be read.
pub open spec fn zip_listing(data: Seq<u8>) -> Option<Seq<(Seq<char>, bool)>> {
    match zip_entry_count(data) {
        Some(n) => if forall|i: nat| i < n ==> (#[trigger] zip_entry_info(data, i)) is Some {
            Some(Seq::new(n, |i: int| zip_entry_info(data, i as nat).unwrap()))
        } else {
            None
        },
        None => None,
    }
}

/// Keeps the page images of an archive listing, in archive order.
pub fn page_entries(listing: Vec<(String, bool)>) -> (r: Vec<String>)
    ensures
        string_views(r@) == image_entries(
            listing_view(listing@),
        ),
{
    let ghost all = listing_view(listing@);
    let mut rest = listing;
    let mut out: Vec<String> = Vec::new();
    let ghost mut k: int = 0;
    while rest.len() > 0
        invariant
            0 <= k <= all.len(),
            listing_view(rest@) == all.skip(k),
            string_views(out@) == image_entries(all.take(k)),
        decreases rest.len(),
    {
        let ghost rv = rest@;
        proof {
            assert(listing_view(rv).len() == rv.len());
            assert(listing_view(rv)[0] == all[k]);
        }
        let (name, is_file) = rest.remove(0);
        let ghost prev = all.take(k).filter(
            |e: (Seq<char>, bool)| e.1 && spec_image_format_of_path(e.0) is Some,
        );
        proof {
            assert(all.take(k + 1).drop_last() =~= all.take(k));
            assert forall|j: int| 0 <= j < rest@.len() implies #[trigger] listing_view(rest@)[j] == all.skip(k + 1)[j] by {
                assert(rest@[j] == rv[j + 1]);
                assert(listing_view(rv)[j + 1] == (rv[j + 1].0@, rv[j + 1].1));
            }
            assert(listing_view(rest@) =~= all.skip(k + 1));
            reveal(Seq::filter);
        }
        let keep = is_file && ImageFileFormat::from_path(name.as_str()).is_some();
        if keep {
            let ghost old_out = string_views(out@);
            out.push(name);
            assert(string_views(out@) =~= old_out.push(all[k].0));
            assert(prev.push(all[k]).map_values(|e: (Seq<char>, bool)| e.0) =~= prev.map_values(
                |e: (Seq<char>, bool)| e.0,
            ).push(all[k].0));
        }
        proof {
            k = k + 1;
        }
    }
    assert(all.take(k) =~= all);
    out
}

/// Lists the entries of the ZIP archive `data`: each name and whether it is
/// a regular file; an unreadable archive or entry is refused with the
/// crate's text.
pub fn list_zip(data: &[u8]) -> (r: Result<Vec<(String, bool)>, String>)
    ensures
        r matches Ok(v) ==> zip_listing(data@) == Some(listing_view(v@)),
        r is Err <==> zip_listing(data@) is None,
{
    let n = zip_count(data)?;
    let mut out: Vec<(String, bool)> = Vec::new();
    let mut i: usize = 0;
    while i < n
        invariant
            i <= n,
            zip_entry_count(data@) == Some(n as nat),
            out.len() == i,
            forall|j: int| 0 <= j < i ==> zip_entry_info(data@, j as nat) == Some(((#[trigger] out@[j]).0@, out@[j].1)),
        decreases n - i,
    {
        let e = match zip_info(data, i) {
            Ok(e) => e,
            Err(t) => {
                assert(zip_entry_info(data@, i as nat) is None);
                return Err(t);
            },
        };
        out.push(e);
        i += 1;
    }
    assert(forall|j: nat| j < n ==> (#[trigger] zip_entry_info(data@, j)) is Some) by {
        assert forall|j: nat| j < n implies (#[trigger] zip_entry_info(data@, j)) is Some by {
            assert(zip_entry_info(data@, j as int as nat) == Some((out@[j as int].0@, out@[j as int].1)));
        }
    }
    assert(listing_view(out@) =~= Seq::new(
        n as nat,
        |j: int| zip_entry_info(data@, j as nat).unwrap(),
    ));
    Ok(out)
}

/// The first page of a listing: the page images in natural order, first
/// one; refused when the archive has no image pages (`empty_message`).
pub fn first_page_name(listing: Vec<(String, bool)>, empty_message: &str) -> (r: Result<(String, ImageFileFormat), ComicError>)
    ensures
        image_entries(listing_view(listing@)).len() == 0 ==> (r matches Err(ComicError::SystemFailure(m)) && m@ == empty_message@),
        r matches Ok(p) ==> image_entries(listing_view(listing@)).contains(p.0@)
            && spec_image_format_of_path(p.0@) == Some(p.1)
            && forall|k: int| 0 <= k < image_entries(listing_view(listing@)).len()
                ==> !crate::natural_sort::natural_lt(#[trigger] image_entries(listing_view(listing@))[k], p.0@),
        image_entries(listing_view(listing@)).len() > 0 ==> r is Ok,
{
    let ghost images = image_entries(listing_view(listing@));
    let mut names = page_entries(listing);
    let ghost before = names@;
    sort_natural(&mut names);
    if names.len() == 0 {
        proof {
            vstd::seq_lib::to_multiset_len(names@);
            vstd::seq_lib::to_multiset_len(before);
        }
        return Err(ComicError::SystemFailure(empty_message.to_string()));
    }
    let first = names[0].clone();
    proof {
        vstd::seq_lib::to_multiset_len(names@);
        vstd::seq_lib::to_multiset_len(before);
        assert(names@.to_multiset().count(names@[0]) > 0) by {
            vstd::seq_lib::to_multiset_contains(names@, names@[0]);
        }
        vstd::seq_lib::to_multiset_contains(before, names@[0]);
        let w = choose|w: int| 0 <= w < before.len() && before[w] == names@[0];
        assert(string_views(before)[w] == images[w]);
        assert forall|k: int| 0 <= k < images.len() implies !crate::natural_sort::natural_lt(#[trigger] images[k], first@) by {
            assert(images[k] == string_views(before)[k]);
            assert(before.contains(before[k]));
            vstd::seq_lib::to_multiset_contains(before, before[k]);
            vstd::seq_lib::to_multiset_contains(names@, before[k]);
            let q = choose|q: int| 0 <= q < names@.len() && names@[q] == before[k];
            assert(string_views(names@)[q] == before[k]@);
            if q > 0 {
                assert(!crate::natural_sort::natural_lt(string_views(names@)[q], string_views(names@)[0]));
            } else {
                crate::natural_sort::lemma_lex_irreflexive(crate::natural_sort::natural_key_of(first@));
            }
        }
        assert(images[w] == first@);
    }
    match ImageFileFormat::from_path(first.as_str()) {
        Some(format) => Ok((first, format)),
        None => {
            proof {
                assert(spec_image_format_of_path(first@) is Some) by {
                    let w = choose|w: int| 0 <= w < images.len() && images[w] == first@;
                    lemma_image_entries_are_images(listing_view(listing@), w);
                }
            }
            Err(ComicError::SystemFailure("Unsupported page image format".to_string()))
        },
    }
}

proof fn lemma_image_entries_are_images(listing: Seq<(Seq<char>, bool)>, w: int)
    requires
        0 <= w < image_entries(listing).len(),
    ensures
        spec_image_format_of_path(image_entries(listing)[w]) is Some,
{
    broadcast use vstd::seq_lib::group_filter_ensures;
    let f = listing.filter(|e: (Seq<char>, bool)| e.1 && spec_image_format_of_path(e.0) is Some);
    assert(image_entries(listing)[w] == f[w].0);
}

/// The text the crate gives for a missing entry.
pub const ENTRY_NOT_FOUND_TEXT: &'static str = "specified file not found in archive";

/// The bytes of the entry `name` of the ZIP archive `data`, failures as
/// `SystemFailure` with the crate's text.
pub fn read_zip_entry(data: &[u8], name: &str) -> (r: Result<Vec<u8>, ComicError>)
    ensures
        match r {
            Ok(b) => zip_entry_contents(data@, name@) == Some(b@),
            Err(e) => zip_entry_contents(data@, name@) is None && e is SystemFailure,
        },
{
    match zip_read(data, name) {
        Ok(b) => Ok(b),
        Err(ZipReadError::NotFound) => Err(ComicError::SystemFailure(ENTRY_NOT_FOUND_TEXT.to_string())),
        Err(ZipReadError::Other(t)) => Err(ComicError::SystemFailure(t)),
    }
}

/// The first page of a CBZ held in `data`: the first page image in natural
/// order and its format.
pub fn extract_first_page_cbz(data: &[u8]) -> (r: Result<(Vec<u8>, ImageFileFormat), ComicError>)
    ensures
        zip_listing(data@) is None ==> r is Err,
        zip_listing(data@) matches Some(l) && image_entries(l).len() == 0 ==> (r matches Err(ComicError::SystemFailure(m)) && m@ == "CBZ has no image pages"@),
        zip_listing(data@) matches Some(l) && image_entries(l).len() > 0 && first_page_readable(data@, l) ==> r is Ok,
        r matches Ok(p) ==> extract_first_page_cbz_ok(data@, p.0@, p.1),
{
    let listing = match list_zip(data) {
        Ok(l) => l,
        Err(t) => return Err(ComicError::SystemFailure(t)),
    };
    let ghost l = listing_view(listing@);
    let (name, format) = first_page_name(listing, "CBZ has no image pages")?;
    assert(is_first_page(l, name@, format));
    let bytes = read_zip_entry(data, name.as_str())?;
    assert(zip_entry_contents(data@, name@) == Some(bytes@));
    assert(is_first_page(l, name@, format));
    Ok((bytes, format))
}

/// What reading the first page of an archive gave.
#[derive(Debug, Clone, PartialEq, Eq)]
pub enum FirstPage {
    /// The page's bytes and format.
    Page(Vec<u8>, ImageFileFormat),
    /// The archive is a CBR: its listing and pages are read by the RAR
    /// reader, and `first_page_name` picks the page.
    RarArchive,
}

/// The lower-cased extension of a path, or empty.
pub open spec fn lowered_ext(path: Seq<char>) -> Seq<char> {
    match spec_extension(path) {
        Some(e) => spec_ascii_lowercase(e),
        None => Seq::empty(),
    }
}

/// The first page of the archive at `archive_path`, whose contents are
/// `data`: CBZ pages are read here, a CBR is handed to the RAR reader, and
/// any other extension is refused naming it.
pub fn extract_first_page(archive_path: &str, data: &[u8]) -> (r: Result<FirstPage, ComicError>)
    ensures
        spec_archive_format(lowered_ext(archive_path@)) == Some(ArchiveFormat::Cbr) ==> r == Ok::<FirstPage, ComicError>(FirstPage::RarArchive),
        spec_archive_format(lowered_ext(archive_path@)) == Some(ArchiveFormat::Cbz) ==> match r {
            Ok(FirstPage::Page(b, f)) => extract_first_page_cbz_ok(data@, b@, f),
            Ok(FirstPage::RarArchive) => false,
            Err(_) => true,
        },
        spec_archive_format(lowered_ext(archive_path@)) == Some(ArchiveFormat::Cbz) ==> (zip_listing(data@) is None
            ==> r is Err),
        spec_archive_format(lowered_ext(archive_path@)) == Some(ArchiveFormat::Cbz) ==> (zip_listing(data@) matches Some(l)
            && image_entries(l).len() == 0 ==> (r matches Err(ComicError::SystemFailure(m)) && m@ == "CBZ has no image pages"@)),
        spec_archive_format(lowered_ext(archive_path@)) == Some(ArchiveFormat::Cbz) ==> (zip_listing(data@) matches Some(l)
            && image_entries(l).len() > 0 && first_page_readable(data@, l) ==> r is Ok),
        spec_archive_format(lowered_ext(archive_path@)) != Some(ArchiveFormat::Cbz)
            && spec_archive_format(lowered_ext(archive_path@)) != Some(ArchiveFormat::Cbr)
            ==> (r matches Err(ComicError::SystemFailure(m)) && m@ == "Unsupported archive format for cover extraction: "@ + lowered_ext(archive_path@)),
{
    let ext = match extension(archive_path) {
        Some(e) => to_ascii_lowercase(e.as_str()),
        None => String::new(),
    };
    match ArchiveFormat::from_extension(ext.as_str()) {
        Some(ArchiveFormat::Cbz) => {
            match extract_first_page_cbz(data) {
                Ok((b, f)) => Ok(FirstPage::Page(b, f)),
                Err(e) => Err(e),
            }
        },
        Some(ArchiveFormat::Cbr) => Ok(FirstPage::RarArchive),
        _ => Err(ComicError::SystemFailure(concat("Unsupported archive format for cover extraction: ", ext.as_str()))),
    }
}

/// Every entry that can be the first page of `listing` can be read from
/// the ZIP archive `data`.
pub open spec fn first_page_readable(data: Seq<u8>, listing: Seq<(Seq<char>, bool)>) -> bool {
    forall|name: Seq<char>, f: ImageFileFormat| #[trigger] is_first_page(listing, name, f)
        ==> zip_entry_contents(data, name) is Some
}

/// `bytes` in format `f` are the first page of the CBZ `data`.
pub open spec fn extract_first_page_cbz_ok(data: Seq<u8>, bytes: Seq<u8>, f: ImageFileFormat) -> bool {
    exists|name: Seq<char>|
        #[trigger] zip_entry_contents(data, name) == Some(bytes) && match zip_listing(data) {
            Some(l) => is_first_page(l, name, f),
            None => false,
        }
}

/// `name` is the first page image of `listing` in natural order, of format
/// `f`.
pub open spec fn is_first_page(listing: Seq<(Seq<char>, bool)>, name: Seq<char>, f: ImageFileFormat) -> bool {
    &&& image_entries(listing).contains(name)
    &&& spec_image_format_of_path(name) == Some(f)
    &&& forall|k: int| 0 <= k < image_entries(listing).len() ==> !crate::natural_sort::natural_lt(#[trigger] image_entries(listing)[k], name)
}

/// Entry `i` of the ZIP archive `data` is a readable `ComicInfo.xml`.
pub open spec fn holds_comic_info(data: Seq<u8>, i: nat) -> bool {
    &&& zip_entry_info(data, i) matches Some(e)
    &&& spec_metadata(e.0) is Allowed
    &&& zip_entry_text(data, i) is Some
}

/// The text of the first readable `ComicInfo.xml` among entries `i..n`.
pub open spec fn comic_info_from(data: Seq<u8>, i: nat, n: nat) -> Option<Seq<char>>
    decreases n - i,
{
    if i >= n {
        None
    } else if holds_comic_info(data, i) {
        zip_entry_text(data, i)
    } else {
        comic_info_from(data, i + 1, n)
    }
}

/// The text of the first readable `ComicInfo.xml` of the ZIP archive
/// `data`, in archive order; `None` when the archive cannot be opened or
/// has none.
pub open spec fn archive_comic_info(data: Seq<u8>) -> Option<Seq<char>> {
    match zip_entry_count(data) {
        Some(n) => comic_info_from(data, 0, n),
        None => None,
    }
}

/// Finds the `ComicInfo.xml` inside a chapter archive held in `data`: the
/// first entry, in archive order, whose name the metadata guard accepts and
/// whose text can be read. Entries that cannot be read are passed over.
pub fn comic_info_in_archive(data: &[u8]) -> (r: Option<String>)
    ensures
        match r {
            Some(t) => archive_comic_info(data@) == Some(t@),
            None => archive_comic_info(data@) is None,
        },
{
    let n = match zip_count(data) {
        Ok(n) => n,
        Err(_) => return None,
    };
    let guard = MetadataFileGuard;
    let mut i: usize = 0;
    while i < n
        invariant
            i <= n,
            zip_entry_count(data@) == Some(n as nat),
            comic_info_from(data@, i as nat, n as nat) == archive_comic_info(data@),
        decreases n - i,
    {
        if let Ok((name, _)) = zip_info(data, i) {
            let allowed = guard.is_allowed(name.as_str());
            if allowed.is_ok() {
                assert(spec_metadata(name@) is Allowed);
                if let Some(t) = zip_text(data, i) {
                    return Some(t);
                }
            } else {
                assert(outcome_of(allowed) !is Allowed);
            }
        }
        i += 1;
    }
    None
}

/// Where a comic folder's `ComicInfo.xml` is looked for, given the files of
/// the folder in listing order: the first loose file that the metadata
/// guard accepts, if any.
pub fn loose_comic_info_file(files: &Vec<String>) -> (r: Option<usize>)
    ensures
        r matches Some(i) ==> i < files.len() && spec_metadata(files@[i as int]@) is Allowed
            && forall|j: int| 0 <= j < i ==> !(spec_metadata((#[trigger] files@[j])@) is Allowed),
        r is None ==> forall|j: int| 0 <= j < files.len() ==> !(spec_metadata((#[trigger] files@[j])@) is Allowed),
{
    let guard = MetadataFileGuard;
    let mut i: usize = 0;
    while i < files.len()
        invariant
            i <= files.len(),
            forall|j: int| 0 <= j < i ==> !(spec_metadata((#[trigger] files@[j])@) is Allowed),
        decreases files.len() - i,
    {
        let allowed = guard.is_allowed(files[i].as_str());
        if allowed.is_ok() {
            return Some(i);
        }
        assert(outcome_of(allowed) !is Allowed);
        i += 1;
    }
    None
}

/// The chapter archives of a comic folder, given its files in listing
/// order: the positions of the files that the archive guard accepts, in
/// that order. Their `ComicInfo.xml` is looked for when there is no loose
/// one.
pub fn archive_files(files: &Vec<String>) -> (r: Vec<usize>)
    ensures
        forall|a: int, b: int| 0 <= a < b < r.len() ==> r@[a] < r@[b],
        forall|a: int| 0 <= a < r.len() ==> (#[trigger] r@[a]) < files.len() && spec_archive(files@[r@[a] as int]@) is Allowed,
        forall|k: int| 0 <= k < files.len() && spec_archive((#[trigger] files@[k])@) is Allowed ==> r@.contains(k as usize),
{
    let guard = ArchiveFileGuard;
    let mut out: Vec<usize> = Vec::new();
    let mut i: usize = 0;
    while i < files.len()
        invariant
            i <= files.len(),
            forall|a: int, b: int| 0 <= a < b < out.len() ==> out@[a] < out@[b],
            forall|a: int| 0 <= a < out.len() ==> (#[trigger] out@[a]) < i && spec_archive(files@[out@[a] as int]@) is Allowed,
            forall|k: int| 0 <= k < i && spec_archive((#[trigger] files@[k])@) is Allowed ==> out@.contains(k as usize),
        decreases files.len() - i,
    {
        let allowed = guard.is_allowed(files[i].as_str());
        if allowed.is_ok() {
            let ghost before = out@;
            out.push(i);
            proof {
                assert forall|k: int| 0 <= k < i + 1 && spec_archive((#[trigger] files@[k])@) is Allowed implies out@.contains(k as usize) by {
                    if k < i {
                        let w = choose|w: int| 0 <= w < before.len() && before[w] == k as usize;
                        assert(out@[w] == k as usize);
                    } else {
                        assert(out@[before.len() as int] == k as usize);
                    }
                }
            }
        } else {
            assert(outcome_of(allowed) !is Allowed);
        }
        i += 1;
    }
    out
}

} // verus!
