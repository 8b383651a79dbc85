//! Decisions of the chapter reader: which archive reader opens a chapter,
//! which archive entries are pages and in what order, the MIME type served
//! for a page, and which pages a prefetch window covers.

use vstd::prelude::*;
use crate::formats::{
    spec_archive_format, spec_ascii_lowercase, spec_image_format_of_path, spec_mime_type,
    to_ascii_lowercase, ArchiveFormat, ImageFileFormat,
};
use crate::natural_sort::{naturally_sorted, sort_natural, string_views};
use crate::paths::{extension, spec_extension};

verus! {

/// Pages the reader keeps decoded at once.
pub const DEFAULT_CACHE_CAPACITY: usize = 20;

/// Pages on each side of the current one that a prefetch loads by default.
pub const DEFAULT_PREFETCH_RADIUS: usize = 2;

/// Reader failures.
#[derive(Debug, PartialEq, Eq)]
pub enum ReaderError {
    /// The chapter file does not exist.
    NotFound(String),
    /// The archive could not be read.
    Archive(String),
    PageOutOfBounds { index: usize, total: usize },
    PageEntryMissing { index: usize, name: String },
    UnsupportedFormat(String),
    EmptyChapter(String),
    Image(String),
    ChapterNotOpen,
    SystemFailure(String),
}

/// The extension of `path`, lower-cased, or empty.
pub open spec fn lowered_extension(path: Seq<char>) -> Seq<char> {
    match spec_extension(path) {
        Some(e) => spec_ascii_lowercase(e),
        None => Seq::<char>::empty(),
    }
}

fn lowered_extension_exec(path: &str) -> (r: String)
    ensures
        r@ == lowered_extension(path@),
{
    match extension(path) {
        Some(e) => to_ascii_lowercase(e.as_str()),
        None => String::new(),
    }
}

/// Chooses the page reader for the chapter file at `path` (`exists`: whether
/// the file is on disk): CBZ and CBR are read, a missing file is refused by
/// its path, and any other extension (PDF among them) by its lower-cased
/// extension.
pub fn source_from_path(path: &str, exists: bool) -> (r: Result<ArchiveFormat, ReaderError>)
    ensures
        !exists ==> (r matches Err(ReaderError::NotFound(p)) && p@ == path@),
        exists && spec_archive_format(lowered_extension(path@)) == Some(ArchiveFormat::Cbz)
            ==> r == Ok::<ArchiveFormat, ReaderError>(ArchiveFormat::Cbz),
        exists && spec_archive_format(lowered_extension(path@)) == Some(ArchiveFormat::Cbr)
            ==> r == Ok::<ArchiveFormat, ReaderError>(ArchiveFormat::Cbr),
        exists && spec_archive_format(lowered_extension(path@)) != Some(ArchiveFormat::Cbz)
            && spec_archive_format(lowered_extension(path@)) != Some(ArchiveFormat::Cbr)
            ==> (r matches Err(ReaderError::UnsupportedFormat(e)) && e@ == lowered_extension(
            path@,
        )),
{
    if !exists {
        return Err(ReaderError::NotFound(path.to_string()));
    }
    let ext = lowered_extension_exec(path);
    match ArchiveFormat::from_extension(ext.as_str()) {
        Some(ArchiveFormat::Cbz) => Ok(ArchiveFormat::Cbz),
        Some(ArchiveFormat::Cbr) => Ok(ArchiveFormat::Cbr),
        _ => Err(ReaderError::UnsupportedFormat(ext)),
    }
}

/// Whether an archive entry name is a page image.
pub fn is_supported_page_image_name(name: &str) -> (r: bool)
    ensures
        r == spec_image_format_of_path(name@) is Some,
{
    ImageFileFormat::from_path(name).is_some()
}

/// Whether an archive entry path is a page image.
pub fn is_supported_page_image_path(path: &str) -> (r: bool)
    ensures
        r == spec_image_format_of_path(path@) is Some,
{
    ImageFileFormat::from_path(path).is_some()
}

/// The page count of a chapter with `len` pages; a chapter without pages is
/// refused, naming its file.
pub fn page_count_from_len(path: &str, len: usize) -> (r: Result<usize, ReaderError>)
    ensures
        len > 0 ==> r == Ok::<usize, ReaderError>(len),
        len == 0 ==> (r matches Err(ReaderError::EmptyChapter(p)) && p@ == path@),
{
    if len == 0 {
        Err(ReaderError::EmptyChapter(path.to_string()))
    } else {
        Ok(len)
    }
}

/// Puts archive entry names in natural page order.
pub fn sort_page_names(entries: &mut Vec<String>)
    ensures
        final(entries)@.to_multiset() == old(entries)@.to_multiset(),
        naturally_sorted(string_views(final(entries)@)),
{
    sort_natural(entries)
}

/// Puts archive entry paths in natural page order.
pub fn sort_page_paths(entries: &mut Vec<String>)
    ensures
        final(entries)@.to_multiset() == old(entries)@.to_multiset(),
        naturally_sorted(string_views(final(entries)@)),
{
    sort_natural(entries)
}

/// The MIME type of a page, by its name; a name that is not an image is
/// refused.
pub fn mime_type_for(name: &str) -> (r: Result<String, ReaderError>)
    ensures
        match spec_image_format_of_path(name@) {
            Some(f) => (r matches Ok(m) && m@ == spec_mime_type(f)),
            None => (r matches Err(ReaderError::Image(n)) && n@ == name@),
        },
{
    match ImageFileFormat::from_path(name) {
        Some(format) => Ok(format.mime_type().to_string()),
        None => Err(ReaderError::Image(name.to_string())),
    }
}

/// The pages `start ..= end` as a sequence.
pub open spec fn index_range(start: int, end: int) -> Seq<usize> {
    Seq::new(if end >= start { (end - start + 1) as nat } else { 0 }, |k: int| (start + k) as usize)
}

/// The pages within `radius` of `center`, clipped to `0 .. total`.
pub open spec fn spec_window(center: usize, total: usize, radius: usize) -> Seq<usize> {
    if total == 0 {
        Seq::<usize>::empty()
    } else {
        let start = if center >= radius { center - radius } else { 0 };
        let far = if center + radius <= usize::MAX { center + radius } else { usize::MAX as int };
        let end = if far <= total - 1 { far } else { total - 1 };
        index_range(start as int, end as int)
    }
}

/// Pages to prefetch around `center` in a chapter of `total` pages.
pub fn window_indices(center: usize, total: usize, radius: usize) -> (r: Vec<usize>)
    ensures
        r@ == spec_window(center, total, radius),
{
    let mut out: Vec<usize> = Vec::new();
    if total == 0 {
        assert(out@ =~= spec_window(center, total, radius));
        return out;
    }
    let start = center.saturating_sub(radius);
    let far = center.saturating_add(radius);
    let end = if far <= total - 1 {
        far
    } else {
        total - 1
    };
    let ghost expected = index_range(start as int, end as int);
    if start <= end {
        let mut i = start;
        while i <= end
            invariant
                start <= i,
                i <= end + 1,
                end < total,
                out@ == index_range(start as int, i as int - 1),
            decreases end + 1 - i,
        {
            out.push(i);
            i += 1;
            assert(out@ =~= index_range(start as int, i as int - 1));
        }
    }
    assert(out@ =~= expected);
    out
}

/// A page index is valid for a chapter of `total` pages.
pub fn ensure_index(index: usize, total: usize) -> (r: Result<(), ReaderError>)
    ensures
        index < total ==> r is Ok,
        index >= total ==> r == Err::<(), ReaderError>(
            ReaderError::PageOutOfBounds { index, total },
        ),
{
    if index >= total {
        return Err(ReaderError::PageOutOfBounds { index, total });
    }
    Ok(())
}

/// Every page of a prefetch window is a page of the chapter.
pub proof fn lemma_window_in_range(center: usize, total: usize, radius: usize)
    ensures
        forall|k: int| 0 <= k < spec_window(center, total, radius).len() ==> (#[trigger] spec_window(center, total, radius)[k]) < total,
{
}

} // verus!
