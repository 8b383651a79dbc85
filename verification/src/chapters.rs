//! Indexing one chapter file, and the pure parts of turning a PDF into a
//! CBZ: where the archive goes, how its pages are named, and the pixel
//! layout handed to the JPEG encoder.

use vstd::prelude::*;
use crate::chapter_archive::{first_digit_from, spec_fallback_sort, spec_format_sort, ChapterArchive};
use crate::path_guard::path_hash;
use crate::paths::{file_name, file_stem, spec_file_name, spec_file_stem, spec_with_extension, with_extension};
use crate::security::ComicError;
use crate::text::{decimal, decimal_chars, string_of, concat};

verus! {

/// A chapter already indexed is left alone when its file did not change
/// since and it has a checksum.
pub open spec fn spec_up_to_date(existing: Option<(i64, bool)>, file_modified: i64) -> bool {
    match existing {
        Some((m, has_checksum)) => m == file_modified && has_checksum,
        None => false,
    }
}

/// Whether an indexed chapter (its recorded modification time and whether
/// it has a checksum) can be skipped.
pub fn chapter_up_to_date(existing: Option<(i64, bool)>, file_modified: i64) -> (r: bool)
    ensures
        r == spec_up_to_date(existing, file_modified),
{
    match existing {
        Some((m, has_checksum)) => m == file_modified && has_checksum,
        None => false,
    }
}

/// The chapter label of a file: its stem, or `unknown`.
pub open spec fn spec_chapter_name(path: Seq<char>) -> Seq<char> {
    match spec_file_stem(path) {
        Some(s) => s,
        None => "unknown"@,
    }
}

/// The chapter label of a file.
pub fn chapter_name_of(path: &str) -> (r: String)
    ensures
        r@ == spec_chapter_name(path@),
{
    match file_stem(path) {
        Some(s) => s,
        None => "unknown".to_string(),
    }
}

/// The sort key of a chapter: from the parts a naming template extracted,
/// else from its label and position.
pub fn chapter_sort_for(
    chapter_name: &str,
    index: usize,
    template_parts: Option<(u64, Option<String>)>,
) -> (r: String)
    requires
        template_parts is None && first_digit_from(chapter_name@, 0) >= chapter_name@.len() ==> index < usize::MAX,
    ensures
        template_parts is None ==> r@ == spec_fallback_sort(chapter_name@, index as nat),
        template_parts matches Some(p) ==> r@ == spec_format_sort(p.0, match p.1 {
            Some(d) => Some(d@),
            None => None,
        }),
{
    match template_parts {
        Some((chapter, decimal_part)) => ChapterArchive::format_sort(chapter, decimal_part),
        None => ChapterArchive::fallback_sort(chapter_name, index),
    }
}

/// The row of a chapter file found by the scanner; a path without a file
/// name is refused.
pub fn scanned_chapter(
    path: &str,
    chapter_sort: String,
    is_special: bool,
    checksum: Option<String>,
    comic_id: i64,
    volume_id: Option<i64>,
    file_modified: i64,
) -> (r: Result<ChapterArchive, ComicError>)
    ensures
        spec_file_name(path@) is None ==> (r matches Err(ComicError::SystemFailure(m)) && m@ == "File name is invalid"@),
        spec_file_name(path@) is Some ==> (r matches Ok(c) && c.id >= 0 && c.chapter@ == spec_chapter_name(path@)
            && c.path@ == path@ && c.chapter_sort == chapter_sort && c.is_special == is_special
            && c.checksum == checksum && c.comic_directory_fk == comic_id && c.volume_fk == volume_id
            && c.last_modified == file_modified),
{
    if file_name(path).is_none() {
        return Err(ComicError::SystemFailure("File name is invalid".to_string()));
    }
    Ok(ChapterArchive {
        id: path_hash(path),
        chapter: chapter_name_of(path),
        path: path.to_string(),
        chapter_sort,
        is_special,
        checksum,
        comic_directory_fk: comic_id,
        volume_fk: volume_id,
        last_modified: file_modified,
    })
}

/// The CBZ a PDF is converted to.
pub fn cbz_target(pdf_path: &str) -> (r: String)
    ensures
        r@ == spec_with_extension(pdf_path@, "cbz"@),
{
    with_extension(pdf_path, "cbz")
}

/// The temporary file a CBZ is written to before it is moved in place.
pub fn temp_archive_path(cbz_path: &str) -> (r: String)
    ensures
        r@ == spec_with_extension(cbz_path@, "cbz.tmp"@),
{
    with_extension(cbz_path, "cbz.tmp")
}

/// `s` padded on the left with zeros to at least `width` characters.
pub open spec fn zero_padded(s: Seq<char>, width: nat) -> Seq<char>
    decreases width - s.len(),
{
    if s.len() >= width {
        s
    } else {
        zero_padded(seq!['0'] + s, width)
    }
}

/// The name of page `index` (from 0) in a converted CBZ: its number from 1,
/// at least three digits, then `.jpg`.
pub fn page_entry_name(index: usize) -> (r: String)
    requires
        index < usize::MAX,
    ensures
        r@ == zero_padded(decimal((index + 1) as nat), 3) + ".jpg"@,
{
    let digits = decimal_chars((index + 1) as u64);
    let mut padded: Vec<char> = digits;
    while padded.len() < 3
        invariant
            zero_padded(padded@, 3) == zero_padded(decimal((index + 1) as nat), 3),
        decreases 3 - padded.len(),
    {
        let ghost before = padded@;
        padded.insert(0, '0');
        assert(padded@ =~= seq!['0'] + before);
    }
    let s = string_of(&padded);
    concat(s.as_str(), ".jpg")
}

/// The RGB bytes of RGBA pixels: each whole group of four bytes loses its
/// fourth; a trailing partial group is dropped.
pub open spec fn rgb_of(rgba: Seq<u8>) -> Seq<u8> {
    Seq::new((rgba.len() / 4 * 3) as nat, |i: int| rgba[(i / 3) * 4 + i % 3])
}

/// Drops the alpha channel of RGBA pixels.
pub fn rgba_to_rgb(rgba: &[u8]) -> (r: Vec<u8>)
    ensures
        r@ == rgb_of(rgba@),
{
    let mut out: Vec<u8> = Vec::new();
    let pixels = rgba.len() / 4;
    let mut p: usize = 0;
    while p < pixels
        invariant
            pixels == rgba.len() / 4,
            p <= pixels,
            out.len() == p * 3,
            forall|i: int| 0 <= i < out.len() ==> out@[i] == rgba@[(i / 3) * 4 + i % 3],
        decreases pixels - p,
    {
        let base = p * 4;
        out.push(rgba[base]);
        out.push(rgba[base + 1]);
        out.push(rgba[base + 2]);
        proof {
            assert forall|i: int| 0 <= i < out.len() implies out@[i] == rgba@[(i / 3) * 4 + i % 3] by {
                if i >= p * 3 {
                    assert((i / 3) == p as int) by (nonlinear_arith)
                        requires p * 3 <= i < p * 3 + 3;
                    assert(i % 3 == i - p * 3) by (nonlinear_arith)
                        requires p * 3 <= i < p * 3 + 3, i / 3 == p as int;
                }
            }
        }
        p += 1;
    }
    assert(out@ =~= rgb_of(rgba@));
    out
}

/// A conversion logs progress at the first page, the last page and every
/// twenty-fifth page.
pub fn should_log_page(page_index: usize, page_count: usize) -> (r: bool)
    ensures
        r == (page_index == 0 || page_index + 1 == page_count || page_index % 25 == 0),
{
    page_index == 0 || (page_index < usize::MAX && page_index + 1 == page_count) || page_index % 25 == 0
}

} // verus!
