//! The archive and page-image formats the library recognises, decided by
//! file extension with ASCII case ignored.

use vstd::prelude::*;
use crate::paths::{extension, spec_extension};
use crate::text::chars_of;

verus! {

/// ASCII lower-casing of one character; other characters are unchanged.
pub open spec fn ascii_lower(c: char) -> char {
    if 'A' <= c && c <= 'Z' {
        ((c as int) + 32) as char
    } else {
        c
    }
}

/// `str::eq_ignore_ascii_case`.
pub open spec fn eq_ignore_case(a: Seq<char>, b: Seq<char>) -> bool {
    &&& a.len() == b.len()
    &&& forall|i: int| 0 <= i < a.len() ==> ascii_lower(#[trigger] a[i]) == ascii_lower(b[i])
}

pub fn ascii_lower_exec(c: char) -> (r: char)
    ensures
        r == ascii_lower(c),
{
    if 'A' <= c && c <= 'Z' {
        let b = c as u8;
        (b + 32) as char
    } else {
        c
    }
}

/// `str::to_ascii_lowercase`.
pub open spec fn spec_ascii_lowercase(s: Seq<char>) -> Seq<char> {
    s.map_values(|c: char| ascii_lower(c))
}

/// Lower-cases the ASCII letters of `s`.
pub fn to_ascii_lowercase(s: &str) -> (r: String)
    ensures
        r@ == spec_ascii_lowercase(s@),
{
    let c = chars_of(s);
    let mut out: Vec<char> = Vec::new();
    let mut i: usize = 0;
    while i < c.len()
        invariant
            i <= c.len(),
            out@ == spec_ascii_lowercase(c@.take(i as int)),
        decreases c.len() - i,
    {
        out.push(ascii_lower_exec(c[i]));
        i += 1;
        assert(out@ =~= spec_ascii_lowercase(c@.take(i as int)));
    }
    assert(c@.take(c.len() as int) =~= c@);
    crate::text::string_of(&out)
}

/// Compares two character sequences ignoring ASCII case.
pub fn eq_ignore_case_exec(a: &Vec<char>, b: &Vec<char>) -> (r: bool)
    ensures
        r == eq_ignore_case(a@, b@),
{
    if a.len() != b.len() {
        return false;
    }
    let mut i: usize = 0;
    while i < a.len()
        invariant
            a.len() == b.len(),
            i <= a.len(),
            forall|k: int| 0 <= k < i ==> ascii_lower(#[trigger] a@[k]) == ascii_lower(b@[k]),
        decreases a.len() - i,
    {
        if ascii_lower_exec(a[i]) != ascii_lower_exec(b[i]) {
            return false;
        }
        i += 1;
    }
    true
}

pub open spec fn cbz_word() -> Seq<char> {
    seq!['c', 'b', 'z']
}

pub open spec fn cbr_word() -> Seq<char> {
    seq!['c', 'b', 'r']
}

pub open spec fn pdf_word() -> Seq<char> {
    seq!['p', 'd', 'f']
}

pub open spec fn jpg_word() -> Seq<char> {
    seq!['j', 'p', 'g']
}

pub open spec fn jpeg_word() -> Seq<char> {
    seq!['j', 'p', 'e', 'g']
}

pub open spec fn png_word() -> Seq<char> {
    seq!['p', 'n', 'g']
}

/// Container formats of a chapter file.
#[derive(Debug, Clone, Copy, PartialEq, Eq, Structural)]
pub enum ArchiveFormat {
    Cbz,
    Cbr,
    Pdf,
}

pub open spec fn spec_archive_format(ext: Seq<char>) -> Option<ArchiveFormat> {
    if eq_ignore_case(ext, cbz_word()) {
        Some(ArchiveFormat::Cbz)
    } else if eq_ignore_case(ext, cbr_word()) {
        Some(ArchiveFormat::Cbr)
    } else if eq_ignore_case(ext, pdf_word()) {
        Some(ArchiveFormat::Pdf)
    } else {
        None
    }
}

impl ArchiveFormat {
    /// The format named by a file extension (`cbz`, `cbr` or `pdf`).
    pub fn from_extension(ext: &str) -> (r: Option<ArchiveFormat>)
        ensures
            r == spec_archive_format(ext@),
    {
        let e = chars_of(ext);
        if eq_ignore_case_exec(&e, &vec!['c', 'b', 'z']) {
            Some(ArchiveFormat::Cbz)
        } else if eq_ignore_case_exec(&e, &vec!['c', 'b', 'r']) {
            Some(ArchiveFormat::Cbr)
        } else if eq_ignore_case_exec(&e, &vec!['p', 'd', 'f']) {
            Some(ArchiveFormat::Pdf)
        } else {
            None
        }
    }
}

/// Encodings of a page image.
#[derive(Debug, Clone, Copy, PartialEq, Eq, Structural)]
pub enum ImageFileFormat {
    Jpeg,
    Png,
}

pub open spec fn spec_image_format(ext: Seq<char>) -> Option<ImageFileFormat> {
    if eq_ignore_case(ext, jpg_word()) || eq_ignore_case(ext, jpeg_word()) {
        Some(ImageFileFormat::Jpeg)
    } else if eq_ignore_case(ext, png_word()) {
        Some(ImageFileFormat::Png)
    } else {
        None
    }
}

/// The image format of a path, from its extension.
pub open spec fn spec_image_format_of_path(path: Seq<char>) -> Option<ImageFileFormat> {
    match spec_extension(path) {
        Some(ext) => spec_image_format(ext),
        None => None,
    }
}

pub open spec fn spec_mime_type(f: ImageFileFormat) -> Seq<char> {
    match f {
        ImageFileFormat::Jpeg => "image/jpeg"@,
        ImageFileFormat::Png => "image/png"@,
    }
}

impl ImageFileFormat {
    /// The format named by a file extension (`jpg`, `jpeg` or `png`).
    pub fn from_extension(ext: &str) -> (r: Option<ImageFileFormat>)
        ensures
            r == spec_image_format(ext@),
    {
        let e = chars_of(ext);
        if eq_ignore_case_exec(&e, &vec!['j', 'p', 'g']) || eq_ignore_case_exec(
            &e,
            &vec!['j', 'p', 'e', 'g'],
        ) {
            Some(ImageFileFormat::Jpeg)
        } else if eq_ignore_case_exec(&e, &vec!['p', 'n', 'g']) {
            Some(ImageFileFormat::Png)
        } else {
            None
        }
    }

    /// The format of a file path, from the extension of its file name.
    pub fn from_path(path: &str) -> (r: Option<ImageFileFormat>)
        ensures
            r == spec_image_format_of_path(path@),
    {
        match extension(path) {
            Some(ext) => ImageFileFormat::from_extension(ext.as_str()),
            None => None,
        }
    }

    /// The MIME type served for pages in this format.
    pub fn mime_type(&self) -> (r: &'static str)
        ensures
            r@ == spec_mime_type(*self),
    {
        match self {
            ImageFileFormat::Jpeg => "image/jpeg",
            ImageFileFormat::Png => "image/png",
        }
    }
}

} // verus!
