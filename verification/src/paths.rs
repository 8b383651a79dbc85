//! A model of the parts of Unix path syntax the library relies on: the last
//! component (`file_name`), its split at the last dot (`file_stem` /
//! `extension`), replacing the extension, and component-wise prefix tests.
//!
//! Paths are character sequences; `/` is the only separator. A `.` component
//! is dropped unless it opens the path, and `..` is kept, as `std::path` does.

use vstd::prelude::*;
use crate::text::{chars_of, string_of};

verus! {

pub open spec fn sep() -> char {
    '/'
}

pub open spec fn dot_seq() -> Seq<char> {
    seq!['.']
}

pub open spec fn dot_dot_seq() -> Seq<char> {
    seq!['.', '.']
}

/// Start of the segment that ends at `end`: one past the last separator
/// before `end`, or 0.
pub open spec fn seg_start(s: Seq<char>, end: int) -> int
    decreases end,
{
    if end <= 0 {
        0
    } else if s[end - 1] == sep() {
        end
    } else {
        seg_start(s, end - 1)
    }
}

pub proof fn lemma_seg_start(s: Seq<char>, end: int)
    requires
        0 <= end <= s.len(),
    ensures
        0 <= seg_start(s, end) <= end,
        end > 0 && s[end - 1] != sep() ==> seg_start(s, end) < end,
        forall|k: int| seg_start(s, end) <= k < end ==> s[k] != sep(),
        seg_start(s, end) > 0 ==> s[seg_start(s, end) - 1] == sep(),
    decreases end,
{
    if end > 0 && s[end - 1] != sep() {
        lemma_seg_start(s, end - 1);
    }
}

/// Character range of the last normal component of `s[0..end]`, if any:
/// trailing separators and non-leading `.` components are skipped; a leading
/// `.`, a `..`, a root or an empty path have no file name.
pub open spec fn name_range(s: Seq<char>, end: int) -> Option<(int, int)>
    decreases end,
{
    if end <= 0 || end > s.len() {
        None
    } else if s[end - 1] == sep() {
        name_range(s, end - 1)
    } else {
        let start = seg_start(s, end);
        let seg = s.subrange(start, end);
        if seg == dot_seq() {
            if start <= 0 {
                None
            } else {
                proof {
                    lemma_seg_start(s, end);
                }
                name_range(s, start)
            }
        } else if seg == dot_dot_seq() {
            None
        } else {
            Some((start, end))
        }
    }
}

pub proof fn lemma_name_range(s: Seq<char>, end: int)
    requires
        0 <= end <= s.len(),
    ensures
        name_range(s, end) matches Some((a, b)) ==> {
            &&& 0 <= a < b <= end
            &&& forall|k: int| a <= k < b ==> s[k] != sep()
            &&& a > 0 ==> s[a - 1] == sep()
        },
    decreases end,
{
    if end > 0 {
        if s[end - 1] == sep() {
            lemma_name_range(s, end - 1);
        } else {
            lemma_seg_start(s, end);
            let start = seg_start(s, end);
            if s.subrange(start, end) == dot_seq() && start > 0 {
                lemma_name_range(s, start);
            }
        }
    }
}

/// `Path::file_name`.
pub open spec fn spec_file_name(p: Seq<char>) -> Option<Seq<char>> {
    match name_range(p, p.len() as int) {
        Some((a, b)) => Some(p.subrange(a, b)),
        None => None,
    }
}

/// Index of the last `.` in `name[0..i]`, or -1.
pub open spec fn last_dot(name: Seq<char>, i: int) -> int
    decreases i,
{
    if i <= 0 {
        -1
    } else if name[i - 1] == '.' {
        i - 1
    } else {
        last_dot(name, i - 1)
    }
}

pub proof fn lemma_last_dot(name: Seq<char>, i: int)
    requires
        0 <= i <= name.len(),
    ensures
        -1 <= last_dot(name, i) < i,
        last_dot(name, i) >= 0 ==> name[last_dot(name, i)] == '.',
        forall|k: int| last_dot(name, i) < k < i ==> name[k] != '.',
    decreases i,
{
    if i > 0 && name[i - 1] != '.' {
        lemma_last_dot(name, i - 1);
    }
}

/// Position where a file name splits into stem and extension: the last dot,
/// unless there is none or it is the first character.
pub open spec fn stem_split(name: Seq<char>) -> int {
    last_dot(name, name.len() as int)
}

/// The stem of a file name (`Path::file_stem` on that name).
pub open spec fn spec_stem_of(name: Seq<char>) -> Seq<char> {
    let d = stem_split(name);
    if d <= 0 {
        name
    } else {
        name.subrange(0, d)
    }
}

/// The extension of a file name (`Path::extension` on that name).
pub open spec fn spec_extension_of(name: Seq<char>) -> Option<Seq<char>> {
    let d = stem_split(name);
    if d <= 0 {
        None
    } else {
        Some(name.subrange(d + 1, name.len() as int))
    }
}

/// `Path::file_stem`.
pub open spec fn spec_file_stem(p: Seq<char>) -> Option<Seq<char>> {
    match spec_file_name(p) {
        Some(name) => Some(spec_stem_of(name)),
        None => None,
    }
}

/// `Path::extension`.
pub open spec fn spec_extension(p: Seq<char>) -> Option<Seq<char>> {
    match spec_file_name(p) {
        Some(name) => spec_extension_of(name),
        None => None,
    }
}

/// `Path::with_extension`: the path cut right after the stem of its file
/// name, then `.ext` unless `ext` is empty; unchanged without a file name.
pub open spec fn spec_with_extension(p: Seq<char>, ext: Seq<char>) -> Seq<char> {
    match name_range(p, p.len() as int) {
        Some((a, b)) => {
            let stem_end = a + spec_stem_of(p.subrange(a, b)).len();
            let kept = p.subrange(0, stem_end);
            if ext.len() == 0 {
                kept
            } else {
                kept.push('.') + ext
            }
        },
        None => p,
    }
}

fn seg_start_exec(s: &Vec<char>, end: usize) -> (r: usize)
    requires
        end <= s.len(),
    ensures
        r == seg_start(s@, end as int),
{
    let mut i = end;
    while i > 0 && s[i - 1] != '/'
        invariant
            i <= end <= s.len(),
            seg_start(s@, i as int) == seg_start(s@, end as int),
        decreases i,
    {
        i -= 1;
    }
    i
}

fn is_dot(s: &Vec<char>, a: usize, b: usize) -> (r: bool)
    requires
        a <= b <= s.len(),
    ensures
        r == (s@.subrange(a as int, b as int) == dot_seq()),
{
    let ghost sub = s@.subrange(a as int, b as int);
    if b - a != 1 {
        assert(sub.len() != dot_seq().len());
        false
    } else if s[a] == '.' {
        assert(sub =~= dot_seq());
        true
    } else {
        assert(sub[0] != dot_seq()[0]);
        false
    }
}

fn is_dot_dot(s: &Vec<char>, a: usize, b: usize) -> (r: bool)
    requires
        a <= b <= s.len(),
    ensures
        r == (s@.subrange(a as int, b as int) == dot_dot_seq()),
{
    let ghost sub = s@.subrange(a as int, b as int);
    if b - a != 2 {
        assert(sub.len() != dot_dot_seq().len());
        false
    } else if s[a] == '.' && s[a + 1] == '.' {
        assert(sub =~= dot_dot_seq());
        true
    } else {
        assert(sub[0] != dot_dot_seq()[0] || sub[1] != dot_dot_seq()[1]);
        false
    }
}

/// Range of the file name within `s[0..end]`.
pub fn name_range_exec(s: &Vec<char>, end: usize) -> (r: Option<(usize, usize)>)
    requires
        end <= s.len(),
    ensures
        match r {
            Some((a, b)) => name_range(s@, end as int) == Some((a as int, b as int)),
            None => name_range(s@, end as int) is None,
        },
    decreases end,
{
    if end == 0 {
        return None;
    }
    if s[end - 1] == '/' {
        return name_range_exec(s, end - 1);
    }
    proof {
        lemma_seg_start(s@, end as int);
    }
    let start = seg_start_exec(s, end);
    if is_dot(s, start, end) {
        if start == 0 {
            None
        } else {
            name_range_exec(s, start)
        }
    } else if is_dot_dot(s, start, end) {
        None
    } else {
        Some((start, end))
    }
}

/// Position of the last dot of `name`, or `None`.
fn last_dot_exec(name: &Vec<char>) -> (r: Option<usize>)
    ensures
        match r {
            Some(d) => last_dot(name@, name.len() as int) == d as int,
            None => last_dot(name@, name.len() as int) == -1,
        },
{
    let mut i = name.len();
    while i > 0 && name[i - 1] != '.'
        invariant
            i <= name.len(),
            last_dot(name@, i as int) == last_dot(name@, name.len() as int),
        decreases i,
    {
        i -= 1;
    }
    if i == 0 {
        None
    } else {
        Some(i - 1)
    }
}

fn slice_chars(v: &Vec<char>, a: usize, b: usize) -> (out: Vec<char>)
    requires
        a <= b <= v.len(),
    ensures
        out@ == v@.subrange(a as int, b as int),
{
    let mut out: Vec<char> = Vec::new();
    let mut i = a;
    while i < b
        invariant
            a <= i <= b <= v.len(),
            out@ == v@.subrange(a as int, i as int),
        decreases b - i,
    {
        out.push(v[i]);
        i += 1;
        assert(out@ =~= v@.subrange(a as int, i as int));
    }
    out
}

/// The file name of `path`, as characters.
pub fn file_name_chars(path: &str) -> (r: Option<Vec<char>>)
    ensures
        match r {
            Some(v) => spec_file_name(path@) == Some(v@),
            None => spec_file_name(path@) is None,
        },
{
    let s = chars_of(path);
    match name_range_exec(&s, s.len()) {
        Some((a, b)) => {
            proof {
                lemma_name_range(s@, s.len() as int);
            }
            Some(slice_chars(&s, a, b))
        },
        None => None,
    }
}

/// `Path::file_name` of `path`.
pub fn file_name(path: &str) -> (r: Option<String>)
    ensures
        match r {
            Some(v) => spec_file_name(path@) == Some(v@),
            None => spec_file_name(path@) is None,
        },
{
    match file_name_chars(path) {
        Some(v) => Some(string_of(&v)),
        None => None,
    }
}

/// Stem of a file name given as characters.
pub fn stem_of_chars(name: &Vec<char>) -> (r: Vec<char>)
    ensures
        r@ == spec_stem_of(name@),
{
    match last_dot_exec(name) {
        Some(d) => {
            if d == 0 {
                name.clone()
            } else {
                proof {
                    lemma_last_dot(name@, name.len() as int);
                }
                slice_chars(name, 0, d)
            }
        },
        None => name.clone(),
    }
}

/// Extension of a file name given as characters.
pub fn extension_of_chars(name: &Vec<char>) -> (r: Option<Vec<char>>)
    ensures
        match r {
            Some(v) => spec_extension_of(name@) == Some(v@),
            None => spec_extension_of(name@) is None,
        },
{
    match last_dot_exec(name) {
        Some(d) => {
            if d == 0 {
                None
            } else {
                proof {
                    lemma_last_dot(name@, name.len() as int);
                }
                Some(slice_chars(name, d + 1, name.len()))
            }
        },
        None => None,
    }
}

/// `Path::file_stem` of `path`.
pub fn file_stem(path: &str) -> (r: Option<String>)
    ensures
        match r {
            Some(v) => spec_file_stem(path@) == Some(v@),
            None => spec_file_stem(path@) is None,
        },
{
    match file_name_chars(path) {
        Some(name) => Some(string_of(&stem_of_chars(&name))),
        None => None,
    }
}

/// `Path::extension` of `path`.
pub fn extension(path: &str) -> (r: Option<String>)
    ensures
        match r {
            Some(v) => spec_extension(path@) == Some(v@),
            None => spec_extension(path@) is None,
        },
{
    match file_name_chars(path) {
        Some(name) => match extension_of_chars(&name) {
            Some(e) => Some(string_of(&e)),
            None => None,
        },
        None => None,
    }
}

/// `Path::with_extension`: replaces (or removes, for an empty `ext`) the
/// extension of the file name of `path`.
pub fn with_extension(path: &str, ext: &str) -> (r: String)
    ensures
        r@ == spec_with_extension(path@, ext@),
{
    let s = chars_of(path);
    let e = chars_of(ext);
    match name_range_exec(&s, s.len()) {
        Some((a, b)) => {
            proof {
                lemma_name_range(s@, s.len() as int);
            }
            let name = slice_chars(&s, a, b);
            let stem = stem_of_chars(&name);
            proof {
                lemma_last_dot(name@, name.len() as int);
            }
            assert(stem.len() <= name.len());
            let stem_end = a + stem.len();
            let mut out = slice_chars(&s, 0, stem_end);
            if e.len() > 0 {
                out.push('.');
                let mut i: usize = 0;
                let ghost base = out@;
                while i < e.len()
                    invariant
                        i <= e.len(),
                        out@ == base + e@.take(i as int),
                    decreases e.len() - i,
                {
                    out.push(e[i]);
                    i += 1;
                    assert(out@ =~= base + e@.take(i as int));
                }
                assert(e@.take(e.len() as int) =~= e@);
            }
            string_of(&out)
        },
        None => string_of(&s),
    }
}

} // verus!
