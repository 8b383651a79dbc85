//! Chapter rows and the `chapter_sort` key that orders chapters: either
//! built from a detected naming template or read off the file name.

use vstd::prelude::*;
use crate::text::{chars_of, decimal, decimal_chars, string_of};

verus! {

/// An indexed chapter file (one row of `chapter_archive`).
#[derive(Debug, Clone)]
pub struct ChapterArchive {
    pub id: i64,
    pub chapter: String,
    pub path: String,
    pub chapter_sort: String,
    pub is_special: bool,
    pub checksum: Option<String>,
    pub comic_directory_fk: i64,
    pub volume_fk: Option<i64>,
    pub last_modified: i64,
}

/// A chapter row joined with the volume it belongs to, if any.
#[derive(Debug, Clone)]
pub struct ChapterArchiveWithVolume {
    pub id: i64,
    pub chapter: String,
    pub path: String,
    pub chapter_sort: String,
    pub is_special: bool,
    pub checksum: Option<String>,
    pub comic_directory_fk: i64,
    pub volume_fk: Option<i64>,
    pub last_modified: i64,
    pub volume_name: Option<String>,
    pub volume_sort: Option<String>,
    pub volume_is_special: Option<bool>,
}

/// `chapter` in decimal, followed by `.decimal` when a non-empty decimal
/// part was detected.
pub open spec fn spec_format_sort(chapter: u64, decimal_part: Option<Seq<char>>) -> Seq<char> {
    match decimal_part {
        Some(d) if d.len() > 0 => decimal(chapter as nat).push('.') + d,
        _ => decimal(chapter as nat),
    }
}

pub open spec fn is_ascii_digit(c: char) -> bool {
    '0' <= c && c <= '9'
}

/// Index of the first ASCII digit at or after `i`, or `s.len()`.
pub open spec fn first_digit_from(s: Seq<char>, i: int) -> int
    decreases s.len() - i,
{
    if i >= s.len() {
        s.len() as int
    } else if is_ascii_digit(s[i]) {
        i
    } else {
        first_digit_from(s, i + 1)
    }
}

/// The number read from `s[i..]`: digits, and at most one decimal separator
/// (`.` or `,`, written as `.`), up to the first other character.
pub open spec fn scan_number(s: Seq<char>, i: int, seen_separator: bool) -> Seq<char>
    decreases s.len() - i,
{
    if i < 0 || i >= s.len() {
        Seq::<char>::empty()
    } else if is_ascii_digit(s[i]) {
        seq![s[i]] + scan_number(s, i + 1, seen_separator)
    } else if (s[i] == '.' || s[i] == ',') && !seen_separator {
        seq!['.'] + scan_number(s, i + 1, true)
    } else {
        Seq::<char>::empty()
    }
}

/// `s` without its trailing dots.
pub open spec fn trim_trailing_dots(s: Seq<char>) -> Seq<char>
    decreases s.len(),
{
    if s.len() > 0 && s.last() == '.' {
        trim_trailing_dots(s.drop_last())
    } else {
        s
    }
}

/// The sort key read off a file name: the first number in it (decimal
/// separator normalised to `.`, trailing dots removed); when the name has no
/// digit, the 1-based position `index + 1`.
pub open spec fn spec_fallback_sort(file_name: Seq<char>, index: nat) -> Seq<char> {
    let start = first_digit_from(file_name, 0);
    let number = trim_trailing_dots(scan_number(file_name, start, false));
    if start < file_name.len() && number.len() > 0 {
        number
    } else {
        decimal(index + 1)
    }
}

proof fn lemma_scan_starts_with_digit(s: Seq<char>, i: int)
    requires
        0 <= i < s.len(),
        is_ascii_digit(s[i]),
    ensures
        scan_number(s, i, false).len() > 0,
        scan_number(s, i, false)[0] == s[i],
{
}

proof fn lemma_trim_keeps_first(s: Seq<char>)
    requires
        s.len() > 0,
        s[0] != '.',
    ensures
        trim_trailing_dots(s).len() > 0,
    decreases s.len(),
{
    if s.last() == '.' {
        assert(s.len() > 1);
        assert(s.drop_last()[0] == s[0]);
        lemma_trim_keeps_first(s.drop_last());
    }
}

proof fn lemma_scan_step(s: Seq<char>, i: int, seen: bool)
    requires
        0 <= i < s.len(),
    ensures
        is_ascii_digit(s[i]) ==> scan_number(s, i, seen) == seq![s[i]] + scan_number(
            s,
            i + 1,
            seen,
        ),
        !is_ascii_digit(s[i]) && (s[i] == '.' || s[i] == ',') && !seen ==> scan_number(s, i, seen)
            == seq!['.'] + scan_number(s, i + 1, true),
{
}

impl ChapterArchive {
    /// The sort key of a chapter whose number (and optional decimal part)
    /// was matched by a naming template.
    pub fn format_sort(chapter: u64, decimal_part: Option<String>) -> (r: String)
        ensures
            r@ == spec_format_sort(
                chapter,
                match decimal_part {
                    Some(d) => Some(d@),
                    None => None,
                },
            ),
    {
        let mut out = decimal_chars(chapter);
        match decimal_part {
            Some(d) => {
                let dc = chars_of(d.as_str());
                if dc.len() > 0 {
                    out.push('.');
                    let ghost base = out@;
                    let mut i: usize = 0;
                    while i < dc.len()
                        invariant
                            i <= dc.len(),
                            out@ == base + dc@.take(i as int),
                        decreases dc.len() - i,
                    {
                        out.push(dc[i]);
                        i += 1;
                        assert(out@ =~= base + dc@.take(i as int));
                    }
                    assert(dc@.take(dc.len() as int) =~= dc@);
                }
            },
            None => {},
        }
        string_of(&out)
    }

    /// The sort key read off a file name when no template matched.
    pub fn fallback_sort(file_name: &str, index: usize) -> (r: String)
        requires
            first_digit_from(file_name@, 0) >= file_name@.len() ==> index < usize::MAX,
        ensures
            r@ == spec_fallback_sort(file_name@, index as nat),
    {
        let s = chars_of(file_name);
        let mut start: usize = 0;
        while start < s.len() && !('0' <= s[start] && s[start] <= '9')
            invariant
                start <= s.len(),
                first_digit_from(s@, start as int) == first_digit_from(s@, 0),
            decreases s.len() - start,
        {
            start += 1;
        }
        if start >= s.len() {
            return string_of(&decimal_chars((index + 1) as u64));
        }
        let mut out: Vec<char> = Vec::new();
        let mut i = start;
        let mut seen = false;
        while i < s.len()
            invariant
                start <= i <= s.len(),
                out@ + scan_number(s@, i as int, seen) == scan_number(s@, start as int, false),
            ensures
                out@ == scan_number(s@, start as int, false),
            decreases s.len() - i,
        {
            let c = s[i];
            proof {
                lemma_scan_step(s@, i as int, seen);
            }
            if '0' <= c && c <= '9' {
                let ghost before = out@;
                out.push(c);
                assert(out@ + scan_number(s@, i + 1, seen) =~= before + scan_number(
                    s@,
                    i as int,
                    seen,
                ));
            } else if (c == '.' || c == ',') && !seen {
                let ghost before = out@;
                out.push('.');
                assert(out@ + scan_number(s@, i + 1, true) =~= before + scan_number(
                    s@,
                    i as int,
                    seen,
                ));
                seen = true;
            } else {
                assert(scan_number(s@, i as int, seen) =~= Seq::<char>::empty());
                assert(out@ =~= out@ + scan_number(s@, i as int, seen));
                break;
            }
            i += 1;
            proof {
                if i >= s.len() {
                    assert(out@ =~= out@ + scan_number(s@, i as int, seen));
                }
            }
        }
        while out.len() > 0 && out[out.len() - 1] == '.'
            invariant
                trim_trailing_dots(out@) == trim_trailing_dots(scan_number(s@, start as int, false)),
            decreases out.len(),
        {
            let ghost before = out@;
            out.pop();
            assert(out@ =~= before.drop_last());
        }
        assert(trim_trailing_dots(out@) == out@);
        proof {
            lemma_scan_starts_with_digit(s@, start as int);
            lemma_trim_keeps_first(scan_number(s@, start as int, false));
        }
        if out.len() == 0 {
            return string_of(&decimal_chars((index + 1) as u64));
        }
        string_of(&out)
    }
}

proof fn lemma_scan_props(s: Seq<char>, i: int, seen: bool)
    requires
        0 <= i <= s.len(),
    ensures
        i + scan_number(s, i, seen).len() <= s.len(),
        forall|k: int| 0 <= k < scan_number(s, i, seen).len() ==> (#[trigger] scan_number(s, i, seen)[k]) == (if s[i + k] == ',' {
            '.'
        } else {
            s[i + k]
        }) && (is_ascii_digit(scan_number(s, i, seen)[k]) || scan_number(s, i, seen)[k] == '.'),
        forall|a: int, b: int| 0 <= a < b < scan_number(s, i, seen).len() ==> !(#[trigger] scan_number(s, i, seen)[a] == '.'
            && #[trigger] scan_number(s, i, seen)[b] == '.'),
        seen ==> forall|k: int| 0 <= k < scan_number(s, i, seen).len() ==> #[trigger] scan_number(s, i, seen)[k] != '.',
        ({
            let e = i + scan_number(s, i, seen).len();
            e == s.len() || (!is_ascii_digit(s[e]) && (!(s[e] == '.' || s[e] == ',') || seen
                || exists|k: int| 0 <= k < scan_number(s, i, seen).len() && #[trigger] scan_number(s, i, seen)[k] == '.'))
        }),
    decreases s.len() - i,
{
    let m = scan_number(s, i, seen);
    if i < s.len() {
        if is_ascii_digit(s[i]) {
            lemma_scan_props(s, i + 1, seen);
            let rest = scan_number(s, i + 1, seen);
            assert(m == seq![s[i]] + rest);
            assert forall|k: int| 0 <= k < m.len() implies (#[trigger] m[k]) == (if s[i + k] == ',' { '.' } else { s[i + k] })
                && (is_ascii_digit(m[k]) || m[k] == '.') by {
                if k > 0 {
                    assert(m[k] == rest[k - 1]);
                }
            }
            assert forall|a: int, b: int| 0 <= a < b < m.len() implies !(#[trigger] m[a] == '.' && #[trigger] m[b] == '.') by {
                if a > 0 {
                    assert(m[a] == rest[a - 1] && m[b] == rest[b - 1]);
                }
            }
            if seen {
                assert forall|k: int| 0 <= k < m.len() implies #[trigger] m[k] != '.' by {
                    if k > 0 {
                        assert(m[k] == rest[k - 1]);
                    }
                }
            }
            let e = i + m.len();
            if e < s.len() && (s[e] == '.' || s[e] == ',') && !seen {
                let k = choose|k: int| 0 <= k < rest.len() && #[trigger] rest[k] == '.';
                assert(m[k + 1] == rest[k]);
            }
        } else if (s[i] == '.' || s[i] == ',') && !seen {
            lemma_scan_props(s, i + 1, true);
            let rest = scan_number(s, i + 1, true);
            assert(m == seq!['.'] + rest);
            assert forall|k: int| 0 <= k < m.len() implies (#[trigger] m[k]) == (if s[i + k] == ',' { '.' } else { s[i + k] })
                && (is_ascii_digit(m[k]) || m[k] == '.') by {
                if k > 0 {
                    assert(m[k] == rest[k - 1]);
                }
            }
            assert forall|a: int, b: int| 0 <= a < b < m.len() implies !(#[trigger] m[a] == '.' && #[trigger] m[b] == '.') by {
                assert(m[b] == rest[b - 1]);
                if a > 0 {
                    assert(m[a] == rest[a - 1]);
                }
            }
            assert(m[0] == '.');
        }
    }
}

proof fn lemma_trim_props(m: Seq<char>)
    ensures
        trim_trailing_dots(m).len() <= m.len(),
        trim_trailing_dots(m) == m.take(trim_trailing_dots(m).len() as int),
        forall|k: int| trim_trailing_dots(m).len() <= k < m.len() ==> #[trigger] m[k] == '.',
        trim_trailing_dots(m).len() == 0 || trim_trailing_dots(m).last() != '.',
    decreases m.len(),
{
    if m.len() > 0 && m.last() == '.' {
        lemma_trim_props(m.drop_last());
        let t = trim_trailing_dots(m);
        assert(t == trim_trailing_dots(m.drop_last()));
        assert forall|k: int| t.len() <= k < m.len() implies #[trigger] m[k] == '.' by {
            if k < m.len() - 1 {
                assert(m[k] == m.drop_last()[k]);
            }
        }
        assert(m.drop_last().take(t.len() as int) =~= m.take(t.len() as int));
    } else {
        assert(m.take(m.len() as int) =~= m);
    }
}

/// Law: the sort key of a file name with a digit is its first number, read
/// as one contiguous piece of the name: it starts at the first digit, each
/// of its characters is the name's character at the same place (a `,`
/// separator written `.`), it holds digits and at most one separator and
/// ends with a digit, and it stops where the number stops: the next
/// character of the name is not a digit, and a separator followed by a
/// digit is taken in unless the key already has one. A name without a digit
/// gets its position from 1.
pub proof fn fallback_sort_is_the_first_number(name: Seq<char>, index: nat, d: int)
    ensures
        0 <= d < name.len() && is_ascii_digit(name[d]) && (forall|k: int| 0 <= k < d ==> !is_ascii_digit(#[trigger] name[k]))
            ==> ({
            let r = spec_fallback_sort(name, index);
            &&& r.len() > 0
            &&& d + r.len() <= name.len()
            &&& forall|k: int| 0 <= k < r.len() ==> (#[trigger] r[k]) == (if name[d + k] == ',' {
                '.'
            } else {
                name[d + k]
            }) && (is_ascii_digit(r[k]) || r[k] == '.')
            &&& forall|a: int, b: int| 0 <= a < b < r.len() ==> !(#[trigger] r[a] == '.' && #[trigger] r[b] == '.')
            &&& is_ascii_digit(r.last())
            &&& d + r.len() == name.len() || !is_ascii_digit(name[d + r.len()])
            &&& (forall|k: int| 0 <= k < r.len() ==> #[trigger] r[k] != '.') ==> !(d + r.len() + 1 < name.len()
                && (name[d + r.len()] == '.' || name[d + r.len()] == ',') && is_ascii_digit(name[d + r.len() + 1]))
        }),
        (forall|k: int| 0 <= k < name.len() ==> !is_ascii_digit(#[trigger] name[k])) ==> spec_fallback_sort(name, index)
            == decimal(index + 1),
{
    if 0 <= d < name.len() && is_ascii_digit(name[d]) && (forall|k: int| 0 <= k < d ==> !is_ascii_digit(#[trigger] name[k])) {
        lemma_first_digit_is(name, 0, d);
        let m = scan_number(name, d, false);
        lemma_scan_props(name, d, false);
        lemma_scan_starts_with_digit(name, d);
        lemma_trim_props(m);
        lemma_trim_keeps_first(m);
        let t = trim_trailing_dots(m);
        assert(spec_fallback_sort(name, index) == t);
        assert forall|k: int| 0 <= k < t.len() implies (#[trigger] t[k]) == (if name[d + k] == ',' { '.' } else { name[d + k] })
            && (is_ascii_digit(t[k]) || t[k] == '.') by {
            assert(t[k] == m[k]);
        }
        assert forall|a: int, b: int| 0 <= a < b < t.len() implies !(#[trigger] t[a] == '.' && #[trigger] t[b] == '.') by {
            assert(t[a] == m[a] && t[b] == m[b]);
        }
        assert(t.last() == m[t.len() - 1]);
        let e = d + t.len();
        if t.len() < m.len() {
            assert(m[t.len() as int] == '.');
            if (forall|k: int| 0 <= k < t.len() ==> #[trigger] t[k] != '.') && e + 1 < name.len() && is_ascii_digit(name[e + 1]) {
                if t.len() + 1 < m.len() {
                    assert(m[t.len() + 1int] == '.');
                    assert(!(m[t.len() as int] == '.' && m[t.len() + 1int] == '.'));
                } else {
                    let k = choose|k: int| 0 <= k < m.len() && #[trigger] m[k] == '.';
                    assert(k == t.len() as int);
                }
            }
        } else {
            assert(t.len() == m.len());
            if (forall|k: int| 0 <= k < t.len() ==> #[trigger] t[k] != '.') && e < name.len() {
                if exists|k: int| 0 <= k < m.len() && #[trigger] m[k] == '.' {
                    let k = choose|k: int| 0 <= k < m.len() && #[trigger] m[k] == '.';
                    assert(t[k] == m[k]);
                }
            }
        }
    }
    if forall|k: int| 0 <= k < name.len() ==> !is_ascii_digit(#[trigger] name[k]) {
        lemma_no_digit(name, 0);
    }
}

proof fn lemma_first_digit_is(s: Seq<char>, i: int, d: int)
    requires
        0 <= i <= d < s.len(),
        is_ascii_digit(s[d]),
        forall|k: int| i <= k < d ==> !is_ascii_digit(#[trigger] s[k]),
    ensures
        first_digit_from(s, i) == d,
    decreases d - i,
{
    if i < d {
        lemma_first_digit_is(s, i + 1, d);
    }
}

proof fn lemma_no_digit(s: Seq<char>, i: int)
    requires
        0 <= i <= s.len(),
        forall|k: int| i <= k < s.len() ==> !is_ascii_digit(#[trigger] s[k]),
    ensures
        first_digit_from(s, i) == s.len(),
    decreases s.len() - i,
{
    if i < s.len() {
        lemma_no_digit(s, i + 1);
    }
}

} // verus!
