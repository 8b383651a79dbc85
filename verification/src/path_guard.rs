//! Numeric identifiers derived from paths, and the guard that only lets
//! actions run on paths that resolve inside the library root.

use vstd::prelude::*;
use crate::text::chars_of;

verus! {

/// Hashes `path` the way `std::path::Path` feeds a `DefaultHasher`.
///
/// Calls `<Path as Hash>::hash` on a fresh `DefaultHasher` and returns
/// `finish()`. Nothing is stated of the value: the bytes `Path::hash` writes
/// include a native-endian word, so the value depends on the platform.
#[verifier::external_body]
fn default_hash_of_path(path: &str) -> (h: u64) {
    let mut hasher = std::collections::hash_map::DefaultHasher::new();
    std::hash::Hash::hash(std::path::Path::new(path), &mut hasher);
    std::hash::Hasher::finish(&hasher)
}

/// The identifier made from a raw 64-bit hash: its low 63 bits, which are
/// never negative as an `i64`.
pub open spec fn spec_id_from_hash(raw: u64) -> i64 {
    (raw & 0x7fff_ffff_ffff_ffffu64) as i64
}

/// The identifier made from a raw 64-bit hash: the hash with its top bit
/// cleared.
pub fn id_from_hash(raw: u64) -> (r: i64)
    ensures
        r == spec_id_from_hash(raw),
        r as int == (raw & 0x7fff_ffff_ffff_ffffu64) as int,
        r >= 0,
{
    let masked = raw & 0x7fff_ffff_ffff_ffffu64;
    assert(masked <= 0x7fff_ffff_ffff_ffffu64) by (bit_vector)
        requires
            masked == raw & 0x7fff_ffff_ffff_ffffu64,
    ;
    masked as i64
}

/// A 63-bit, never negative identifier for `path`, used as the primary key
/// of comics, volumes and chapters: the path's hash with its top bit
/// cleared.
pub fn path_hash(path: &str) -> (r: i64)
    ensures
        r >= 0,
        exists|raw: u64| r == spec_id_from_hash(raw),
{
    let raw = default_hash_of_path(path);
    id_from_hash(raw)
}

/// The character view of each vector.
pub open spec fn char_views(s: Seq<Vec<char>>) -> Seq<Seq<char>> {
    s.map_values(|v: Vec<char>| v@)
}

/// Appends the part `cur` to `acc` unless it is empty or `.`.
pub open spec fn push_part(acc: Seq<Seq<char>>, cur: Seq<char>) -> Seq<Seq<char>> {
    if cur.len() == 0 || cur == seq!['.'] {
        acc
    } else {
        acc.push(cur)
    }
}

/// The `/`-separated parts of `s[i..]`, given the part `cur` read so far and
/// the parts `acc` already closed; empty and `.` parts are dropped.
pub open spec fn parts_from(s: Seq<char>, i: int, cur: Seq<char>, acc: Seq<Seq<char>>) -> Seq<
    Seq<char>,
>
    decreases s.len() - i,
{
    if i >= s.len() {
        push_part(acc, cur)
    } else if s[i] == '/' {
        parts_from(s, i + 1, Seq::<char>::empty(), push_part(acc, cur))
    } else {
        parts_from(s, i + 1, cur.push(s[i]), acc)
    }
}

/// `Path::components`: a leading root (`/`) or current-directory (`.`)
/// component, then every non-empty part other than `.`.
pub open spec fn components(s: Seq<char>) -> Seq<Seq<char>> {
    if s.len() > 0 && s[0] == '/' {
        seq![seq!['/']] + parts_from(s, 1, Seq::<char>::empty(), Seq::<Seq<char>>::empty())
    } else if s.len() > 0 && s[0] == '.' && (s.len() == 1 || s[1] == '/') {
        seq![seq!['.']] + parts_from(s, 1, Seq::<char>::empty(), Seq::<Seq<char>>::empty())
    } else {
        parts_from(s, 0, Seq::<char>::empty(), Seq::<Seq<char>>::empty())
    }
}

/// `Path::starts_with`: the components of `base` open those of `path`.
pub open spec fn spec_starts_with(path: Seq<char>, base: Seq<char>) -> bool {
    let p = components(path);
    let b = components(base);
    b.len() <= p.len() && p.subrange(0, b.len() as int) == b
}

fn is_dot_part(cur: &Vec<char>) -> (r: bool)
    ensures
        r == (cur@ == seq!['.']),
{
    if cur.len() == 1 && cur[0] == '.' {
        assert(cur@ =~= seq!['.']);
        true
    } else {
        if cur.len() == 1 {
            assert(cur@[0] != seq!['.'][0]);
        }
        false
    }
}

fn parts_exec(s: &Vec<char>, start: usize) -> (r: Vec<Vec<char>>)
    requires
        start <= s.len(),
    ensures
        char_views(r@) == parts_from(
            s@,
            start as int,
            Seq::<char>::empty(),
            Seq::<Seq<char>>::empty(),
        ),
{
    let mut acc: Vec<Vec<char>> = Vec::new();
    let mut cur: Vec<char> = Vec::new();
    let mut i = start;
    assert(char_views(acc@) =~= Seq::<Seq<char>>::empty());
    assert(cur@ =~= Seq::<char>::empty());
    while i < s.len()
        invariant
            start <= i <= s.len(),
            parts_from(s@, i as int, cur@, char_views(acc@)) == parts_from(
                s@,
                start as int,
                Seq::<char>::empty(),
                Seq::<Seq<char>>::empty(),
            ),
        decreases s.len() - i,
    {
        if s[i] == '/' {
            let ghost old_acc = char_views(acc@);
            if cur.len() > 0 && !is_dot_part(&cur) {
                acc.push(cur);
                assert(char_views(acc@) =~= old_acc.push(cur@));
            }
            cur = Vec::new();
        } else {
            cur.push(s[i]);
        }
        i += 1;
    }
    let ghost old_acc = char_views(acc@);
    if cur.len() > 0 && !is_dot_part(&cur) {
        acc.push(cur);
        assert(char_views(acc@) =~= old_acc.push(cur@));
    }
    acc
}

/// The components of `path`, each as characters.
pub fn components_exec(path: &str) -> (r: Vec<Vec<char>>)
    ensures
        char_views(r@) == components(path@),
{
    let s = chars_of(path);
    if s.len() > 0 && s[0] == '/' {
        let mut r: Vec<Vec<char>> = Vec::new();
        let first: Vec<char> = vec!['/'];
        assert(first@ =~= seq!['/']);
        r.push(first);
        let mut rest = parts_exec(&s, 1);
        let ghost rest_v = char_views(rest@);
        let ghost rest_seq = rest@;
        r.append(&mut rest);
        assert(r@.len() == 1 + rest_v.len());
        assert forall|k: int| 0 <= k < r@.len() implies #[trigger] char_views(r@)[k] == (seq![seq!['/']] + rest_v)[k] by {
            if k > 0 {
                assert(r@[k] == rest_seq[k - 1]);
            }
        }
        assert(char_views(r@) =~= seq![seq!['/']] + rest_v);
        r
    } else if s.len() > 0 && s[0] == '.' && (s.len() == 1 || s[1] == '/') {
        let mut r: Vec<Vec<char>> = Vec::new();
        let first: Vec<char> = vec!['.'];
        assert(first@ =~= seq!['.']);
        r.push(first);
        let mut rest = parts_exec(&s, 1);
        let ghost rest_v = char_views(rest@);
        let ghost rest_seq = rest@;
        r.append(&mut rest);
        assert(r@.len() == 1 + rest_v.len());
        assert forall|k: int| 0 <= k < r@.len() implies #[trigger] char_views(r@)[k] == (seq![seq!['.']] + rest_v)[k] by {
            if k > 0 {
                assert(r@[k] == rest_seq[k - 1]);
            }
        }
        assert(char_views(r@) =~= seq![seq!['.']] + rest_v);
        r
    } else {
        parts_exec(&s, 0)
    }
}

fn chars_eq(a: &Vec<char>, b: &Vec<char>) -> (r: bool)
    ensures
        r == (a@ == b@),
{
    if a.len() != b.len() {
        return false;
    }
    let mut i: usize = 0;
    while i < a.len()
        invariant
            a.len() == b.len(),
            i <= a.len(),
            forall|k: int| 0 <= k < i ==> a@[k] == b@[k],
        decreases a.len() - i,
    {
        if a[i] != b[i] {
            return false;
        }
        i += 1;
    }
    assert(a@ =~= b@);
    true
}

/// `Path::starts_with`, component by component.
pub fn starts_with(path: &str, base: &str) -> (r: bool)
    ensures
        r == spec_starts_with(path@, base@),
{
    let p = components_exec(path);
    let b = components_exec(base);
    let ghost pv = char_views(p@);
    let ghost bv = char_views(b@);
    if b.len() > p.len() {
        return false;
    }
    let mut i: usize = 0;
    while i < b.len()
        invariant
            b.len() <= p.len(),
            i <= b.len(),
            pv == char_views(p@),
            bv == char_views(b@),
            forall|k: int| 0 <= k < i ==> pv[k] == bv[k],
            pv.len() == p.len(),
            bv.len() == b.len(),
            pv == components(path@),
            bv == components(base@),
        decreases b.len() - i,
    {
        if !chars_eq(&p[i], &b[i]) {
            assert(pv[i as int] == p@[i as int]@);
            assert(bv[i as int] == b@[i as int]@);
            assert(pv.subrange(0, bv.len() as int)[i as int] != bv[i as int]);
            assert(pv.subrange(0, bv.len() as int) != bv);
            return false;
        }
        i += 1;
    }
    assert(pv.subrange(0, bv.len() as int) =~= bv);
    true
}

/// Why the guard refused to run an action.
#[derive(Debug, PartialEq, Eq)]
pub enum PathError {
    /// The path does not resolve to anything on disk.
    NotFound(String),
    /// The path resolves outside the allowed root.
    AccessDenied,
    /// The path was allowed, but the action itself failed.
    ActionFailed(String),
}

/// Lets actions run only on paths that resolve inside `allowed_root`.
pub struct PathGuard {
    allowed_root: String,
}

impl PathGuard {
    pub closed spec fn root(&self) -> Seq<char> {
        self.allowed_root@
    }

    /// A guard over `root`; `canonical_root` is `root` resolved on disk, kept
    /// in its place when the resolution succeeded.
    pub fn new(root: String, canonical_root: Option<String>) -> (r: PathGuard)
        ensures
            r.root() == match canonical_root {
                Some(c) => c@,
                None => root@,
            },
    {
        match canonical_root {
            Some(c) => PathGuard { allowed_root: c },
            None => PathGuard { allowed_root: root },
        }
    }

    /// Checks `path` given its on-disk resolution `canonical` (`None` when it
    /// does not resolve): not found, outside the root, or allowed.
    pub fn validate(&self, path: &str, canonical: Option<&str>) -> (r: Result<(), PathError>)
        ensures
            match canonical {
                None => r matches Err(PathError::NotFound(p)) && p@ == path@,
                Some(c) => if spec_starts_with(c@, self.root()) {
                    r is Ok
                } else {
                    r matches Err(PathError::AccessDenied)
                },
            },
    {
        match canonical {
            None => Err(PathError::NotFound(path.to_string())),
            Some(c) => {
                if !starts_with(c, self.allowed_root.as_str()) {
                    Err(PathError::AccessDenied)
                } else {
                    Ok(())
                }
            },
        }
    }

    /// Runs `action` on `path` once `path` is validated; a failure of the
    /// action is reported with its message.
    pub fn execute<F, R>(&self, path: &str, canonical: Option<&str>, action: F) -> (r: Result<
        R,
        PathError,
    >) where F: FnOnce(&str) -> Result<R, String>
        requires
            call_requires(action, (path,)),
        ensures
            match canonical {
                None => r matches Err(PathError::NotFound(p)) && p@ == path@,
                Some(c) => if !spec_starts_with(c@, self.root()) {
                    r matches Err(PathError::AccessDenied)
                } else {
                    exists|out: Result<R, String>|
                        #![trigger call_ensures(action, (path,), out)]
                        call_ensures(action, (path,), out) && match out {
                            Ok(v) => r == Ok::<R, PathError>(v),
                            Err(e) => r matches Err(PathError::ActionFailed(m)) && m@ == e@,
                        }
                },
            },
    {
        match self.validate(path, canonical) {
            Err(e) => Err(e),
            Ok(()) => {
                let out = action(path);
                match out {
                    Ok(v) => Ok(v),
                    Err(e) => Err(PathError::ActionFailed(e)),
                }
            },
        }
    }
}

} // verus!
