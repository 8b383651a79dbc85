//! Naming templates chosen by the user: the order they are listed in and
//! the rules for creating and deleting them.

use vstd::prelude::*;
use crate::file_sync::{spec_trim, trim_chars};
use crate::security::ComicError;
use crate::text::{chars_of, string_of};

verus! {

/// Whether a template names chapters or volumes.
#[derive(Debug, Clone, Copy, PartialEq, Eq, Structural)]
pub enum SortType {
    Chapter,
    Volume,
}

/// A naming template.
#[derive(Debug, Clone, PartialEq, Eq)]
pub struct ArchiveTemplate {
    pub id: i64,
    pub label: String,
    pub pattern: String,
    pub sort_type: SortType,
    pub is_default: bool,
    pub priority: i64,
}

/// `a` comes before `b` in string order (by character, a prefix first).
pub open spec fn text_lt(a: Seq<char>, b: Seq<char>) -> bool
    decreases a.len(),
{
    if b.len() == 0 {
        false
    } else if a.len() == 0 {
        true
    } else if a[0] != b[0] {
        a[0] < b[0]
    } else {
        text_lt(a.drop_first(), b.drop_first())
    }
}

/// `a` is listed before `b`: defaults first, then by label.
pub open spec fn listed_before(a: ArchiveTemplate, b: ArchiveTemplate) -> bool {
    (a.is_default && !b.is_default) || (a.is_default == b.is_default && text_lt(a.label@, b.label@))
}

/// No template is listed before one that precedes it.
pub open spec fn in_listing_order(s: Seq<ArchiveTemplate>) -> bool {
    forall|i: int, j: int| 0 <= i < j < s.len() ==> !listed_before(#[trigger] s[j], #[trigger] s[i])
}

fn text_lt_exec(a: &Vec<char>, b: &Vec<char>) -> (r: bool)
    ensures
        r == text_lt(a@, b@),
{
    let mut i: usize = 0;
    assert(a@.skip(0) =~= a@);
    assert(b@.skip(0) =~= b@);
    while i < a.len() && i < b.len() && a[i] == b[i]
        invariant
            i <= a.len(),
            i <= b.len(),
            text_lt(a@, b@) == text_lt(a@.skip(i as int), b@.skip(i as int)),
        decreases a.len() - i,
    {
        assert(a@.skip(i as int).drop_first() =~= a@.skip(i + 1));
        assert(b@.skip(i as int).drop_first() =~= b@.skip(i + 1));
        i += 1;
    }
    if i == b.len() {
        false
    } else if i == a.len() {
        true
    } else {
        a[i] < b[i]
    }
}

proof fn lemma_text_lt_irreflexive(a: Seq<char>)
    ensures
        !text_lt(a, a),
    decreases a.len(),
{
    if a.len() > 0 {
        lemma_text_lt_irreflexive(a.drop_first());
    }
}

proof fn lemma_text_lt_total(a: Seq<char>, b: Seq<char>)
    ensures
        a == b || text_lt(a, b) || text_lt(b, a),
    decreases a.len(),
{
    if a.len() > 0 && b.len() > 0 && a[0] == b[0] {
        lemma_text_lt_total(a.drop_first(), b.drop_first());
        if a.drop_first() == b.drop_first() {
            assert(a.drop_first().len() == b.drop_first().len());
            assert(a.len() == b.len());
            assert forall|i: int| 0 <= i < a.len() implies a[i] == b[i] by {
                if i > 0 {
                    assert(a[i] == a.drop_first()[i - 1]);
                    assert(b[i] == b.drop_first()[i - 1]);
                }
            }
            assert(a =~= b);
        }
    }
}

proof fn lemma_text_lt_transitive(a: Seq<char>, b: Seq<char>, c: Seq<char>)
    requires
        text_lt(a, b),
        text_lt(b, c),
    ensures
        text_lt(a, c),
    decreases a.len(),
{
    if a.len() > 0 && b.len() > 0 && c.len() > 0 && a[0] == b[0] && b[0] == c[0] {
        lemma_text_lt_transitive(a.drop_first(), b.drop_first(), c.drop_first());
    }
}

proof fn lemma_text_lt_asym(a: Seq<char>, b: Seq<char>)
    requires
        text_lt(a, b),
    ensures
        !text_lt(b, a),
{
    if text_lt(b, a) {
        lemma_text_lt_transitive(a, b, a);
        lemma_text_lt_irreflexive(a);
    }
}

/// The naming template service: the rules around the stored templates.
pub struct ArchiveTemplateService;

impl ArchiveTemplateService {
    /// Puts templates in listing order (defaults first, then by label),
    /// keeping the stored order among equals.
    pub fn order_templates(templates: &mut Vec<ArchiveTemplate>)
        ensures
            final(templates)@.to_multiset() == old(templates)@.to_multiset(),
            in_listing_order(final(templates)@),
    {
        let mut src: Vec<ArchiveTemplate> = Vec::new();
        std::mem::swap(templates, &mut src);
        let ghost orig = src@;
        let ghost mut k: int = 0;
        assert(templates@ =~= orig.take(0));
        while src.len() > 0
            invariant
                0 <= k <= orig.len(),
                src@ == orig.skip(k),
                templates@.to_multiset() == orig.take(k).to_multiset(),
                in_listing_order(templates@),
            decreases src.len(),
        {
            let item = src.remove(0);
            proof {
                assert(item == orig[k]);
                assert(src@ =~= orig.skip(k + 1));
            }
            let item_label = chars_of(item.label.as_str());
            let mut p: usize = 0;
            while p < templates.len() && !Self::before(&item, &item_label, &templates[p])
                invariant
                    p <= templates.len(),
                    item_label@ == item.label@,
                    forall|q: int| 0 <= q < p ==> !listed_before(item, #[trigger] templates@[q]),
                decreases templates.len() - p,
            {
                p += 1;
            }
            let ghost old_items = templates@;
            proof {
                assert forall|q: int| p <= q < old_items.len() implies listed_before(item, #[trigger] old_items[q]) by {
                    if q > p {
                        assert(listed_before(item, old_items[p as int]));
                        assert(!listed_before(old_items[q], old_items[p as int]));
                        lemma_text_lt_total(old_items[p as int].label@, old_items[q].label@);
                        if text_lt(item.label@, old_items[p as int].label@) && text_lt(old_items[p as int].label@, old_items[q].label@) {
                            lemma_text_lt_transitive(item.label@, old_items[p as int].label@, old_items[q].label@);
                        }
                    }
                }
            }
            templates.insert(p, item);
            proof {
                assert(orig.take(k + 1) =~= orig.take(k).push(orig[k]));
                vstd::seq_lib::to_multiset_build(orig.take(k), orig[k]);
                vstd::seq_lib::to_multiset_insert(old_items, p as int, orig[k]);
                assert forall|a: int, b: int| 0 <= a < b < templates.len() implies !listed_before(#[trigger] templates@[b], #[trigger] templates@[a]) by {
                    if a == p {
                        let ob = b - 1;
                        assert(templates@[b] == old_items[ob]);
                        assert(listed_before(item, old_items[ob]));
                        if old_items[ob].is_default == item.is_default && text_lt(item.label@, old_items[ob].label@) {
                            lemma_text_lt_asym(item.label@, old_items[ob].label@);
                        }
                    } else if b == p {
                        assert(templates@[a] == old_items[a]);
                        assert(!listed_before(item, old_items[a]));
                    } else {
                        let oa = if a < p { a } else { a - 1 };
                        let ob = if b < p { b } else { b - 1 };
                        assert(templates@[a] == old_items[oa]);
                        assert(templates@[b] == old_items[ob]);
                    }
                }
                k = k + 1;
            }
        }
        assert(orig.take(k) =~= orig);
    }

    fn before(a: &ArchiveTemplate, a_label: &Vec<char>, b: &ArchiveTemplate) -> (r: bool)
        requires
            a_label@ == a.label@,
        ensures
            r == listed_before(*a, *b),
    {
        if a.is_default && !b.is_default {
            return true;
        }
        if a.is_default != b.is_default {
            return false;
        }
        let bl = chars_of(b.label.as_str());
        text_lt_exec(a_label, &bl)
    }

    /// The label and pattern of a new template, trimmed; an empty label is
    /// refused. (The pattern itself is then checked by the template
    /// validator for its sort type.)
    pub fn prepare_new_template(label: &str, pattern: &str) -> (r: Result<(String, String), ComicError>)
        ensures
            spec_trim(label@).len() == 0 ==> (r matches Err(ComicError::InvalidRequest(m)) && m@ == "Template name cannot be empty."@),
            spec_trim(label@).len() > 0 ==> (r matches Ok(v) && v.0@ == spec_trim(label@) && v.1@ == spec_trim(pattern@)),
    {
        let l = trim_chars(&chars_of(label));
        let p = trim_chars(&chars_of(pattern));
        if l.len() == 0 {
            return Err(ComicError::InvalidRequest("Template name cannot be empty.".to_string()));
        }
        Ok((string_of(&l), string_of(&p)))
    }

    /// Whether template `id` may be deleted: it must exist and must not be
    /// a default template.
    pub fn check_deletable(templates: &Vec<ArchiveTemplate>, id: i64) -> (r: Result<(), ComicError>)
        ensures
            !(exists|i: int| 0 <= i < templates.len() && (#[trigger] templates@[i]).id == id) ==> r == Err::<(), ComicError>(ComicError::NotFound),
            (exists|i: int| 0 <= i < templates.len() && (#[trigger] templates@[i]).id == id) ==> {
                let first = choose|i: int| 0 <= i < templates.len() && (#[trigger] templates@[i]).id == id && forall|j: int| 0 <= j < i ==> (#[trigger] templates@[j]).id != id;
                if templates@[first].is_default {
                    r matches Err(ComicError::InvalidRequest(m)) && m@ == "Default templates cannot be deleted."@
                } else {
                    r is Ok
                }
            },
    {
        let mut i: usize = 0;
        while i < templates.len()
            invariant
                i <= templates.len(),
                forall|j: int| 0 <= j < i ==> (#[trigger] templates@[j]).id != id,
            decreases templates.len() - i,
        {
            if templates[i].id == id {
                proof {
                    let first = choose|x: int| 0 <= x < templates.len() && (#[trigger] templates@[x]).id == id && forall|j: int| 0 <= j < x ==> (#[trigger] templates@[j]).id != id;
                    assert(0 <= i < templates.len() && templates@[i as int].id == id && forall|j: int| 0 <= j < i ==> (#[trigger] templates@[j]).id != id);
                    if first < i {
                        assert(templates@[first].id != id);
                    } else if first > i {
                        assert(templates@[i as int].id != id);
                    }
                }
                if templates[i].is_default {
                    return Err(ComicError::InvalidRequest("Default templates cannot be deleted.".to_string()));
                }
                return Ok(());
            }
            i += 1;
        }
        Err(ComicError::NotFound)
    }
}

} // verus!
