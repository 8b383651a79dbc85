//! Natural ("human") ordering of names: runs of digits compare by their
//! numeric value, so `page2` comes before `page10` and `page001` before
//! `page2`.
//!
//! Each name is encoded as a sequence of integers, its natural key: a digit
//! run becomes `0, n, d1 .. dn` (its `n` significant digits), any other
//! character `c` becomes `1, c`. Natural order is the lexicographic order of
//! these keys, which is also how `Vec<u64>` is ordered.

use vstd::prelude::*;
use crate::text::chars_of;

verus! {

broadcast use vstd::seq_lib::group_seq_properties;

pub open spec fn is_digit(c: char) -> bool {
    '0' <= c && c <= '9'
}

/// End of the digit run starting at `i`.
pub open spec fn run_end(s: Seq<char>, i: int) -> int
    decreases s.len() - i,
{
    if 0 <= i < s.len() && is_digit(s[i]) {
        run_end(s, i + 1)
    } else {
        i
    }
}

/// First index in `[i, j)` that is not a `0`, or `j`.
pub open spec fn zeros_end(s: Seq<char>, i: int, j: int) -> int
    decreases j - i,
{
    if i < j && s[i] == '0' {
        zeros_end(s, i + 1, j)
    } else {
        i
    }
}

/// The values of the digits `s[a..b]`.
pub open spec fn digit_values(s: Seq<char>, a: int, b: int) -> Seq<u64> {
    s.subrange(a, b).map_values(|c: char| ((c as int) - 48) as u64)
}

pub proof fn lemma_run_end(s: Seq<char>, i: int)
    requires
        0 <= i <= s.len(),
    ensures
        i <= run_end(s, i) <= s.len(),
        i < s.len() && is_digit(s[i]) ==> i < run_end(s, i),
        forall|k: int| i <= k < run_end(s, i) ==> is_digit(s[k]),
        run_end(s, i) < s.len() ==> !is_digit(s[run_end(s, i)]),
    decreases s.len() - i,
{
    if i < s.len() && is_digit(s[i]) {
        lemma_run_end(s, i + 1);
    }
}

pub proof fn lemma_zeros_end(s: Seq<char>, i: int, j: int)
    requires
        0 <= i <= j <= s.len(),
    ensures
        i <= zeros_end(s, i, j) <= j,
    decreases j - i,
{
    if i < j && s[i] == '0' {
        lemma_zeros_end(s, i + 1, j);
    }
}

/// The natural key of `s[i..]`.
pub open spec fn encode_from(s: Seq<char>, i: int) -> Seq<u64>
    decreases s.len() - i,
{
    if i < 0 || i >= s.len() {
        Seq::<u64>::empty()
    } else if is_digit(s[i]) {
        let j = run_end(s, i);
        let z = zeros_end(s, i, j);
        proof {
            lemma_run_end(s, i);
        }
        seq![0u64, (j - z) as u64] + digit_values(s, z, j) + encode_from(s, j)
    } else {
        seq![1u64, s[i] as u64] + encode_from(s, i + 1)
    }
}

/// The natural key of a name.
pub open spec fn natural_key_of(s: Seq<char>) -> Seq<u64> {
    encode_from(s, 0)
}

/// Strict lexicographic order on keys (a proper prefix comes first).
pub open spec fn lex_lt(a: Seq<u64>, b: Seq<u64>) -> bool
    decreases a.len(),
{
    if b.len() == 0 {
        false
    } else if a.len() == 0 {
        true
    } else if a[0] < b[0] {
        true
    } else if a[0] > b[0] {
        false
    } else {
        lex_lt(a.drop_first(), b.drop_first())
    }
}

/// Natural order on names: `a` sorts strictly before `b`.
pub open spec fn natural_lt(a: Seq<char>, b: Seq<char>) -> bool {
    lex_lt(natural_key_of(a), natural_key_of(b))
}

/// No key sorts before itself.
pub proof fn lemma_lex_irreflexive(a: Seq<u64>)
    ensures
        !lex_lt(a, a),
    decreases a.len(),
{
    if a.len() > 0 {
        lemma_lex_irreflexive(a.drop_first());
    }
}

/// Two different keys are ordered one way or the other, never both.
pub proof fn lemma_lex_total(a: Seq<u64>, b: Seq<u64>)
    ensures
        a != b ==> lex_lt(a, b) || lex_lt(b, a),
        !(lex_lt(a, b) && lex_lt(b, a)),
    decreases a.len(),
{
    if a.len() > 0 && b.len() > 0 && a[0] == b[0] {
        lemma_lex_total(a.drop_first(), b.drop_first());
        if a.drop_first() == b.drop_first() {
            assert(a =~= seq![a[0]] + a.drop_first());
            assert(b =~= seq![b[0]] + b.drop_first());
        }
    } else if a.len() == 0 && b.len() == 0 {
        assert(a =~= b);
    }
}

/// Lexicographic order is transitive.
pub proof fn lemma_lex_transitive(a: Seq<u64>, b: Seq<u64>, c: Seq<u64>)
    requires
        lex_lt(a, b),
        lex_lt(b, c),
    ensures
        lex_lt(a, c),
    decreases a.len(),
{
    if a.len() > 0 && b.len() > 0 && c.len() > 0 && a[0] == b[0] && b[0] == c[0] {
        lemma_lex_transitive(a.drop_first(), b.drop_first(), c.drop_first());
    }
}

/// Law: natural order is a strict weak order on names — irreflexive,
/// asymmetric and transitive, and names with different keys are comparable.
pub proof fn natural_order_is_total_and_transitive(a: Seq<char>, b: Seq<char>, c: Seq<char>)
    ensures
        !natural_lt(a, a),
        !(natural_lt(a, b) && natural_lt(b, a)),
        natural_key_of(a) != natural_key_of(b) ==> natural_lt(a, b) || natural_lt(b, a),
        natural_lt(a, b) && natural_lt(b, c) ==> natural_lt(a, c),
{
    lemma_lex_irreflexive(natural_key_of(a));
    lemma_lex_total(natural_key_of(a), natural_key_of(b));
    if natural_lt(a, b) && natural_lt(b, c) {
        lemma_lex_transitive(natural_key_of(a), natural_key_of(b), natural_key_of(c));
    }
}

/// The natural key of `s`; `Vec<u64>` orders keys exactly as natural order
/// orders names.
pub fn natural_key(s: &str) -> (key: Vec<u64>)
    ensures
        key@ == natural_key_of(s@),
{
    let c = chars_of(s);
    let mut out: Vec<u64> = Vec::new();
    let mut i: usize = 0;
    while i < c.len()
        invariant
            i <= c.len(),
            out@ + encode_from(c@, i as int) == encode_from(c@, 0),
        decreases c.len() - i,
    {
        let ghost before = out@;
        let ghost rest = encode_from(c@, i as int);
        if '0' <= c[i] && c[i] <= '9' {
            proof {
                lemma_run_end(c@, i as int);
            }
            let mut j = i;
            while j < c.len() && '0' <= c[j] && c[j] <= '9'
                invariant
                    i <= j <= c.len(),
                    run_end(c@, j as int) == run_end(c@, i as int),
                decreases c.len() - j,
            {
                j += 1;
            }
            assert(run_end(c@, j as int) == j);
            assert(j as int == run_end(c@, i as int));
            let mut z = i;
            while z < j && c[z] == '0'
                invariant
                    i <= z <= j <= c.len(),
                    zeros_end(c@, z as int, j as int) == zeros_end(c@, i as int, j as int),
                decreases j - z,
            {
                z += 1;
            }
            proof {
                lemma_zeros_end(c@, i as int, j as int);
            }
            out.push(0u64);
            out.push((j - z) as u64);
            let mut k = z;
            let ghost mid = out@;
            while k < j
                invariant
                    i <= z <= k <= j <= c.len(),
                    out@ == mid + digit_values(c@, z as int, k as int),
                    forall|q: int| i <= q < j ==> is_digit(#[trigger] c@[q]),
                decreases j - k,
            {
                let d = c[k] as u64;
                assert(is_digit(c@[k as int]));
                out.push(d - 48);
                k += 1;
                assert(digit_values(c@, z as int, k as int) =~= digit_values(
                    c@,
                    z as int,
                    (k - 1) as int,
                ).push(((c@[k - 1] as int) - 48) as u64));
            }
            assert(rest =~= seq![0u64, (j - z) as u64] + digit_values(c@, z as int, j as int)
                + encode_from(c@, j as int));
            assert(out@ + encode_from(c@, j as int) =~= before + rest);
            i = j;
        } else {
            out.push(1u64);
            out.push(c[i] as u64);
            assert(out@ + encode_from(c@, i + 1) =~= before + rest);
            i += 1;
        }
    }
    assert(out@ =~= out@ + encode_from(c@, i as int));
    out
}

/// Strict lexicographic comparison of two keys.
pub fn key_lt(a: &Vec<u64>, b: &Vec<u64>) -> (r: bool)
    ensures
        r == lex_lt(a@, b@),
{
    let mut i: usize = 0;
    while i < a.len() && i < b.len()
        invariant
            i <= a.len(),
            i <= b.len(),
            lex_lt(a@, b@) == lex_lt(a@.skip(i as int), b@.skip(i as int)),
        decreases a.len() - i,
    {
        if a[i] < b[i] {
            return true;
        }
        if a[i] > b[i] {
            return false;
        }
        assert(a@.skip(i as int).drop_first() =~= a@.skip(i + 1));
        assert(b@.skip(i as int).drop_first() =~= b@.skip(i + 1));
        i += 1;
    }
    i < b.len()
}

/// `a` sorts strictly before `b` in natural order.
pub fn natural_less(a: &str, b: &str) -> (r: bool)
    ensures
        r == natural_lt(a@, b@),
{
    key_lt(&natural_key(a), &natural_key(b))
}

/// Views of a vector of strings.
pub open spec fn string_views(v: Seq<String>) -> Seq<Seq<char>> {
    v.map_values(|s: String| s@)
}

/// `names` is in natural order (equal keys may come in any order).
pub open spec fn naturally_sorted(names: Seq<Seq<char>>) -> bool {
    forall|i: int, j: int| 0 <= i < j < names.len() ==> !natural_lt(names[j], names[i])
}

/// Sorts names into natural order, stably: `entries` ends up a permutation
/// of what it held, in natural order.
pub fn sort_natural(entries: &mut Vec<String>)
    ensures
        final(entries)@.to_multiset() == old(entries)@.to_multiset(),
        naturally_sorted(string_views(final(entries)@)),
{
    let n = entries.len();
    let mut out: Vec<String> = Vec::new();
    let mut keys: Vec<Vec<u64>> = Vec::new();
    let mut i: usize = 0;
    while i < n
        invariant
            n == entries.len(),
            i <= n,
            out.len() == keys.len(),
            forall|k: int| 0 <= k < keys.len() ==> (#[trigger] keys@[k])@ == natural_key_of(
                out@[k]@,
            ),
            out@.to_multiset() == entries@.take(i as int).to_multiset(),
            forall|a: int, b: int|
                0 <= a < b < out.len() ==> !lex_lt(#[trigger] keys@[b]@, #[trigger] keys@[a]@),
        decreases n - i,
    {
        let item = entries[i].clone();
        let key = natural_key(item.as_str());
        let mut p: usize = 0;
        while p < keys.len() && !key_lt(&key, &keys[p])
            invariant
                p <= keys.len(),
                forall|k: int| 0 <= k < p ==> !lex_lt(key@, (#[trigger] keys@[k])@),
            decreases keys.len() - p,
        {
            p += 1;
        }
        let ghost old_keys = keys@;
        let ghost old_out = out@;
        proof {
            assert forall|k: int| 0 <= k < p implies !lex_lt(key@, old_keys[k]@)
                && !lex_lt(#[trigger] old_keys[k]@, key@) || lex_lt(old_keys[k]@, key@)
                || old_keys[k]@ == key@ by {
                lemma_lex_total(old_keys[k]@, key@);
            }
            assert forall|k: int| p <= k < old_keys.len() implies lex_lt(
                key@,
                #[trigger] old_keys[k]@,
            ) by {
                if k > p {
                    lemma_lex_total(old_keys[p as int]@, old_keys[k]@);
                    if old_keys[p as int]@ == old_keys[k]@ {
                    } else {
                        lemma_lex_transitive(key@, old_keys[p as int]@, old_keys[k]@);
                    }
                }
            }
        }
        keys.insert(p, key);
        out.insert(p, item);
        proof {
            assert(entries@.take(i + 1) =~= entries@.take(i as int).push(entries@[i as int]));
            vstd::seq_lib::to_multiset_insert(old_out, p as int, entries@[i as int]);
            assert forall|a: int, b: int| 0 <= a < b < out.len() implies !lex_lt(
                #[trigger] keys@[b]@,
                #[trigger] keys@[a]@,
            ) by {
                if b == p {
                    lemma_lex_total(keys@[a]@, keys@[b]@);
                    if keys@[a]@ == keys@[b]@ {
                        lemma_lex_irreflexive(keys@[a]@);
                    }
                } else if a == p {
                    lemma_lex_total(keys@[a]@, keys@[b]@);
                } else {
                    let oa = if a < p {
                        a
                    } else {
                        a - 1
                    };
                    let ob = if b < p {
                        b
                    } else {
                        b - 1
                    };
                    assert(keys@[a] == old_keys[oa]);
                    assert(keys@[b] == old_keys[ob]);
                }
            }
        }
        i += 1;
    }
    proof {
        assert(entries@.take(n as int) =~= entries@);
        assert forall|a: int, b: int|
            0 <= a < b < out.len() implies !natural_lt(
            #[trigger] string_views(out@)[b],
            #[trigger] string_views(out@)[a],
        ) by {
            assert(keys@[a]@ == natural_key_of(out@[a]@));
            assert(keys@[b]@ == natural_key_of(out@[b]@));
        }
    }
    *entries = out;
}

/// `10` to the power `n`.
pub open spec fn pow10(n: nat) -> nat
    decreases n,
{
    if n == 0 {
        1
    } else {
        10 * pow10((n - 1) as nat)
    }
}

/// The number a string of decimal digits writes.
pub open spec fn digits_value(x: Seq<char>) -> int
    decreases x.len(),
{
    if x.len() == 0 {
        0
    } else {
        ((x[0] as int) - 48) * pow10((x.len() - 1) as nat) + digits_value(x.drop_first())
    }
}

/// Every character of `x` is a decimal digit.
pub open spec fn all_digits(x: Seq<char>) -> bool {
    forall|k: int| 0 <= k < x.len() ==> is_digit(#[trigger] x[k])
}

/// The digit values of `x`, as the natural key holds them.
pub open spec fn digit_seq(x: Seq<char>) -> Seq<u64> {
    x.map_values(|c: char| ((c as int) - 48) as u64)
}

proof fn lemma_pow10_pos(n: nat)
    ensures
        pow10(n) >= 1,
    decreases n,
{
    if n > 0 {
        lemma_pow10_pos((n - 1) as nat);
    }
}

proof fn lemma_pow10_mono(a: nat, b: nat)
    requires
        a <= b,
    ensures
        1 <= pow10(a) <= pow10(b),
    decreases b,
{
    lemma_pow10_pos(a);
    if a < b {
        lemma_pow10_mono(a, (b - 1) as nat);
        lemma_pow10_pos((b - 1) as nat);
    }
}

proof fn lemma_value_bounds(x: Seq<char>)
    requires
        all_digits(x),
    ensures
        0 <= digits_value(x) < pow10(x.len()),
        x.len() > 0 && x[0] != '0' ==> digits_value(x) >= pow10((x.len() - 1) as nat),
    decreases x.len(),
{
    if x.len() > 0 {
        let t = x.drop_first();
        assert forall|k: int| 0 <= k < t.len() implies is_digit(#[trigger] t[k]) by {
            assert(t[k] == x[k + 1]);
        }
        lemma_value_bounds(t);
        assert(is_digit(x[0]));
        let d = (x[0] as int) - 48;
        let pp = pow10((x.len() - 1) as nat);
        lemma_pow10_mono(0, (x.len() - 1) as nat);
        assert(pow10(x.len()) == 10 * pp);
        assert(0 <= d * pp <= 9 * pp) by (nonlinear_arith)
            requires
                0 <= d <= 9,
                pp >= 1,
        ;
        if x[0] != '0' {
            assert(d * pp >= pp) by (nonlinear_arith)
                requires
                    1 <= d,
                    pp >= 1,
            ;
        }
    }
}

proof fn lemma_value_skip_zeros(x: Seq<char>, z: int)
    requires
        0 <= z <= x.len(),
        forall|k: int| 0 <= k < z ==> #[trigger] x[k] == '0',
    ensures
        digits_value(x) == digits_value(x.skip(z)),
    decreases z,
{
    if z > 0 {
        let t = x.drop_first();
        assert forall|k: int| 0 <= k < z - 1 implies #[trigger] t[k] == '0' by {
            assert(t[k] == x[k + 1]);
        }
        lemma_value_skip_zeros(t, z - 1);
        assert(t.skip(z - 1) =~= x.skip(z));
        assert(x[0] == '0');
        assert(((x[0] as int) - 48) * pow10((x.len() - 1) as nat) == 0);
    }
}

/// Same-length digit strings: their keys compare as their values.
proof fn lemma_same_length_digits(x: Seq<char>, y: Seq<char>, a: Seq<u64>, b: Seq<u64>)
    requires
        all_digits(x),
        all_digits(y),
        x.len() == y.len(),
        digits_value(x) != digits_value(y),
    ensures
        lex_lt(digit_seq(x) + a, digit_seq(y) + b) == (digits_value(x) < digits_value(y)),
    decreases x.len(),
{
    let kx = digit_seq(x) + a;
    let ky = digit_seq(y) + b;
    assert(x.len() > 0);
    assert(is_digit(x[0]) && is_digit(y[0]));
    assert(kx[0] == ((x[0] as int) - 48) as u64);
    assert(ky[0] == ((y[0] as int) - 48) as u64);
    let tx = x.drop_first();
    let ty = y.drop_first();
    assert forall|k: int| 0 <= k < tx.len() implies is_digit(#[trigger] tx[k]) by {
        assert(tx[k] == x[k + 1]);
    }
    assert forall|k: int| 0 <= k < ty.len() implies is_digit(#[trigger] ty[k]) by {
        assert(ty[k] == y[k + 1]);
    }
    lemma_value_bounds(tx);
    lemma_value_bounds(ty);
    let pp = pow10((x.len() - 1) as nat);
    let dx = (x[0] as int) - 48;
    let dy = (y[0] as int) - 48;
    if dx < dy {
        assert(dx * pp + pp <= dy * pp) by (nonlinear_arith)
            requires
                dx < dy,
                pp >= 0,
        ;
    } else if dx > dy {
        assert(dy * pp + pp <= dx * pp) by (nonlinear_arith)
            requires
                dy < dx,
                pp >= 0,
        ;
    } else {
        assert(kx.drop_first() =~= digit_seq(tx) + a);
        assert(ky.drop_first() =~= digit_seq(ty) + b);
        lemma_same_length_digits(tx, ty, a, b);
    }
}

proof fn lemma_run_shift(t: Seq<char>, s: Seq<char>, off: int, i: int)
    requires
        0 <= off,
        0 <= i <= s.len(),
        t.len() == off + s.len(),
        forall|k: int| 0 <= k < s.len() ==> t[off + k] == #[trigger] s[k],
    ensures
        run_end(t, off + i) == off + run_end(s, i),
    decreases s.len() - i,
{
    if i < s.len() {
        assert(t[off + i] == s[i]);
        lemma_run_shift(t, s, off, i + 1);
    }
}

proof fn lemma_zeros_shift(t: Seq<char>, s: Seq<char>, off: int, i: int, j: int)
    requires
        0 <= off,
        0 <= i <= j <= s.len(),
        off + j <= t.len(),
        forall|k: int| i <= k < j ==> t[off + k] == #[trigger] s[k],
    ensures
        zeros_end(t, off + i, off + j) == off + zeros_end(s, i, j),
    decreases j - i,
{
    if i < j {
        assert(t[off + i] == s[i]);
        lemma_zeros_shift(t, s, off, i + 1, j);
    }
}

proof fn lemma_zeros_props(s: Seq<char>, i: int, j: int)
    requires
        0 <= i <= j <= s.len(),
    ensures
        i <= zeros_end(s, i, j) <= j,
        forall|k: int| i <= k < zeros_end(s, i, j) ==> #[trigger] s[k] == '0',
        zeros_end(s, i, j) < j ==> s[zeros_end(s, i, j)] != '0',
    decreases j - i,
{
    if i < j && s[i] == '0' {
        lemma_zeros_props(s, i + 1, j);
    }
}

/// The key of `s` read from `t = p + s`, after `p`.
proof fn lemma_encode_shift(t: Seq<char>, s: Seq<char>, off: int, j: int)
    requires
        0 <= off,
        0 <= j <= s.len(),
        t.len() == off + s.len(),
        forall|k: int| 0 <= k < s.len() ==> t[off + k] == #[trigger] s[k],
    ensures
        encode_from(t, off + j) == encode_from(s, j),
    decreases s.len() - j,
{
    if j < s.len() {
        assert(t[off + j] == s[j]);
        if is_digit(s[j]) {
            lemma_run_end(s, j);
            lemma_run_shift(t, s, off, j);
            let e = run_end(s, j);
            lemma_zeros_shift(t, s, off, j, e);
            let z = zeros_end(s, j, e);
            lemma_zeros_props(s, j, e);
            assert(digit_values(t, off + z, off + e) =~= digit_values(s, z, e));
            lemma_encode_shift(t, s, off, e);
        } else {
            lemma_encode_shift(t, s, off, j + 1);
        }
    }
}

proof fn lemma_run_in_prefix(p: Seq<char>, s: Seq<char>, i: int)
    requires
        0 <= i < p.len(),
        !is_digit(p.last()),
    ensures
        run_end(p + s, i) == run_end(p, i),
        run_end(p, i) < p.len(),
    decreases p.len() - i,
{
    assert((p + s)[i] == p[i]);
    if is_digit(p[i]) {
        assert(i + 1 < p.len());
        lemma_run_in_prefix(p, s, i + 1);
    }
}

/// The key of `p + s` is the key of `p` then that of `s`, when `p` does not
/// end in a digit.
proof fn lemma_encode_concat(p: Seq<char>, s: Seq<char>, i: int)
    requires
        0 <= i <= p.len(),
        p.len() == 0 || !is_digit(p.last()),
    ensures
        encode_from(p + s, i) == encode_from(p, i) + encode_from(s, 0),
    decreases p.len() - i,
{
    let t = p + s;
    if i == p.len() {
        assert forall|k: int| 0 <= k < s.len() implies t[p.len() + k] == #[trigger] s[k] by {}
        lemma_encode_shift(t, s, p.len() as int, 0);
        assert(encode_from(p, i) =~= Seq::<u64>::empty());
        assert(encode_from(p, i) + encode_from(s, 0) =~= encode_from(s, 0));
    } else {
        assert(t[i] == p[i]);
        if is_digit(p[i]) {
            lemma_run_in_prefix(p, s, i);
            lemma_run_end(p, i);
            let e = run_end(p, i);
            assert forall|k: int| i <= k < e implies t[0 + k] == #[trigger] p[k] by {}
            lemma_zeros_shift(t, p, 0, i, e);
            let z = zeros_end(p, i, e);
            lemma_zeros_props(p, i, e);
            assert(digit_values(t, z, e) =~= digit_values(p, z, e));
            lemma_encode_concat(p, s, e);
            let head = seq![0u64, (e - z) as u64] + digit_values(p, z, e);
            assert(encode_from(t, i) == head + encode_from(t, e));
            assert(encode_from(p, i) == head + encode_from(p, e));
            assert(head + (encode_from(p, e) + encode_from(s, 0)) =~= (head + encode_from(p, e)) + encode_from(s, 0));
        } else {
            lemma_encode_concat(p, s, i + 1);
            let head = seq![1u64, p[i] as u64];
            assert(head + (encode_from(p, i + 1) + encode_from(s, 0)) =~= (head + encode_from(p, i + 1)) + encode_from(s, 0));
        }
    }
}

proof fn lemma_lex_common_prefix(k: Seq<u64>, a: Seq<u64>, b: Seq<u64>)
    ensures
        lex_lt(k + a, k + b) == lex_lt(a, b),
    decreases k.len(),
{
    if k.len() > 0 {
        assert((k + a).drop_first() =~= k.drop_first() + a);
        assert((k + b).drop_first() =~= k.drop_first() + b);
        assert((k + a)[0] == k[0] && (k + b)[0] == k[0]);
        lemma_lex_common_prefix(k.drop_first(), a, b);
    } else {
        assert(k + a =~= a);
        assert(k + b =~= b);
    }
}

/// The key of a digit run `x` followed by `q` (which does not start with a
/// digit): `0`, the count of significant digits, those digits, then the key
/// of `q`.
proof fn lemma_run_key(x: Seq<char>, q: Seq<char>)
    requires
        x.len() > 0,
        all_digits(x),
        q.len() == 0 || !is_digit(q[0]),
    ensures
        ({
            let z = zeros_end(x, 0, x.len() as int);
            &&& 0 <= z <= x.len()
            &&& forall|k: int| 0 <= k < z ==> #[trigger] x[k] == '0'
            &&& z < x.len() ==> x[z] != '0'
            &&& natural_key_of(x + q) == seq![0u64, (x.len() - z) as u64] + digit_seq(x.skip(z)) + encode_from(x + q, x.len() as int)
        }),
{
    let t = x + q;
    assert(t[0] == x[0]);
    assert forall|k: int| 0 <= k < x.len() implies t[0 + k] == #[trigger] x[k] by {}
    assert forall|k: int| 0 <= k < x.len() implies is_digit(#[trigger] t[k]) by {
        assert(t[k] == x[k]);
    }
    if q.len() > 0 {
        assert(t[x.len() as int] == q[0]);
    }
    lemma_run_digits_then_stop(t, 0, x.len() as int);
    assert(run_end(t, 0) == x.len());
    lemma_zeros_shift(t, x, 0, 0, x.len() as int);
    lemma_zeros_props(x, 0, x.len() as int);
    let z = zeros_end(x, 0, x.len() as int);
    assert(digit_values(t, z, x.len() as int) =~= digit_seq(x.skip(z)));
}

proof fn lemma_run_digits_then_stop(t: Seq<char>, i: int, n: int)
    requires
        0 <= i <= n <= t.len(),
        forall|k: int| i <= k < n ==> is_digit(#[trigger] t[k]),
        n == t.len() || !is_digit(t[n]),
    ensures
        run_end(t, i) == n,
    decreases n - i,
{
    if i < n {
        assert(is_digit(t[i]));
        lemma_run_digits_then_stop(t, i + 1, n);
    }
}

/// A digit run `x` followed by `q` sorts before a digit run `y` followed by
/// `r` exactly when `x` is worth less than `y`.
proof fn lemma_runs_compare(x: Seq<char>, q: Seq<char>, y: Seq<char>, r: Seq<char>)
    requires
        x.len() > 0 && all_digits(x) && x.len() <= u64::MAX,
        y.len() > 0 && all_digits(y) && y.len() <= u64::MAX,
        q.len() == 0 || !is_digit(q[0]),
        r.len() == 0 || !is_digit(r[0]),
        digits_value(x) != digits_value(y),
    ensures
        lex_lt(natural_key_of(x + q), natural_key_of(y + r)) == (digits_value(x) < digits_value(y)),
{
    lemma_run_key(x, q);
    lemma_run_key(y, r);
    let zx = zeros_end(x, 0, x.len() as int);
    let zy = zeros_end(y, 0, y.len() as int);
    let sx = x.skip(zx);
    let sy = y.skip(zy);
    lemma_value_skip_zeros(x, zx);
    lemma_value_skip_zeros(y, zy);
    assert forall|k: int| 0 <= k < sx.len() implies is_digit(#[trigger] sx[k]) by {
        assert(sx[k] == x[k + zx]);
    }
    assert forall|k: int| 0 <= k < sy.len() implies is_digit(#[trigger] sy[k]) by {
        assert(sy[k] == y[k + zy]);
    }
    if sx.len() > 0 {
        assert(sx[0] == x[zx]);
    }
    if sy.len() > 0 {
        assert(sy[0] == y[zy]);
    }
    lemma_value_bounds(sx);
    lemma_value_bounds(sy);
    let tx = encode_from(x + q, x.len() as int);
    let ty = encode_from(y + r, y.len() as int);
    let nx = (x.len() - zx) as u64;
    let ny = (y.len() - zy) as u64;
    assert(nx == sx.len() && ny == sy.len());
    let ax = seq![nx] + (digit_seq(sx) + tx);
    let ay = seq![ny] + (digit_seq(sy) + ty);
    assert(natural_key_of(x + q) =~= seq![0u64] + ax);
    assert(natural_key_of(y + r) =~= seq![0u64] + ay);
    lemma_lex_common_prefix(seq![0u64], ax, ay);
    assert(ax[0] == nx && ay[0] == ny);
    if nx < ny {
        lemma_pow10_mono(sx.len(), (sy.len() - 1) as nat);
    } else if nx > ny {
        lemma_pow10_mono(sy.len(), (sx.len() - 1) as nat);
    } else {
        assert(ax.drop_first() =~= digit_seq(sx) + tx);
        assert(ay.drop_first() =~= digit_seq(sy) + ty);
        lemma_same_length_digits(sx, sy, tx, ty);
    }
}

/// Law: digit runs compare by their numeric value, wherever they stand.
/// Two names that agree up to a digit run (`p`, which does not end in a
/// digit, may hold any number of runs itself) and differ there, in runs of
/// different value, sort by the value of those runs; what follows the runs
/// does not matter. So `ch01_p2` comes before `ch01_p10`.
pub proof fn digit_runs_compare_by_value(p: Seq<char>, x: Seq<char>, q: Seq<char>, y: Seq<char>, r: Seq<char>)
    requires
        p.len() == 0 || !is_digit(p.last()),
        x.len() > 0 && all_digits(x) && x.len() <= u64::MAX,
        y.len() > 0 && all_digits(y) && y.len() <= u64::MAX,
        q.len() == 0 || !is_digit(q[0]),
        r.len() == 0 || !is_digit(r[0]),
        digits_value(x) != digits_value(y),
    ensures
        natural_lt(p + x + q, p + y + r) == (digits_value(x) < digits_value(y)),
{
    assert(p + x + q =~= p + (x + q));
    assert(p + y + r =~= p + (y + r));
    lemma_encode_concat(p, x + q, 0);
    lemma_encode_concat(p, y + r, 0);
    lemma_lex_common_prefix(natural_key_of(p), natural_key_of(x + q), natural_key_of(y + r));
    lemma_runs_compare(x, q, y, r);
}

} // verus!
