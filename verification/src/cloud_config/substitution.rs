//! Simultaneous placeholder substitution, and when the key-by-key passes of the
//! generator agree with it whatever the order of the keys.
use vstd::prelude::*;
use crate::text::replace_all;
use super::{placeholder, substitute_all};

verus! {

/// Whether `s` begins with `p`.
pub open spec fn starts_with(s: Seq<char>, p: Seq<char>) -> bool {
    p.len() <= s.len() && s.subrange(0, p.len() as int) == p
}

/// Whether the character `c` does not occur in `s`.
pub open spec fn free_of(s: Seq<char>, c: char) -> bool {
    forall|i: int| 0 <= i < s.len() ==> s[i] != c
}

/// Whether a key can name a placeholder unambiguously: it holds no `$` and no `}`.
pub open spec fn plain_key(k: Seq<char>) -> bool {
    free_of(k, '$') && free_of(k, '}')
}

/// Whether `s` holds `${` at position `i`.
pub open spec fn opens_brace(s: Seq<char>, i: int) -> bool {
    0 <= i && i + 1 < s.len() && s[i] == '$' && s[i + 1] == '{'
}

/// Whether the placeholders of `s` are well formed: every `${` begins a placeholder
/// `${NAME}` whose name holds no `$` and no `}`, and no `$` stands directly before a
/// `${`. Other `$` text, such as shell variables, may stand anywhere.
pub open spec fn placeholders_well_formed(s: Seq<char>) -> bool {
    &&& forall|i: int| #[trigger] opens_brace(s, i) ==> exists|o: Seq<char>|
        plain_key(o) && #[trigger] starts_with(s.skip(i), placeholder(o))
    &&& forall|i: int| #[trigger] opens_brace(s, i) && i >= 1 ==> s[i - 1] != '$'
}

/// `s` with every placeholder of a key of `m` replaced by that key's value in one
/// left-to-right pass; all other text is kept, and inserted values are not scanned again.
pub open spec fn substitute_map(s: Seq<char>, m: Map<Seq<char>, Seq<char>>) -> Seq<char>
    decreases s.len(),
    via substitute_map_decreases
{
    if s.len() == 0 {
        s
    } else if exists|k: Seq<char>| m.contains_key(k) && #[trigger] starts_with(s, placeholder(k)) {
        let k = choose|k: Seq<char>| m.contains_key(k) && #[trigger] starts_with(s, placeholder(k));
        m[k] + substitute_map(s.skip(placeholder(k).len() as int), m)
    } else {
        seq![s[0]] + substitute_map(s.skip(1), m)
    }
}

#[via_fn]
proof fn substitute_map_decreases(s: Seq<char>, m: Map<Seq<char>, Seq<char>>) {
    if s.len() > 0 {
        if exists|k: Seq<char>| m.contains_key(k) && #[trigger] starts_with(s, placeholder(k)) {
            let k = choose|k: Seq<char>| m.contains_key(k) && #[trigger] starts_with(s, placeholder(k));
            lemma_placeholder_shape(k);
        }
    }
}

/// The map of key/value entries; for a key given twice the later value counts.
pub open spec fn entries_map(e: Seq<(Seq<char>, Seq<char>)>) -> Map<Seq<char>, Seq<char>>
    decreases e.len(),
{
    if e.len() == 0 {
        Map::empty()
    } else {
        entries_map(e.drop_last()).insert(e.last().0, e.last().1)
    }
}

proof fn lemma_placeholder_shape(k: Seq<char>)
    ensures
        placeholder(k).len() == k.len() + 3,
        placeholder(k)[0] == '$',
        placeholder(k)[1] == '{',
        placeholder(k)[k.len() + 2int] == '}',
        forall|j: int| 0 <= j < k.len() ==> placeholder(k)[j + 2] == k[j],
{
    reveal_strlit("${");
    reveal_strlit("}");
}

proof fn lemma_placeholder_unique(s: Seq<char>, k1: Seq<char>, k2: Seq<char>)
    requires
        plain_key(k1),
        plain_key(k2),
        starts_with(s, placeholder(k1)),
        starts_with(s, placeholder(k2)),
    ensures
        k1 == k2,
{
    lemma_placeholder_shape(k1);
    lemma_placeholder_shape(k2);
    let p1 = placeholder(k1);
    let p2 = placeholder(k2);
    assert(forall|j: int| 0 <= j < p1.len() ==> s[j] == p1[j]) by {
        assert forall|j: int| 0 <= j < p1.len() implies s[j] == p1[j] by {
            assert(s.subrange(0, p1.len() as int)[j] == p1[j]);
        }
    }
    assert(forall|j: int| 0 <= j < p2.len() ==> s[j] == p2[j]) by {
        assert forall|j: int| 0 <= j < p2.len() implies s[j] == p2[j] by {
            assert(s.subrange(0, p2.len() as int)[j] == p2[j]);
        }
    }
    if k1.len() < k2.len() {
        assert(s[k1.len() + 2int] == '}');
        assert(k2[k1.len() as int] == '}');
    } else if k2.len() < k1.len() {
        assert(s[k2.len() + 2int] == '}');
        assert(k1[k2.len() as int] == '}');
    } else {
        assert forall|j: int| 0 <= j < k1.len() implies k1[j] == k2[j] by {
            assert(s[j + 2] == p1[j + 2]);
        }
        assert(k1 =~= k2);
    }
}

/// A `$`-free prefix passes through a replacement of a pattern that starts with `$`.
proof fn lemma_replace_passes_prefix(a: Seq<char>, b: Seq<char>, pat: Seq<char>, to: Seq<char>)
    requires
        free_of(a, '$'),
        pat.len() > 0,
        pat[0] == '$',
    ensures
        replace_all(a + b, pat, to) == a + replace_all(b, pat, to),
    decreases a.len(),
{
    if a.len() > 0 {
        let s = a + b;
        if s.len() >= pat.len() {
            assert(s.subrange(0, pat.len() as int)[0] == s[0]);
        }
        assert(s.skip(1) =~= a.skip(1) + b);
        lemma_replace_passes_prefix(a.skip(1), b, pat, to);
        assert(s =~= seq![s[0]] + s.skip(1));
        assert(seq![s[0]] + (a.skip(1) + replace_all(b, pat, to)) =~= a + replace_all(b, pat, to));
        if s.len() < pat.len() {
            assert(b.len() < pat.len());
        }
    } else {
        assert(a + b =~= b);
    }
}

/// A `$`-free prefix passes through a simultaneous substitution unchanged.
proof fn lemma_substitute_passes_prefix(a: Seq<char>, b: Seq<char>, m: Map<Seq<char>, Seq<char>>)
    requires
        free_of(a, '$'),
    ensures
        substitute_map(a + b, m) == a + substitute_map(b, m),
    decreases a.len(),
{
    if a.len() > 0 {
        let s = a + b;
        assert forall|k: Seq<char>| m.contains_key(k) implies !#[trigger] starts_with(s, placeholder(k)) by {
            lemma_placeholder_shape(k);
            if starts_with(s, placeholder(k)) {
                assert(s.subrange(0, placeholder(k).len() as int)[0] == s[0]);
            }
        }
        assert(s.skip(1) =~= a.skip(1) + b);
        lemma_substitute_passes_prefix(a.skip(1), b, m);
        assert(seq![s[0]] + (a.skip(1) + substitute_map(b, m)) =~= a + substitute_map(b, m));
    } else {
        assert(a + b =~= b);
    }
}

/// With no keys, the substitution leaves the text as it is.
proof fn lemma_substitute_empty(s: Seq<char>)
    ensures
        substitute_map(s, Map::empty()) == s,
    decreases s.len(),
{
    if s.len() > 0 {
        lemma_substitute_empty(s.skip(1));
        assert(seq![s[0]] + s.skip(1) =~= s);
    }
}

/// Well-formed placeholders stay so in every suffix.
proof fn lemma_well_formed_suffix(s: Seq<char>, n: int)
    requires
        placeholders_well_formed(s),
        0 <= n <= s.len(),
    ensures
        placeholders_well_formed(s.skip(n)),
{
    let t = s.skip(n);
    assert forall|i: int| #[trigger] opens_brace(t, i) implies exists|o: Seq<char>|
        plain_key(o) && #[trigger] starts_with(t.skip(i), placeholder(o)) by {
        assert(opens_brace(s, n + i));
        assert(t.skip(i) =~= s.skip(n + i));
    }
    assert forall|i: int| #[trigger] opens_brace(t, i) && i >= 1 implies t[i - 1] != '$' by {
        assert(opens_brace(s, n + i));
    }
}

/// After its `$`, the placeholder of a plain key holds no `$`.
proof fn lemma_placeholder_tail(k: Seq<char>)
    requires
        plain_key(k),
    ensures
        free_of(placeholder(k).skip(1), '$'),
{
    lemma_placeholder_shape(k);
    let t = placeholder(k).skip(1);
    assert forall|i: int| 0 <= i < t.len() implies t[i] != '$' by {
        assert(t[i] == placeholder(k)[i + 1]);
        if 1 <= i < k.len() + 1 {
            assert(placeholder(k)[(i - 1) + 2] == k[i - 1]);
        }
    }
}

proof fn lemma_starts_with_placeholder(k: Seq<char>, rest: Seq<char>)
    ensures
        starts_with(placeholder(k) + rest, placeholder(k)),
        (placeholder(k) + rest).skip(placeholder(k).len() as int) == rest,
{
    let p = placeholder(k);
    assert((p + rest).subrange(0, p.len() as int) =~= p);
    assert((p + rest).skip(p.len() as int) =~= rest);
}

/// At the placeholder of a key of `m`, the substitution puts that key's value.
proof fn lemma_substitute_at_key(k: Seq<char>, rest: Seq<char>, m: Map<Seq<char>, Seq<char>>)
    requires
        m.contains_key(k),
        forall|j: Seq<char>| #[trigger] m.contains_key(j) ==> plain_key(j),
    ensures
        substitute_map(placeholder(k) + rest, m) == m[k] + substitute_map(rest, m),
{
    let s = placeholder(k) + rest;
    lemma_placeholder_shape(k);
    lemma_starts_with_placeholder(k, rest);
    let c = choose|j: Seq<char>| m.contains_key(j) && #[trigger] starts_with(s, placeholder(j));
    lemma_placeholder_unique(s, c, k);
}

/// At the placeholder of a key outside `m`, the substitution keeps the placeholder.
proof fn lemma_substitute_at_other(k: Seq<char>, rest: Seq<char>, m: Map<Seq<char>, Seq<char>>)
    requires
        !m.contains_key(k),
        plain_key(k),
        forall|j: Seq<char>| #[trigger] m.contains_key(j) ==> plain_key(j),
    ensures
        substitute_map(placeholder(k) + rest, m) == placeholder(k) + substitute_map(rest, m),
{
    let p = placeholder(k);
    let s = p + rest;
    lemma_placeholder_shape(k);
    lemma_starts_with_placeholder(k, rest);
    assert forall|j: Seq<char>| m.contains_key(j) implies !#[trigger] starts_with(s, placeholder(j)) by {
        if starts_with(s, placeholder(j)) {
            lemma_placeholder_unique(s, j, k);
        }
    }
    lemma_placeholder_tail(k);
    assert(s.skip(1) =~= p.skip(1) + rest);
    lemma_substitute_passes_prefix(p.skip(1), rest, m);
    assert(seq![s[0]] + (p.skip(1) + substitute_map(rest, m)) =~= p + substitute_map(rest, m));
}

/// Replacing a key's placeholder at the start of a text puts the value there.
proof fn lemma_replace_at_key(k: Seq<char>, rest: Seq<char>, to: Seq<char>)
    ensures
        replace_all(placeholder(k) + rest, placeholder(k), to) == to + replace_all(rest, placeholder(k), to),
{
    lemma_placeholder_shape(k);
    lemma_starts_with_placeholder(k, rest);
}

/// Replacing one key's placeholder keeps the placeholder of another key.
proof fn lemma_replace_at_other(k: Seq<char>, other: Seq<char>, rest: Seq<char>, to: Seq<char>)
    requires
        plain_key(k),
        plain_key(other),
        k != other,
    ensures
        replace_all(placeholder(other) + rest, placeholder(k), to) == placeholder(other) + replace_all(rest, placeholder(k), to),
{
    let p = placeholder(other);
    let pat = placeholder(k);
    let s = p + rest;
    lemma_placeholder_shape(k);
    lemma_placeholder_shape(other);
    lemma_starts_with_placeholder(other, rest);
    lemma_placeholder_tail(other);
    lemma_replace_passes_prefix(p.skip(1), rest, pat, to);
    assert(s.skip(1) =~= p.skip(1) + rest);
    if s.len() < pat.len() {
        assert(rest.len() < pat.len());
        assert(p.skip(1) + rest =~= s.skip(1));
        assert(s =~= p + rest);
    } else {
        if s.subrange(0, pat.len() as int) == pat {
            lemma_placeholder_unique(s, k, other);
        }
        assert(seq![s[0]] + (p.skip(1) + replace_all(rest, pat, to)) =~= p + replace_all(rest, pat, to));
    }
}

/// A `$` that does not open `${` is kept by the substitution, and what follows it in
/// the result does not begin with `{`.
proof fn lemma_substitute_at_lone_dollar(t: Seq<char>, m: Map<Seq<char>, Seq<char>>)
    requires
        placeholders_well_formed(t),
        t.len() > 0,
        t[0] == '$',
        !opens_brace(t, 0),
    ensures
        substitute_map(t, m) == seq!['$'] + substitute_map(t.skip(1), m),
        substitute_map(t.skip(1), m).len() > 0 ==> substitute_map(t.skip(1), m)[0] != '{',
{
    assert forall|j: Seq<char>| m.contains_key(j) implies !#[trigger] starts_with(t, placeholder(j)) by {
        lemma_placeholder_shape(j);
        if starts_with(t, placeholder(j)) {
            assert(t.subrange(0, placeholder(j).len() as int)[1] == t[1]);
        }
    }
    let u = t.skip(1);
    if u.len() > 0 {
        assert(u[0] == t[1]);
        assert(!opens_brace(t, 1));
        assert forall|j: Seq<char>| m.contains_key(j) implies !#[trigger] starts_with(u, placeholder(j)) by {
            lemma_placeholder_shape(j);
            if starts_with(u, placeholder(j)) {
                assert(u.subrange(0, placeholder(j).len() as int)[0] == u[0]);
                assert(u.subrange(0, placeholder(j).len() as int)[1] == u[1]);
            }
        }
    }
}

/// One more key-by-key pass over a simultaneous substitution is the simultaneous
/// substitution with that key added.
proof fn lemma_replace_extends(
    t: Seq<char>,
    m: Map<Seq<char>, Seq<char>>,
    k: Seq<char>,
    v: Seq<char>,
)
    requires
        forall|j: Seq<char>| #[trigger] m.contains_key(j) ==> plain_key(j) && free_of(m[j], '$'),
        plain_key(k),
        !m.contains_key(k),
        free_of(v, '$'),
        placeholders_well_formed(t),
    ensures
        replace_all(substitute_map(t, m), placeholder(k), v) == substitute_map(t, m.insert(k, v)),
    decreases t.len(),
{
    let m2 = m.insert(k, v);
    let pat = placeholder(k);
    lemma_placeholder_shape(k);
    assert forall|j: Seq<char>| #[trigger] m2.contains_key(j) implies plain_key(j) by {
        if j != k {
            assert(m.contains_key(j));
        }
    }
    assert forall|j: Seq<char>| #[trigger] m.contains_key(j) implies plain_key(j) by {}
    if t.len() == 0 {
    } else if t[0] != '$' {
        let a = seq![t[0]];
        let rest = t.skip(1);
        assert(t =~= a + rest);
        lemma_substitute_passes_prefix(a, rest, m);
        lemma_substitute_passes_prefix(a, rest, m2);
        lemma_replace_passes_prefix(a, substitute_map(rest, m), pat, v);
        lemma_well_formed_suffix(t, 1);
        lemma_replace_extends(rest, m, k, v);
    } else if !opens_brace(t, 0) {
        let u = t.skip(1);
        lemma_substitute_at_lone_dollar(t, m);
        lemma_substitute_at_lone_dollar(t, m2);
        lemma_well_formed_suffix(t, 1);
        lemma_replace_extends(u, m, k, v);
        let x = substitute_map(u, m);
        let s = seq!['$'] + x;
        assert(s.skip(1) =~= x);
        if s.len() >= pat.len() {
            assert(s.subrange(0, pat.len() as int)[1] == s[1]);
            assert(s[1] == x[0]);
        } else {
            assert(x.len() < pat.len());
        }
    } else {
        assert(opens_brace(t, 0));
        assert(t.skip(0) =~= t);
        let o = choose|o: Seq<char>| plain_key(o) && #[trigger] starts_with(t.skip(0), placeholder(o));
        let po = placeholder(o);
        lemma_placeholder_shape(o);
        let rest = t.skip(po.len() as int);
        assert(t =~= po + rest) by {
            assert(t.subrange(0, po.len() as int) == po);
            assert(t =~= t.subrange(0, po.len() as int) + t.skip(po.len() as int));
        }
        lemma_well_formed_suffix(t, po.len() as int);
        lemma_replace_extends(rest, m, k, v);
        if m.contains_key(o) {
            lemma_substitute_at_key(o, rest, m);
            lemma_substitute_at_key(o, rest, m2);
            lemma_replace_passes_prefix(m[o], substitute_map(rest, m), pat, v);
            assert(m2[o] == m[o]);
        } else if o == k {
            lemma_substitute_at_other(o, rest, m);
            lemma_substitute_at_key(o, rest, m2);
            lemma_replace_at_key(k, substitute_map(rest, m), v);
        } else {
            lemma_substitute_at_other(o, rest, m);
            lemma_substitute_at_other(o, rest, m2);
            lemma_replace_at_other(k, o, substitute_map(rest, m), v);
        }
    }
}

/// Whether the key-by-key passes over `e` are safe to take in any order on `template`:
/// no key is given twice, every key is plain, no value holds a `$`, and the
/// template's placeholders are well formed.
pub open spec fn substitution_safe(template: Seq<char>, e: Seq<(Seq<char>, Seq<char>)>) -> bool {
    &&& forall|i: int, j: int| 0 <= i < j < e.len() ==> #[trigger] e[i].0 != #[trigger] e[j].0
    &&& forall|i: int| 0 <= i < e.len() ==> plain_key(#[trigger] e[i].0) && free_of(e[i].1, '$')
    &&& placeholders_well_formed(template)
}

/// Each key of the map of the entries is a plain key of the entries, with a `$`-free value.
proof fn lemma_entries_map_bounds(e: Seq<(Seq<char>, Seq<char>)>)
    requires
        forall|i: int| 0 <= i < e.len() ==> plain_key(#[trigger] e[i].0) && free_of(e[i].1, '$'),
    ensures
        forall|j: Seq<char>| #[trigger] entries_map(e).contains_key(j) ==> {
            &&& plain_key(j)
            &&& free_of(entries_map(e)[j], '$')
            &&& exists|i: int| 0 <= i < e.len() && #[trigger] e[i].0 == j
        },
    decreases e.len(),
{
    if e.len() > 0 {
        let init = e.drop_last();
        assert forall|i: int| 0 <= i < init.len() implies plain_key(#[trigger] init[i].0) && free_of(init[i].1, '$') by {
            assert(init[i] == e[i]);
        }
        lemma_entries_map_bounds(init);
        let last = e[e.len() - 1];
        assert(e.last() == last);
        assert forall|j: Seq<char>| #[trigger] entries_map(e).contains_key(j) implies {
            &&& plain_key(j)
            &&& free_of(entries_map(e)[j], '$')
            &&& exists|i: int| 0 <= i < e.len() && #[trigger] e[i].0 == j
        } by {
            if j == last.0 {
                assert(e[e.len() - 1].0 == j);
            } else {
                assert(entries_map(init).contains_key(j));
                let i = choose|i: int| 0 <= i < init.len() && #[trigger] init[i].0 == j;
                assert(e[i] == init[i]);
                assert(e[i].0 == j);
            }
        }
    }
}

/// Where the passes are safe, substituting key by key in order gives the simultaneous
/// substitution by the map of the entries, so the order of the entries does not count.
pub proof fn lemma_substitution_is_simultaneous(template: Seq<char>, e: Seq<(Seq<char>, Seq<char>)>)
    requires
        substitution_safe(template, e),
    ensures
        substitute_all(template, e) == substitute_map(template, entries_map(e)),
    decreases e.len(),
{
    if e.len() == 0 {
        lemma_substitute_empty(template);
    } else {
        let init = e.drop_last();
        assert forall|i: int| 0 <= i < init.len() implies plain_key(#[trigger] init[i].0) && free_of(init[i].1, '$') by {
            assert(init[i] == e[i]);
        }
        assert forall|i: int, j: int| 0 <= i < j < init.len() implies #[trigger] init[i].0 != #[trigger] init[j].0 by {
            assert(init[i] == e[i]);
            assert(init[j] == e[j]);
        }
        lemma_substitution_is_simultaneous(template, init);
        lemma_entries_map_bounds(init);
        let last = e[e.len() - 1];
        assert(e.last() == last);
        assert(plain_key(e[e.len() - 1].0) && free_of(e[e.len() - 1].1, '$'));
        if entries_map(init).contains_key(last.0) {
            let i = choose|i: int| 0 <= i < init.len() && #[trigger] init[i].0 == last.0;
            assert(init[i] == e[i]);
        }
        lemma_replace_extends(template, entries_map(init), last.0, last.1);
    }
}

/// Two safe orders of the same entries give the same text.
pub proof fn lemma_substitution_order_free(
    template: Seq<char>,
    e1: Seq<(Seq<char>, Seq<char>)>,
    e2: Seq<(Seq<char>, Seq<char>)>,
)
    requires
        substitution_safe(template, e1),
        substitution_safe(template, e2),
        entries_map(e1) == entries_map(e2),
    ensures
        substitute_all(template, e1) == substitute_all(template, e2),
{
    lemma_substitution_is_simultaneous(template, e1);
    lemma_substitution_is_simultaneous(template, e2);
}

} // verus!
