//! The order of texts (by character code, as `str`'s `Ord` compares them)
//! and sorting lists of texts.
use vstd::prelude::*;
use crate::text::{chars_of, owned, str_eq, views};

verus! {

/// `a` comes strictly before `b`: at the first differing position `a` has
/// the smaller character code, or `a` is a proper prefix of `b`.
pub open spec fn text_lt(a: Seq<char>, b: Seq<char>) -> bool
    decreases a.len(),
{
    if a.len() == 0 {
        b.len() > 0
    } else if b.len() == 0 {
        false
    } else if a[0] != b[0] {
        (a[0] as u32) < (b[0] as u32)
    } else {
        text_lt(a.skip(1), b.skip(1))
    }
}

/// `x` placed into `s` before the first item that does not come before it.
pub open spec fn sorted_insert(s: Seq<Seq<char>>, x: Seq<char>) -> Seq<Seq<char>>
    decreases s.len(),
{
    if s.len() == 0 {
        seq![x]
    } else if text_lt(s[0], x) {
        seq![s[0]] + sorted_insert(s.skip(1), x)
    } else {
        seq![x] + s
    }
}

/// The items of `s` in ascending order, repeats kept (what `sort` leaves).
pub open spec fn sort_texts(s: Seq<Seq<char>>) -> Seq<Seq<char>>
    decreases s.len(),
{
    if s.len() == 0 {
        seq![]
    } else {
        sorted_insert(sort_texts(s.drop_last()), s.last())
    }
}

/// `x` placed into `s` before the first item that does not come before it,
/// unless an equal item is met first.
pub open spec fn unique_insert(s: Seq<Seq<char>>, x: Seq<char>) -> Seq<Seq<char>>
    decreases s.len(),
{
    if s.len() == 0 {
        seq![x]
    } else if s[0] == x {
        s
    } else if text_lt(s[0], x) {
        seq![s[0]] + unique_insert(s.skip(1), x)
    } else {
        seq![x] + s
    }
}

/// The distinct items of `s` in ascending order (what `sort` then `dedup` leaves).
pub open spec fn sort_unique(s: Seq<Seq<char>>) -> Seq<Seq<char>>
    decreases s.len(),
{
    if s.len() == 0 {
        seq![]
    } else {
        unique_insert(sort_unique(s.drop_last()), s.last())
    }
}

/// Each item comes strictly before the next.
pub open spec fn strictly_sorted(s: Seq<Seq<char>>) -> bool {
    forall|i: int, j: int| 0 <= i < j < s.len() ==> text_lt(s[i], s[j])
}

/// Whether `a` comes strictly before `b`.
pub fn str_lt(a: &str, b: &str) -> (r: bool)
    ensures
        r == text_lt(a@, b@),
{
    let av = chars_of(a);
    let bv = chars_of(b);
    let mut i: usize = 0;
    assert(av@.skip(0) == av@);
    assert(bv@.skip(0) == bv@);
    loop
        invariant
            i <= av.len(),
            i <= bv.len(),
            text_lt(a@, b@) == text_lt(av@.skip(i as int), bv@.skip(i as int)),
            av@ == a@,
            bv@ == b@,
        decreases av.len() - i,
    {
        if i == av.len() {
            return i < bv.len();
        }
        if i == bv.len() {
            return false;
        }
        if av[i] != bv[i] {
            return (av[i] as u32) < (bv[i] as u32);
        }
        assert(av@.skip(i as int).skip(1) == av@.skip(i + 1));
        assert(bv@.skip(i as int).skip(1) == bv@.skip(i + 1));
        i = i + 1;
    }
}

/// Inserts `x` into `v` before the first item that does not come before it;
/// with `keep_repeat` false, nothing is inserted when an equal item is met first.
fn insert_text(v: &mut Vec<String>, x: &str, keep_repeat: bool)
    ensures
        keep_repeat ==> views(final(v)@) == sorted_insert(views(old(v)@), x@),
        !keep_repeat ==> views(final(v)@) == unique_insert(views(old(v)@), x@),
{
    let ghost s = views(v@);
    let mut p: usize = 0;
    assert(s.skip(0) == s);
    loop
        invariant
            s == views(old(v)@),
            v@ == old(v)@,
            p <= v.len(),
            sorted_insert(s, x@) == s.take(p as int) + sorted_insert(s.skip(p as int), x@),
            !keep_repeat ==> unique_insert(s, x@) == s.take(p as int) + unique_insert(
                s.skip(p as int),
                x@,
            ),
        decreases v.len() - p,
    {
        if p == v.len() {
            v.insert(p, owned(x));
            assert(views(v@) == s.take(p as int) + seq![x@]);
            return;
        }
        assert(s.skip(p as int)[0] == s[p as int]);
        assert(s.skip(p as int).skip(1) == s.skip(p + 1));
        assert(s.take(p + 1) == s.take(p as int) + seq![s[p as int]]);
        if !keep_repeat && str_eq(v[p].as_str(), x) {
            assert(s.take(p as int) + s.skip(p as int) == s);
            return;
        }
        if str_lt(v[p].as_str(), x) {
            p = p + 1;
        } else {
            v.insert(p, owned(x));
            assert(views(v@) == s.take(p as int) + (seq![x@] + s.skip(p as int)));
            return;
        }
    }
}

/// The texts in ascending order, repeats kept.
pub fn sorted_texts(items: &Vec<String>) -> (out: Vec<String>)
    ensures
        views(out@) == sort_texts(views(items@)),
{
    let ghost s = views(items@);
    let mut out: Vec<String> = Vec::new();
    let mut i: usize = 0;
    while i < items.len()
        invariant
            i <= items.len(),
            s == views(items@),
            views(out@) == sort_texts(s.take(i as int)),
        decreases items.len() - i,
    {
        assert(s.take(i + 1).drop_last() == s.take(i as int));
        insert_text(&mut out, items[i].as_str(), true);
        i = i + 1;
    }
    assert(s.take(items.len() as int) == s);
    out
}

/// The distinct texts in ascending order.
pub fn sorted_unique_texts(items: &Vec<String>) -> (out: Vec<String>)
    ensures
        views(out@) == sort_unique(views(items@)),
{
    let ghost s = views(items@);
    let mut out: Vec<String> = Vec::new();
    let mut i: usize = 0;
    while i < items.len()
        invariant
            i <= items.len(),
            s == views(items@),
            views(out@) == sort_unique(s.take(i as int)),
        decreases items.len() - i,
    {
        assert(s.take(i + 1).drop_last() == s.take(i as int));
        insert_text(&mut out, items[i].as_str(), false);
        i = i + 1;
    }
    assert(s.take(items.len() as int) == s);
    out
}

/// No text comes strictly before itself.
pub proof fn lemma_text_lt_irreflexive(a: Seq<char>)
    ensures
        !text_lt(a, a),
    decreases a.len(),
{
    if a.len() > 0 {
        lemma_text_lt_irreflexive(a.skip(1));
    }
}

/// Coming strictly before is transitive.
pub proof fn lemma_text_lt_transitive(a: Seq<char>, b: Seq<char>, c: Seq<char>)
    requires
        text_lt(a, b),
        text_lt(b, c),
    ensures
        text_lt(a, c),
    decreases a.len(),
{
    if a.len() > 0 && b.len() > 0 && c.len() > 0 && a[0] == b[0] && b[0] == c[0] {
        lemma_text_lt_transitive(a.skip(1), b.skip(1), c.skip(1));
    }
}

/// Of two different texts, one comes strictly before the other.
pub proof fn lemma_text_lt_total(a: Seq<char>, b: Seq<char>)
    requires
        a != b,
    ensures
        text_lt(a, b) || text_lt(b, a),
    decreases a.len(),
{
    if a.len() > 0 && b.len() > 0 && a[0] == b[0] {
        assert(a.skip(1) != b.skip(1)) by {
            if a.skip(1) == b.skip(1) {
                assert(a.skip(1).len() == a.len() - 1);
                assert(b.skip(1).len() == b.len() - 1);
                assert(a.len() == b.len());
                assert forall|i: int| 0 <= i < a.len() implies a[i] == b[i] by {
                    if i > 0 {
                        assert(a[i] == a.skip(1)[i - 1]);
                        assert(b[i] == b.skip(1)[i - 1]);
                    }
                }
                assert(a =~= b);
            }
        }
        lemma_text_lt_total(a.skip(1), b.skip(1));
    } else if a.len() > 0 && b.len() > 0 {
        let (c, d) = (a[0], b[0]);
        if (c as u32) == (d as u32) {
            vstd::utf8::char_u32_cast(c, c as u32);
            vstd::utf8::char_u32_cast(d, d as u32);
        }
    } else if a.len() == 0 && b.len() == 0 {
        assert(a =~= b);
    }
}

/// Coming strictly before is asymmetric.
pub proof fn lemma_text_lt_asymmetric(a: Seq<char>, b: Seq<char>)
    requires
        text_lt(a, b),
    ensures
        !text_lt(b, a),
{
    if text_lt(b, a) {
        lemma_text_lt_transitive(a, b, a);
        lemma_text_lt_irreflexive(a);
    }
}

/// Each item comes no later than the next (repeats allowed).
pub open spec fn sorted(s: Seq<Seq<char>>) -> bool {
    forall|i: int, j: int| 0 <= i < j < s.len() ==> !text_lt(s[j], s[i])
}

/// Where `sorted_insert` and `unique_insert` place `x`: before the first
/// item that does not come before it.
pub open spec fn insert_pos(s: Seq<Seq<char>>, x: Seq<char>) -> int
    decreases s.len(),
{
    if s.len() == 0 {
        0
    } else if text_lt(s[0], x) {
        1 + insert_pos(s.skip(1), x)
    } else {
        0
    }
}

/// `sorted_insert` inserts `x` at `insert_pos`, after exactly the items
/// that come before it.
pub proof fn lemma_sorted_insert_pos(s: Seq<Seq<char>>, x: Seq<char>)
    ensures
        0 <= insert_pos(s, x) <= s.len(),
        sorted_insert(s, x) == s.insert(insert_pos(s, x), x),
        forall|i: int| 0 <= i < insert_pos(s, x) ==> text_lt(#[trigger] s[i], x),
        insert_pos(s, x) < s.len() ==> !text_lt(s[insert_pos(s, x)], x),
    decreases s.len(),
{
    if s.len() > 0 {
        if text_lt(s[0], x) {
            lemma_sorted_insert_pos(s.skip(1), x);
            let p = insert_pos(s.skip(1), x);
            assert(seq![s[0]] + s.skip(1).insert(p, x) =~= s.insert(p + 1, x));
            assert forall|i: int| 0 <= i < p + 1 implies text_lt(#[trigger] s[i], x) by {
                if i > 0 {
                    assert(s[i] == s.skip(1)[i - 1]);
                }
            }
            if p + 1 < s.len() {
                assert(s[p + 1] == s.skip(1)[p]);
            }
        } else {
            assert(seq![x] + s =~= s.insert(0, x));
        }
    }
}

/// Inserting into a sorted list keeps it sorted and keeps its items, with
/// `x` added.
pub proof fn lemma_sorted_insert_sorted(s: Seq<Seq<char>>, x: Seq<char>)
    requires
        sorted(s),
    ensures
        sorted(sorted_insert(s, x)),
        sorted_insert(s, x).to_multiset() == s.to_multiset().insert(x),
{
    lemma_sorted_insert_pos(s, x);
    let p = insert_pos(s, x);
    let r = s.insert(p, x);
    vstd::seq_lib::to_multiset_insert(s, p, x);
    assert forall|i: int, j: int| 0 <= i < j < r.len() implies !text_lt(r[j], r[i]) by {
        if j < p {
            assert(r[i] == s[i] && r[j] == s[j]);
        } else if j == p {
            assert(r[i] == s[i] && r[j] == x);
            assert(text_lt(s[i], x));
            lemma_text_lt_asymmetric(s[i], x);
        } else if i == p {
            assert(r[j] == s[j - 1] && r[i] == x);
            assert(!text_lt(s[p], x));
            if text_lt(s[j - 1], x) {
                if s[p] == x {
                    if j - 1 > p {
                        assert(!text_lt(s[j - 1], s[p]));
                    } else {
                        lemma_text_lt_irreflexive(x);
                    }
                } else {
                    lemma_text_lt_total(s[p], x);
                    if j - 1 > p {
                        lemma_text_lt_transitive(s[j - 1], x, s[p]);
                    } else {
                        lemma_text_lt_asymmetric(x, s[p]);
                    }
                }
            }
        } else if i < p {
            assert(r[i] == s[i] && r[j] == s[j - 1]);
        } else {
            assert(r[i] == s[i - 1] && r[j] == s[j - 1]);
        }
    }
}

/// What `sort` leaves is sorted and holds the same items, repeats included.
pub proof fn law_sort_texts(s: Seq<Seq<char>>)
    ensures
        sorted(sort_texts(s)),
        sort_texts(s).to_multiset() == s.to_multiset(),
    decreases s.len(),
{
    if s.len() > 0 {
        law_sort_texts(s.drop_last());
        lemma_sorted_insert_sorted(sort_texts(s.drop_last()), s.last());
        vstd::seq_lib::to_multiset_build(s.drop_last(), s.last());
        assert(s.drop_last().push(s.last()) == s);
    } else {
        assert(sort_texts(s) =~= s);
    }
}

/// `unique_insert` inserts `x` unless it is already there, in which case
/// nothing changes.
pub proof fn lemma_unique_insert(s: Seq<Seq<char>>, x: Seq<char>)
    requires
        strictly_sorted(s),
    ensures
        strictly_sorted(unique_insert(s, x)),
        forall|y: Seq<char>| #[trigger] unique_insert(s, x).contains(y) <==> (s.contains(y) || y == x),
    decreases s.len(),
{
    if s.len() > 0 {
        let t = s.skip(1);
        assert forall|i: int, j: int| 0 <= i < j < t.len() implies text_lt(t[i], t[j]) by {
            assert(t[i] == s[i + 1] && t[j] == s[j + 1]);
        }
        assert(s =~= seq![s[0]] + t);
        if s[0] == x {
        } else if text_lt(s[0], x) {
            lemma_unique_insert(t, x);
            let r = unique_insert(t, x);
            assert forall|k: int| 0 <= k < r.len() implies text_lt(s[0], #[trigger] r[k]) by {
                assert(r.contains(r[k]));
                if r[k] != x {
                    let m = choose|m: int| 0 <= m < t.len() && t[m] == r[k];
                    assert(s[m + 1] == r[k]);
                }
            }
            let full = seq![s[0]] + r;
            assert forall|i: int, j: int| 0 <= i < j < full.len() implies text_lt(full[i], full[j]) by {
                if i == 0 {
                    assert(full[j] == r[j - 1]);
                } else {
                    assert(full[i] == r[i - 1] && full[j] == r[j - 1]);
                }
            }
            assert forall|y: Seq<char>| #[trigger] full.contains(y) <==> (s.contains(y) || y == x) by {
                if full.contains(y) {
                    let k = choose|k: int| 0 <= k < full.len() && full[k] == y;
                    if k > 0 {
                        assert(r.contains(r[k - 1]));
                        if r[k - 1] != x {
                            let m = choose|m: int| 0 <= m < t.len() && t[m] == r[k - 1];
                            assert(s[m + 1] == y);
                        }
                    } else {
                        assert(s[0] == y);
                    }
                }
                if s.contains(y) {
                    let k = choose|k: int| 0 <= k < s.len() && s[k] == y;
                    if k == 0 {
                        assert(full[0] == y);
                    } else {
                        assert(t[k - 1] == y);
                        assert(t.contains(y));
                        assert(unique_insert(t, x).contains(y));
                        assert(r.contains(y));
                        let m = choose|m: int| 0 <= m < r.len() && r[m] == y;
                        assert(full[m + 1] == y);
                    }
                }
                if y == x {
                    assert(unique_insert(t, x).contains(x));
                    assert(r.contains(x));
                    let m = choose|m: int| 0 <= m < r.len() && r[m] == x;
                    assert(full[m + 1] == x);
                }
            }
        } else {
            lemma_text_lt_total(s[0], x);
            let full = seq![x] + s;
            assert forall|i: int, j: int| 0 <= i < j < full.len() implies text_lt(full[i], full[j]) by {
                if i == 0 {
                    assert(full[j] == s[j - 1]);
                    if j - 1 > 0 {
                        lemma_text_lt_transitive(x, s[0], s[j - 1]);
                    }
                } else {
                    assert(full[i] == s[i - 1] && full[j] == s[j - 1]);
                }
            }
            assert forall|y: Seq<char>| #[trigger] full.contains(y) <==> (s.contains(y) || y == x) by {
                if full.contains(y) {
                    let k = choose|k: int| 0 <= k < full.len() && full[k] == y;
                    if k > 0 {
                        assert(s[k - 1] == y);
                    }
                }
                if s.contains(y) {
                    let k = choose|k: int| 0 <= k < s.len() && s[k] == y;
                    assert(full[k + 1] == y);
                }
                if y == x {
                    assert(full[0] == x);
                }
            }
        }
    } else {
        assert forall|y: Seq<char>| #[trigger] seq![x].contains(y) <==> (s.contains(y) || y == x) by {
            if y == x {
                assert(seq![x][0] == x);
            }
        }
    }
}

/// What `sort` then `dedup` leaves is strictly sorted (so no item repeats)
/// and holds exactly the items of the list.
pub proof fn law_sort_unique(s: Seq<Seq<char>>)
    ensures
        strictly_sorted(sort_unique(s)),
        forall|y: Seq<char>| #[trigger] sort_unique(s).contains(y) <==> s.contains(y),
    decreases s.len(),
{
    if s.len() > 0 {
        law_sort_unique(s.drop_last());
        lemma_unique_insert(sort_unique(s.drop_last()), s.last());
        assert forall|y: Seq<char>| #[trigger] sort_unique(s).contains(y) <==> s.contains(y) by {
            if s.contains(y) {
                let k = choose|k: int| 0 <= k < s.len() && s[k] == y;
                if k < s.len() - 1 {
                    assert(s.drop_last()[k] == y);
                    assert(s.drop_last().contains(y));
                }
            }
            if s.drop_last().contains(y) {
                let k = choose|k: int| 0 <= k < s.drop_last().len() && s.drop_last()[k] == y;
                assert(s[k] == y);
            }
            if y == s.last() {
                assert(s[s.len() - 1] == y);
            }
        }
    }
}

} // verus!
