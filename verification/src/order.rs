//! Lexicographic order of names, and sorted lists without duplicates.

use vstd::prelude::*;
use crate::paths::views;

verus! {

/// `a` comes strictly before `b` in lexicographic (code point) order.
pub open spec fn name_less(a: Seq<char>, b: Seq<char>) -> bool
    decreases a.len(),
{
    if b.len() == 0 {
        false
    } else if a.len() == 0 {
        true
    } else if a[0] != b[0] {
        (a[0] as int) < (b[0] as int)
    } else {
        name_less(a.drop_first(), b.drop_first())
    }
}

pub proof fn lemma_less_irreflexive(a: Seq<char>)
    ensures
        !name_less(a, a),
    decreases a.len(),
{
    if a.len() > 0 {
        lemma_less_irreflexive(a.drop_first());
    }
}

pub proof fn lemma_less_transitive(a: Seq<char>, b: Seq<char>, c: Seq<char>)
    requires
        name_less(a, b),
        name_less(b, c),
    ensures
        name_less(a, c),
    decreases a.len(),
{
    if a.len() > 0 && b.len() > 0 && c.len() > 0 && a[0] == b[0] && b[0] == c[0] {
        lemma_less_transitive(a.drop_first(), b.drop_first(), c.drop_first());
    }
}

pub proof fn lemma_less_total(a: Seq<char>, b: Seq<char>)
    requires
        a != b,
    ensures
        name_less(a, b) || name_less(b, a),
    decreases a.len(),
{
    if a.len() == 0 {
        if b.len() == 0 {
            assert(a =~= b);
        }
    } else if b.len() == 0 {
    } else if a[0] == b[0] {
        if a.drop_first() == b.drop_first() {
            assert(a =~= seq![a[0]] + a.drop_first());
            assert(b =~= seq![b[0]] + b.drop_first());
        }
        lemma_less_total(a.drop_first(), b.drop_first());
    }
}

pub open spec fn strictly_sorted(s: Seq<Seq<char>>) -> bool {
    forall|i: int, j: int| 0 <= i < j < s.len() ==> name_less(s[i], s[j])
}

/// The names of `s`, sorted and without duplicates.
pub open spec fn sorted_unique(s: Seq<Seq<char>>) -> Seq<Seq<char>> {
    choose|t: Seq<Seq<char>>| strictly_sorted(t) && t.to_set() == s.to_set()
}

proof fn lemma_sorted_first_is_least(s: Seq<Seq<char>>, x: Seq<char>)
    requires
        strictly_sorted(s),
        s.contains(x),
        s.len() > 0,
    ensures
        x == s[0] || name_less(s[0], x),
{
}

proof fn lemma_sorted_unique_eq(s: Seq<Seq<char>>, t: Seq<Seq<char>>)
    requires
        strictly_sorted(s),
        strictly_sorted(t),
        s.to_set() == t.to_set(),
    ensures
        s == t,
    decreases s.len(),
{
    if s.len() == 0 {
        if t.len() > 0 {
            assert(t.to_set().contains(t[0]));
            assert(s.contains(t[0]));
        }
        assert(s =~= t);
    } else {
        assert(s.to_set().contains(s[0]));
        assert(t.contains(s[0]));
        assert(t.len() > 0);
        assert(t.to_set().contains(t[0]));
        assert(s.contains(t[0]));
        lemma_sorted_first_is_least(s, t[0]);
        lemma_sorted_first_is_least(t, s[0]);
        if s[0] != t[0] {
            lemma_less_transitive(s[0], t[0], s[0]);
            lemma_less_irreflexive(s[0]);
        }
        let s1 = s.drop_first();
        let t1 = t.drop_first();
        assert forall|x: Seq<char>| s1.to_set().contains(x) <==> t1.to_set().contains(x) by {
            if s1.contains(x) {
                let i = choose|i: int| 0 <= i < s1.len() && s1[i] == x;
                assert(s[i + 1] == x);
                assert(s.contains(x));
                assert(t.to_set().contains(x));
                let j = choose|j: int| 0 <= j < t.len() && t[j] == x;
                if j == 0 {
                    assert(name_less(s[0], s[i + 1]));
                    lemma_less_irreflexive(s[0]);
                }
                assert(t1[j - 1] == x);
            }
            if t1.contains(x) {
                let i = choose|i: int| 0 <= i < t1.len() && t1[i] == x;
                assert(t[i + 1] == x);
                assert(t.contains(x));
                assert(s.to_set().contains(x));
                let j = choose|j: int| 0 <= j < s.len() && s[j] == x;
                if j == 0 {
                    assert(name_less(t[0], t[i + 1]));
                    lemma_less_irreflexive(t[0]);
                }
                assert(s1[j - 1] == x);
            }
        }
        assert(s1.to_set() =~= t1.to_set());
        lemma_sorted_unique_eq(s1, t1);
        assert(s =~= seq![s[0]] + s1);
        assert(t =~= seq![t[0]] + t1);
    }
}

/// A strictly sorted list with the same names is the sorted list.
pub proof fn lemma_is_sorted_unique(t: Seq<Seq<char>>, s: Seq<Seq<char>>)
    requires
        strictly_sorted(t),
        t.to_set() == s.to_set(),
    ensures
        sorted_unique(s) == t,
{
    let u = sorted_unique(s);
    assert(strictly_sorted(u) && u.to_set() == s.to_set());
    lemma_sorted_unique_eq(u, t);
}

/// Whether `a` comes strictly before `b`.
pub fn less(a: &str, b: &str) -> (r: bool)
    ensures
        r == name_less(a@, b@),
{
    let x = crate::text::chars_of(a);
    let y = crate::text::chars_of(b);
    let mut i: usize = 0;
    assert(a@.skip(0) =~= a@);
    assert(b@.skip(0) =~= b@);
    while i < x.len() && i < y.len() && x[i] == y[i]
        invariant
            x@ == a@,
            y@ == b@,
            i <= x@.len(),
            i <= y@.len(),
            name_less(a@, b@) == name_less(a@.skip(i as int), b@.skip(i as int)),
        decreases x@.len() - i,
    {
        assert(a@.skip(i as int).drop_first() =~= a@.skip(i + 1));
        assert(b@.skip(i as int).drop_first() =~= b@.skip(i + 1));
        i = i + 1;
    }
    let ghost sa = a@.skip(i as int);
    let ghost sb = b@.skip(i as int);
    assert(name_less(a@, b@) == name_less(sa, sb));
    if i == y.len() {
        assert(sb.len() == 0);
        assert(!name_less(sa, sb));
        false
    } else if i == x.len() {
        assert(sa.len() == 0 && sb.len() > 0);
        true
    } else {
        assert(sa[0] == x@[i as int] && sb[0] == y@[i as int]);
        assert(sa[0] != sb[0]);
        x[i] < y[i]
    }
}

/// Sorts `names` and drops duplicates.
pub fn sort_unique(names: Vec<String>) -> (out: Vec<String>)
    ensures
        views(out@) == sorted_unique(views(names@)),
{
    let ghost all = views(names@);
    let mut out: Vec<String> = Vec::new();
    let mut i: usize = 0;
    assert(views(out@).to_set() =~= all.take(0).to_set());
    while i < names.len()
        invariant
            all == views(names@),
            i <= names@.len(),
            strictly_sorted(views(out@)),
            views(out@).to_set() == all.take(i as int).to_set(),
        decreases names@.len() - i,
    {
        let name = &names[i];
        let mut j: usize = 0;
        while j < out.len() && less(out[j].as_str(), name.as_str())
            invariant
                j <= out@.len(),
                forall|a: int| 0 <= a < j ==> name_less(#[trigger] out@[a]@, name@),
            decreases out@.len() - j,
        {
            j = j + 1;
        }
        let ghost before = views(out@);
        if j < out.len() && out[j] == *name {
            assert(all.take(i + 1) =~= all.take(i as int).push(name@));
            proof { all.take(i as int).lemma_push_to_set_commute(name@); }
            assert(before[j as int] == name@);
            assert(before.to_set().contains(name@));
            assert(views(out@).to_set() =~= all.take(i + 1).to_set());
        } else {
            out.insert(j, name.clone());
            proof {
                let v = views(out@);
                assert(v =~= before.insert(j as int, name@));
                assert(all.take(i + 1) =~= all.take(i as int).push(name@));
                assert forall|x: Seq<char>| v.to_set().contains(x) <==> all.take(i + 1).to_set().contains(x) by {
                    let grown = all.take(i + 1);
                    if v.contains(x) {
                        let k = choose|k: int| 0 <= k < v.len() && v[k] == x;
                        if k != j {
                            let b = if k < j { k } else { k - 1 };
                            assert(before[b] == x);
                            assert(before.to_set().contains(x));
                            assert(all.take(i as int).to_set().contains(x));
                            let m = choose|m: int| 0 <= m < i && all.take(i as int)[m] == x;
                            assert(grown[m] == x);
                        } else {
                            assert(grown[i as int] == x);
                        }
                        assert(grown.contains(x));
                    }
                    if grown.contains(x) {
                        let k = choose|k: int| 0 <= k < grown.len() && grown[k] == x;
                        if k < i {
                            assert(all.take(i as int)[k] == grown[k]);
                            assert(all.take(i as int).to_set().contains(x));
                            assert(before.contains(x));
                            let m = choose|m: int| 0 <= m < before.len() && before[m] == x;
                            if m < j {
                                assert(v[m] == x);
                            } else {
                                assert(v[m + 1] == x);
                            }
                        } else {
                            assert(v[j as int] == x);
                        }
                    }
                }
                assert(v.to_set() =~= all.take(i + 1).to_set());
                assert forall|a: int, b: int| 0 <= a < b < v.len() implies name_less(v[a], v[b]) by {
                    if b < j {
                        assert(v[a] == before[a] && v[b] == before[b]);
                    } else if b == j {
                        assert(v[a] == out@[a]@);
                    } else if a == j {
                        assert(v[b] == before[b - 1]);
                        if before[j as int] != name@ {
                            assert(!name_less(before[j as int], name@));
                            lemma_less_total(before[j as int], name@);
                        }
                        if b - 1 > j {
                            lemma_less_transitive(name@, before[j as int], before[b - 1]);
                        }
                    } else if a < j {
                        assert(v[a] == before[a]);
                        assert(v[b] == before[b - 1]);
                    } else {
                        assert(v[a] == before[a - 1]);
                        assert(v[b] == before[b - 1]);
                    }
                }
            }
        }
        i = i + 1;
    }
    proof {
        assert(all.take(names@.len() as int) =~= all);
        lemma_is_sorted_unique(views(out@), all);
    }
    out
}

} // verus!
