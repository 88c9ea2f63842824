//! Lists of texts kept in strict lexicographic order, which is how a set of
//! tags is stored: sorted, each tag once.

use vstd::prelude::*;
use crate::text::{lex_less, str_lex_less};

verus! {

/// Whether the texts stand in strictly rising order.
pub open spec fn strictly_sorted(s: Seq<Seq<char>>) -> bool {
    forall|i: int, j: int| 0 <= i < j < s.len() ==> lex_less(s[i], s[j])
}

/// The sorted list `s` with `x` put in its place, unless it is there already.
pub open spec fn insert_sorted(s: Seq<Seq<char>>, x: Seq<char>) -> Seq<Seq<char>>
    decreases s.len(),
{
    if s.len() == 0 {
        seq![x]
    } else if s.last() == x {
        s
    } else if lex_less(s.last(), x) {
        s.push(x)
    } else {
        insert_sorted(s.drop_last(), x).push(s.last())
    }
}

/// The texts in rising order, each once.
pub open spec fn sorted_unique(texts: Seq<Seq<char>>) -> Seq<Seq<char>>
    decreases texts.len(),
{
    if texts.len() == 0 {
        Seq::empty()
    } else {
        insert_sorted(sorted_unique(texts.drop_last()), texts.last())
    }
}

/// No text is less than itself.
pub proof fn lemma_lex_irreflexive(a: Seq<char>)
    ensures
        !lex_less(a, a),
    decreases a.len(),
{
    if a.len() > 0 {
        lemma_lex_irreflexive(a.skip(1));
    }
}

/// Of two different texts one is less than the other.
pub proof fn lemma_lex_total(a: Seq<char>, b: Seq<char>)
    ensures
        lex_less(a, b) || a == b || lex_less(b, a),
    decreases a.len(),
{
    if a.len() == 0 || b.len() == 0 {
        if a.len() == 0 && b.len() == 0 {
            assert(a =~= b);
        }
    } else if a[0] == b[0] {
        lemma_lex_total(a.skip(1), b.skip(1));
        if a.skip(1) == b.skip(1) {
            assert(a =~= seq![a[0]] + a.skip(1));
            assert(b =~= seq![b[0]] + b.skip(1));
        }
    }
}

/// The order is transitive.
pub proof fn lemma_lex_transitive(a: Seq<char>, b: Seq<char>, c: Seq<char>)
    requires
        lex_less(a, b),
        lex_less(b, c),
    ensures
        lex_less(a, c),
    decreases a.len(),
{
    if a.len() > 0 && b.len() > 0 && c.len() > 0 {
        if a[0] == b[0] && b[0] == c[0] {
            lemma_lex_transitive(a.skip(1), b.skip(1), c.skip(1));
        }
    }
}

/// A strictly sorted list holds no text twice.
pub proof fn lemma_sorted_no_duplicates(s: Seq<Seq<char>>)
    requires
        strictly_sorted(s),
    ensures
        s.no_duplicates(),
{
    assert forall|i: int, j: int| 0 <= i < s.len() && 0 <= j < s.len() && i != j implies s[i]
        != s[j] by {
        lemma_lex_irreflexive(s[i]);
        if i < j {
            assert(lex_less(s[i], s[j]));
        } else {
            assert(lex_less(s[j], s[i]));
        }
    }
}

/// Putting a text into a sorted list keeps it sorted and adds that text alone.
pub proof fn lemma_insert_sorted(s: Seq<Seq<char>>, x: Seq<char>)
    requires
        strictly_sorted(s),
    ensures
        strictly_sorted(insert_sorted(s, x)),
        forall|y: Seq<char>| insert_sorted(s, x).contains(y) <==> (s.contains(y) || y == x),
    decreases s.len(),
{
    let r = insert_sorted(s, x);
    if s.len() == 0 {
        assert(r[0] == x);
        assert forall|y: Seq<char>| r.contains(y) <==> (s.contains(y) || y == x) by {
            if y == x {
                assert(r[0] == y);
            }
        }
    } else if s.last() == x {
        assert(s[s.len() - 1] == x);
    } else if lex_less(s.last(), x) {
        assert forall|i: int, j: int| 0 <= i < j < r.len() implies lex_less(r[i], r[j]) by {
            if j == s.len() {
                if i < s.len() - 1 {
                    assert(lex_less(s[i], s[s.len() - 1]));
                    lemma_lex_transitive(s[i], s.last(), x);
                }
            } else {
                assert(lex_less(s[i], s[j]));
            }
        }
        assert forall|y: Seq<char>| r.contains(y) <==> (s.contains(y) || y == x) by {
            if r.contains(y) {
                let k = choose|k: int| 0 <= k < r.len() && r[k] == y;
                if k < s.len() {
                    assert(s[k] == y);
                }
            }
            if s.contains(y) {
                let k = choose|k: int| 0 <= k < s.len() && s[k] == y;
                assert(r[k] == y);
            }
            if y == x {
                assert(r[s.len() as int] == y);
            }
        }
    } else {
        let front = s.drop_last();
        let inner = insert_sorted(front, x);
        assert(strictly_sorted(front)) by {
            assert forall|i: int, j: int| 0 <= i < j < front.len() implies lex_less(
                front[i],
                front[j],
            ) by {
                assert(lex_less(s[i], s[j]));
            }
        }
        lemma_insert_sorted(front, x);
        lemma_lex_total(s.last(), x);
        assert(lex_less(x, s.last()));
        assert forall|i: int, j: int| 0 <= i < j < r.len() implies lex_less(r[i], r[j]) by {
            if j == inner.len() {
                assert(inner.contains(inner[i]));
                if inner[i] == x {
                } else {
                    assert(front.contains(inner[i]));
                    let k = choose|k: int| 0 <= k < front.len() && front[k] == inner[i];
                    assert(lex_less(s[k], s[s.len() - 1]));
                }
            } else {
                assert(lex_less(inner[i], inner[j]));
            }
        }
        assert forall|y: Seq<char>| r.contains(y) <==> (s.contains(y) || y == x) by {
            if r.contains(y) {
                let k = choose|k: int| 0 <= k < r.len() && r[k] == y;
                if k < inner.len() {
                    assert(inner.contains(y));
                    if front.contains(y) {
                        let m = choose|m: int| 0 <= m < front.len() && front[m] == y;
                        assert(s[m] == y);
                    }
                } else {
                    assert(s[s.len() - 1] == y);
                }
            }
            if s.contains(y) {
                let k = choose|k: int| 0 <= k < s.len() && s[k] == y;
                if k < s.len() - 1 {
                    assert(front[k] == y);
                    assert(front.contains(y));
                    assert(inner.contains(y));
                    let m = choose|m: int| 0 <= m < inner.len() && inner[m] == y;
                    assert(r[m] == y);
                } else {
                    assert(r[r.len() - 1] == y);
                }
            }
            if y == x {
                assert(inner.contains(y));
                let m = choose|m: int| 0 <= m < inner.len() && inner[m] == y;
                assert(r[m] == y);
            }
        }
    }
}

/// What `sorted_unique` gives is sorted, holds no text twice, and holds
/// exactly the texts it was given.
pub proof fn lemma_sorted_unique(texts: Seq<Seq<char>>)
    ensures
        strictly_sorted(sorted_unique(texts)),
        sorted_unique(texts).no_duplicates(),
        forall|y: Seq<char>| sorted_unique(texts).contains(y) <==> texts.contains(y),
    decreases texts.len(),
{
    if texts.len() > 0 {
        let front = texts.drop_last();
        lemma_sorted_unique(front);
        lemma_insert_sorted(sorted_unique(front), texts.last());
        assert forall|y: Seq<char>| sorted_unique(texts).contains(y) <==> texts.contains(y) by {
            if texts.contains(y) {
                let k = choose|k: int| 0 <= k < texts.len() && texts[k] == y;
                if k < texts.len() - 1 {
                    assert(front[k] == y);
                    assert(front.contains(y));
                }
            }
            if front.contains(y) {
                let k = choose|k: int| 0 <= k < front.len() && front[k] == y;
                assert(texts[k] == y);
            }
            if y == texts.last() {
                assert(texts[texts.len() - 1] == y);
            }
        }
    }
    lemma_sorted_no_duplicates(sorted_unique(texts));
}

/// Puts `x` into the sorted list, unless it is there already.
pub fn insert_text(list: &mut Vec<String>, x: String)
    ensures
        final(list).deep_view() == insert_sorted(old(list).deep_view(), x@),
{
    let ghost s = list.deep_view();
    let mut i: usize = list.len();
    proof {
        assert(s.take(i as int) =~= s);
        assert(insert_sorted(s, x@) + s.skip(i as int) =~= insert_sorted(s, x@));
    }
    while i > 0
        invariant
            i <= list.len(),
            s == list.deep_view(),
            *list == *old(list),
            insert_sorted(s, x@) == insert_sorted(s.take(i as int), x@) + s.skip(i as int),
        decreases i,
    {
        proof {
            assert(s.take(i as int).last() == list@[i - 1]@);
            assert(s.take(i as int).drop_last() =~= s.take(i - 1));
        }
        if list[i - 1] == x {
            proof {
                assert(s.take(i as int) + s.skip(i as int) =~= s);
            }
            return ;
        }
        if str_lex_less(list[i - 1].as_str(), x.as_str()) {
            proof {
                assert(s.take(i as int).push(x@) + s.skip(i as int) =~= s.insert(i as int, x@));
            }
            list.insert(i, x);
            proof {
                assert(list.deep_view() =~= s.insert(i as int, x@));
            }
            return ;
        }
        proof {
            assert(insert_sorted(s.take(i - 1), x@).push(s[i - 1]) + s.skip(i as int)
                =~= insert_sorted(s.take(i - 1), x@) + s.skip(i - 1));
        }
        i -= 1;
    }
    proof {
        assert(s.take(0) =~= Seq::<Seq<char>>::empty());
        assert(seq![x@] + s.skip(0) =~= s.insert(0, x@));
    }
    list.insert(0, x);
    proof {
        assert(list.deep_view() =~= s.insert(0, x@));
    }
}

/// The texts in rising order, each once.
pub fn sort_unique(texts: &Vec<String>) -> (r: Vec<String>)
    ensures
        r.deep_view() == sorted_unique(texts.deep_view()),
{
    let ghost all = texts.deep_view();
    let mut out: Vec<String> = Vec::new();
    let mut i: usize = 0;
    proof {
        assert(out.deep_view() =~= Seq::<Seq<char>>::empty());
        assert(all.take(0) =~= Seq::<Seq<char>>::empty());
    }
    while i < texts.len()
        invariant
            i <= texts.len(),
            all == texts.deep_view(),
            out.deep_view() == sorted_unique(all.take(i as int)),
        decreases texts.len() - i,
    {
        proof {
            assert(all.take(i + 1).drop_last() =~= all.take(i as int));
            assert(all.take(i + 1).last() == texts@[i as int]@);
        }
        insert_text(&mut out, texts[i].clone());
        i += 1;
    }
    proof {
        assert(all.take(texts.len() as int) =~= all);
    }
    out
}

} // verus!
