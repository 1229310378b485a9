//! The order of texts, and lists of texts that are kept in it.
use vstd::prelude::*;
use crate::text;

verus! {

/// Whether `a` comes before `b`: by the first character in which they differ, or as
/// the shorter one where there is none.
pub open spec fn before(a: Seq<char>, b: Seq<char>) -> bool
    decreases a.len(),
{
    if b.len() == 0 {
        false
    } else if a.len() == 0 {
        true
    } else if a[0] == b[0] {
        before(a.drop_first(), b.drop_first())
    } else {
        a[0] < b[0]
    }
}

/// No text comes before itself.
pub proof fn lemma_before_irreflexive(a: Seq<char>)
    ensures
        !before(a, a),
    decreases a.len(),
{
    if a.len() > 0 {
        lemma_before_irreflexive(a.drop_first());
    }
}

/// The order is transitive.
pub proof fn lemma_before_transitive(a: Seq<char>, b: Seq<char>, c: Seq<char>)
    requires
        before(a, b),
        before(b, c),
    ensures
        before(a, c),
    decreases a.len(),
{
    if a.len() > 0 && b.len() > 0 && c.len() > 0 {
        if a[0] == b[0] && b[0] == c[0] {
            lemma_before_transitive(a.drop_first(), b.drop_first(), c.drop_first());
        }
    }
}

/// Of two different texts one comes before the other.
pub proof fn lemma_before_total(a: Seq<char>, b: Seq<char>)
    ensures
        a == b || before(a, b) || before(b, a),
    decreases a.len(),
{
    if a.len() == 0 || b.len() == 0 {
        if a.len() == 0 && b.len() == 0 {
            assert(a =~= b);
        }
    } else if a[0] == b[0] {
        lemma_before_total(a.drop_first(), b.drop_first());
        if a.drop_first() == b.drop_first() {
            assert(a =~= seq![a[0]] + a.drop_first());
            assert(b =~= seq![b[0]] + b.drop_first());
        }
    }
}

/// No two texts come each before the other.
pub proof fn lemma_before_asymmetric(a: Seq<char>, b: Seq<char>)
    requires
        before(a, b),
    ensures
        !before(b, a),
        a != b,
{
    lemma_before_irreflexive(a);
    if before(b, a) {
        lemma_before_transitive(a, b, a);
    }
}

/// Whether `a` comes before `b`.
pub fn comes_before(a: &str, b: &str) -> (r: bool)
    ensures
        r == before(a@, b@),
{
    let xs: Vec<char> = text::chars_of(a);
    let ys: Vec<char> = text::chars_of(b);
    let mut i: usize = 0;
    assert(a@.skip(0) =~= a@);
    assert(b@.skip(0) =~= b@);
    loop
        invariant
            i <= xs@.len(),
            i <= ys@.len(),
            xs@ == a@,
            ys@ == b@,
            before(a@, b@) == before(a@.skip(i as int), b@.skip(i as int)),
        decreases xs@.len() - i,
    {
        if i == ys.len() {
            return false;
        }
        if i == xs.len() {
            return true;
        }
        if xs[i] != ys[i] {
            return xs[i] < ys[i];
        }
        assert(a@.skip(i as int).drop_first() =~= a@.skip(i + 1));
        assert(b@.skip(i as int).drop_first() =~= b@.skip(i + 1));
        i = i + 1;
    }
}

/// Whether each text comes before all that follow it.
pub open spec fn strictly_sorted(s: Seq<Seq<char>>) -> bool {
    forall|i: int, j: int| 0 <= i < j < s.len() ==> before(#[trigger] s[i], #[trigger] s[j])
}

/// Where each text comes before all that follow it, none occurs twice.
pub proof fn lemma_strictly_sorted_unique(s: Seq<Seq<char>>)
    requires
        strictly_sorted(s),
    ensures
        s.no_duplicates(),
{
    assert forall|i: int, j: int| 0 <= i < s.len() && 0 <= j < s.len() && i != j implies s[i]
        != s[j] by {
        lemma_before_irreflexive(s[i]);
        if i < j {
            assert(before(s[i], s[j]));
        } else {
            assert(before(s[j], s[i]));
        }
    }
}

/// Puts `item` into the sorted list, where it is not in it yet.
pub fn insert_sorted(list: &mut Vec<String>, item: String)
    requires
        strictly_sorted(old(list).deep_view()),
    ensures
        strictly_sorted(final(list).deep_view()),
        final(list).deep_view().to_set() == old(list).deep_view().to_set().insert(item@),
{
    let ghost s = list.deep_view();
    let mut i: usize = 0;
    while i < list.len() && comes_before(list[i].as_str(), item.as_str())
        invariant
            i <= list@.len(),
            s == list.deep_view(),
            forall|k: int| 0 <= k < i ==> before(#[trigger] s[k], item@),
        decreases list@.len() - i,
    {
        i = i + 1;
    }
    if i < list.len() && list[i] == item {
        assert(s[i as int] == item@);
        assert(s.to_set() =~= s.to_set().insert(item@));
        return;
    }
    proof {
        if i < s.len() {
            lemma_before_total(s[i as int], item@);
            assert forall|k: int| i <= k < s.len() implies before(item@, #[trigger] s[k]) by {
                if k > i {
                    lemma_before_transitive(item@, s[i as int], s[k]);
                }
            }
        }
    }
    let ghost added = item@;
    list.insert(i, item);
    proof {
        let t = list.deep_view();
        assert(t =~= s.insert(i as int, added));
        assert forall|a: int, b: int| 0 <= a < b < t.len() implies before(
            #[trigger] t[a],
            #[trigger] t[b],
        ) by {
            let sa = if a < i { a } else { a - 1 };
            let sb = if b < i { b } else { b - 1 };
            if a != i {
                assert(t[a] == s[sa]);
            }
            if b != i {
                assert(t[b] == s[sb]);
            }
        }
        assert(t.to_set() =~= s.to_set().insert(added)) by {
            assert(t[i as int] == added);
            assert forall|x: Seq<char>| s.contains(x) implies #[trigger] t.contains(x) by {
                let k = choose|k: int| 0 <= k < s.len() && s[k] == x;
                assert(t[if k < i { k } else { k + 1 }] == x);
            }
            assert forall|x: Seq<char>| #[trigger] t.contains(x) implies s.contains(x) || x
                == added by {
                let k = choose|k: int| 0 <= k < t.len() && t[k] == x;
                if k < i {
                    assert(s[k] == x);
                } else if k > i {
                    assert(s[k - 1] == x);
                }
            }
        }
    }
}

/// The list with `x` put after all that do not come after it.
pub open spec fn sorted_insert(list: Seq<Seq<char>>, x: Seq<char>) -> Seq<Seq<char>>
    decreases list.len(),
{
    if list.len() == 0 {
        seq![x]
    } else if before(x, list[0]) {
        seq![x] + list
    } else {
        seq![list[0]] + sorted_insert(list.drop_first(), x)
    }
}

/// The texts in order; a text that occurs more than once stays as often.
pub open spec fn sorted(list: Seq<Seq<char>>) -> Seq<Seq<char>>
    decreases list.len(),
{
    if list.len() == 0 {
        list
    } else {
        sorted_insert(sorted(list.drop_last()), list.last())
    }
}

/// Whether no text comes before one that stands ahead of it.
pub open spec fn in_order(list: Seq<Seq<char>>) -> bool {
    forall|i: int, j: int| 0 <= i < j < list.len() ==> !before(#[trigger] list[j], #[trigger] list[i])
}

proof fn lemma_sorted_insert(list: Seq<Seq<char>>, x: Seq<char>)
    ensures
        sorted_insert(list, x).len() == list.len() + 1,
        sorted_insert(list, x).to_multiset() == list.to_multiset().insert(x),
        in_order(list) ==> in_order(sorted_insert(list, x)),
    decreases list.len(),
{
    broadcast use vstd::seq_lib::group_to_multiset_ensures;

    if list.len() == 0 {
        assert(sorted_insert(list, x) =~= list.push(x));
    } else if before(x, list[0]) {
        let r = seq![x] + list;
        assert(r =~= list.insert(0, x));
        if in_order(list) {
            assert forall|i: int, j: int| 0 <= i < j < r.len() implies !before(
                #[trigger] r[j],
                #[trigger] r[i],
            ) by {
                assert(r[j] == list[j - 1]);
                if i == 0 {
                    if before(list[j - 1], x) {
                        lemma_before_transitive(list[j - 1], x, list[0]);
                        lemma_before_irreflexive(list[0]);
                        assert(j - 1 > 0);
                        assert(!before(list[j - 1], list[0]));
                    }
                } else {
                    assert(r[i] == list[i - 1]);
                }
            }
        }
    } else {
        let rest = list.drop_first();
        let inner = sorted_insert(rest, x);
        let r = seq![list[0]] + inner;
        lemma_sorted_insert(rest, x);
        assert(r =~= inner.insert(0, list[0]));
        assert(list =~= rest.insert(0, list[0]));
        assert(r.to_multiset() =~= list.to_multiset().insert(x));
        if in_order(list) {
            assert(in_order(rest)) by {
                assert forall|i: int, j: int| 0 <= i < j < rest.len() implies !before(
                    #[trigger] rest[j],
                    #[trigger] rest[i],
                ) by {
                    assert(rest[j] == list[j + 1] && rest[i] == list[i + 1]);
                }
            }
            assert forall|i: int, j: int| 0 <= i < j < r.len() implies !before(
                #[trigger] r[j],
                #[trigger] r[i],
            ) by {
                assert(r[j] == inner[j - 1]);
                if i == 0 {
                    assert(inner.contains(inner[j - 1]));
                    assert(inner.to_multiset().count(inner[j - 1]) > 0);
                    if inner[j - 1] != x {
                        assert(rest.to_multiset().count(inner[j - 1]) > 0);
                        assert(rest.contains(inner[j - 1]));
                        let k = choose|k: int| 0 <= k < rest.len() && rest[k] == inner[j - 1];
                        assert(list[k + 1] == inner[j - 1]);
                    }
                } else {
                    assert(r[i] == inner[i - 1]);
                }
            }
        }
    }
}

/// Sorting puts the texts in order, and neither loses one nor adds one.
pub proof fn law_sorted_is_ordered_permutation(list: Seq<Seq<char>>)
    ensures
        in_order(sorted(list)),
        sorted(list).to_multiset() == list.to_multiset(),
        sorted(list).len() == list.len(),
    decreases list.len(),
{
    broadcast use vstd::seq_lib::group_to_multiset_ensures;

    if list.len() > 0 {
        law_sorted_is_ordered_permutation(list.drop_last());
        lemma_sorted_insert(sorted(list.drop_last()), list.last());
        assert(list =~= list.drop_last().push(list.last()));
    }
}

/// Puts `item` after all that do not come after it.
pub fn insert_in_order(list: &mut Vec<String>, item: String)
    ensures
        final(list).deep_view() == sorted_insert(old(list).deep_view(), item@),
{
    let ghost s = list.deep_view();
    let ghost x = item@;
    let mut i: usize = 0;
    assert(s.skip(0) =~= s);
    while i < list.len() && !comes_before(item.as_str(), list[i].as_str())
        invariant
            i <= list@.len(),
            x == item@,
            s == list.deep_view(),
            sorted_insert(s, x) == s.take(i as int) + sorted_insert(s.skip(i as int), x),
        decreases list@.len() - i,
    {
        assert(s.skip(i as int).drop_first() =~= s.skip(i + 1));
        assert(s.skip(i as int)[0] == s[i as int]);
        assert(s.take(i + 1) =~= s.take(i as int).push(s[i as int]));
        assert(s.take(i as int) + (seq![s[i as int]] + sorted_insert(s.skip(i + 1), x))
            =~= s.take(i + 1) + sorted_insert(s.skip(i + 1), x));
        i = i + 1;
    }
    list.insert(i, item);
    assert(list.deep_view() =~= s.insert(i as int, x));
    proof {
        if i < s.len() {
            assert(s.skip(i as int)[0] == s[i as int]);
        }
        assert(s.insert(i as int, x) =~= s.take(i as int) + sorted_insert(s.skip(i as int), x));
    }
}

/// Texts are ordered by the first character in which they differ, and a text comes before every
/// longer one that begins with it.
pub proof fn law_first_difference_decides(
    same: Seq<char>,
    c: char,
    x: Seq<char>,
    d: char,
    y: Seq<char>,
)
    ensures
        c != d ==> (before(same + seq![c] + x, same + seq![d] + y) <==> c < d),
        before(same, same + seq![c] + x),
        !before(same + seq![c] + x, same),
        !before(same, same),
    decreases same.len(),
{
    let a = same + seq![c] + x;
    let b = same + seq![d] + y;
    if same.len() > 0 {
        let rest = same.drop_first();
        law_first_difference_decides(rest, c, x, d, y);
        assert(a.drop_first() =~= rest + seq![c] + x);
        assert(b.drop_first() =~= rest + seq![d] + y);
        assert(a[0] == same[0] && b[0] == same[0]);
    } else {
        assert(a[0] == c && b[0] == d);
    }
}

} // verus!
