//! Lists of values by name, each name once.
use vstd::prelude::*;
use crate::text;

verus! {

/// Whether no name occurs twice.
pub open spec fn names_once<V>(list: Seq<(String, V)>) -> bool {
    forall|i: int, j: int|
        0 <= i < j < list.len() ==> (#[trigger] list[i]).0@ != (#[trigger] list[j]).0@
}

/// Whether the name occurs.
pub open spec fn has_name<V>(list: Seq<(String, V)>, name: Seq<char>) -> bool {
    exists|i: int| 0 <= i < list.len() && (#[trigger] list[i]).0@ == name
}

/// The value of each name.
pub open spec fn as_map<V: DeepView>(list: Seq<(String, V)>) -> Map<Seq<char>, V::V> {
    Map::new(
        |name: Seq<char>| has_name(list, name),
        |name: Seq<char>|
            list[choose|i: int| 0 <= i < list.len() && (#[trigger] list[i]).0@ == name].1.deep_view(),
    )
}

/// The value of a name is the one that stands with it.
pub proof fn lemma_value_at<V: DeepView>(list: Seq<(String, V)>, i: int)
    requires
        names_once(list),
        0 <= i < list.len(),
    ensures
        as_map(list).contains_key(list[i].0@),
        as_map(list)[list[i].0@] == list[i].1.deep_view(),
{
    let name = list[i].0@;
    let j = choose|j: int| 0 <= j < list.len() && (#[trigger] list[j]).0@ == name;
    assert(list[i].0@ == name);
    assert(j == i);
}

/// There are as many names as the list is long.
pub proof fn lemma_name_count<V: DeepView>(list: Seq<(String, V)>)
    requires
        names_once(list),
    ensures
        as_map(list).dom().finite(),
        as_map(list).len() == list.len(),
{
    let names = list.map_values(|e: (String, V)| e.0@);
    assert(names.no_duplicates());
    names.unique_seq_to_set();
    assert(as_map(list).dom() =~= names.to_set()) by {
        assert forall|n: Seq<char>| names.to_set().contains(n) implies as_map(
            list,
        ).dom().contains(n) by {
            let k = choose|k: int| 0 <= k < names.len() && names[k] == n;
            assert(list[k].0@ == n);
        }
        assert forall|n: Seq<char>| as_map(list).dom().contains(n) implies names.to_set().contains(
            n,
        ) by {
            let k = choose|k: int| 0 <= k < list.len() && (#[trigger] list[k]).0@ == n;
            assert(names[k] == n);
        }
    }
}

/// Finds the place of a name.
pub fn find<V>(list: &Vec<(String, V)>, name: &str) -> (r: Option<usize>)
    ensures
        match r {
            Some(i) => i < list@.len() && list@[i as int].0@ == name@,
            None => !has_name(list@, name@),
        },
{
    let mut i: usize = 0;
    while i < list.len()
        invariant
            i <= list@.len(),
            forall|k: int| 0 <= k < i ==> (#[trigger] list@[k]).0@ != name@,
        decreases list@.len() - i,
    {
        if text::same(list[i].0.as_str(), name) {
            return Some(i);
        }
        i = i + 1;
    }
    None
}

/// Puts the value under the name, in place of one that was there.
pub fn put<V: DeepView>(list: &mut Vec<(String, V)>, name: &str, value: V)
    requires
        names_once(old(list)@),
    ensures
        names_once(final(list)@),
        as_map(final(list)@) == as_map(old(list)@).insert(name@, value.deep_view()),
{
    let ghost before = list@;
    match find(list, name) {
        Some(at) => {
            list[at] = (name.to_owned(), value);
        },
        None => {
            list.push((name.to_owned(), value));
        },
    }
    proof {
        let after = list@;
        let put_at = choose|k: int|
            0 <= k < after.len() && (#[trigger] after[k]).0@ == name@ && after[k].1 == value && (
            forall|j: int| 0 <= j < after.len() && j != k ==> (#[trigger] after[j]) == before[j]
                && j < before.len());
        assert(exists|k: int|
            0 <= k < after.len() && (#[trigger] after[k]).0@ == name@ && after[k].1 == value && (
            forall|j: int| 0 <= j < after.len() && j != k ==> (#[trigger] after[j]) == before[j]
                && j < before.len())) by {
            if has_name(before, name@) {
                let k = choose|k: int| 0 <= k < before.len() && (#[trigger] before[k]).0@ == name@;
                assert(after[k].0@ == name@);
            } else {
                assert(after[after.len() - 1].0@ == name@);
            }
        }
        assert(names_once(after)) by {
            assert forall|i: int, j: int| 0 <= i < j < after.len() implies (#[trigger] after[i]).0@
                != (#[trigger] after[j]).0@ by {
                if i == put_at {
                    assert(after[j] == before[j]);
                    if after.len() == before.len() {
                        assert(before[put_at].0@ == name@);
                    } else if before[j].0@ == name@ {
                        assert(has_name(before, name@));
                    }
                } else if j == put_at {
                    assert(after[i] == before[i]);
                    if after.len() == before.len() {
                        assert(before[put_at].0@ == name@);
                    } else if before[i].0@ == name@ {
                        assert(has_name(before, name@));
                    }
                } else {
                    assert(after[i] == before[i] && after[j] == before[j]);
                }
            }
        }
        let expected = as_map(before).insert(name@, value.deep_view());
        assert forall|n: Seq<char>| as_map(after).dom().contains(n) == expected.dom().contains(
            n,
        ) by {
            if has_name(after, n) && n != name@ {
                let k = choose|k: int| 0 <= k < after.len() && (#[trigger] after[k]).0@ == n;
                assert(after[k] == before[k]);
                assert(has_name(before, n));
            }
            if has_name(before, n) && n != name@ {
                let k = choose|k: int| 0 <= k < before.len() && (#[trigger] before[k]).0@ == n;
                assert(after[k].0@ == n);
                assert(has_name(after, n));
            }
            assert(after[put_at].0@ == name@);
        }
        assert forall|n: Seq<char>| as_map(after).dom().contains(n) implies as_map(after)[n]
            == expected[n] by {
            if n == name@ {
                lemma_value_at(after, put_at);
            } else {
                let k = choose|k: int| 0 <= k < after.len() && (#[trigger] after[k]).0@ == n;
                assert(after[k] == before[k]);
                lemma_value_at(after, k);
                lemma_value_at(before, k);
            }
        }
        assert(as_map(after) =~= expected);
    }
}

} // verus!
