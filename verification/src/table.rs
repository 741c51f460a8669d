//! Tables: lists of pairs, a name and what belongs to it, in the order in
//! which the names were added.

use vstd::prelude::*;
use crate::text::same_text;

verus! {

/// The index of the first pair of a table that is named `key`.
pub open spec fn key_index<V>(pairs: Seq<(Seq<char>, V)>, key: Seq<char>) -> Option<int>
    decreases pairs.len(),
{
    if pairs.len() == 0 {
        None
    } else {
        match key_index(pairs.drop_last(), key) {
            Some(i) => Some(i),
            None => if pairs.last().0 == key {
                Some(pairs.len() - 1)
            } else {
                None
            },
        }
    }
}

/// What belongs to the first pair of a table that is named `key`.
pub open spec fn lookup<V>(pairs: Seq<(Seq<char>, V)>, key: Seq<char>) -> Option<V> {
    match key_index(pairs, key) {
        Some(i) => Some(pairs[i].1),
        None => None,
    }
}

/// Does every name stand in the table once?
pub open spec fn distinct_keys<V>(pairs: Seq<(Seq<char>, V)>) -> bool {
    forall|i: int, j: int| 0 <= i < j < pairs.len() ==> pairs[i].0 != pairs[j].0
}

/// The table with `value` under the name `key`: in the place of what the
/// name held before, or at the end where the name is new.
pub open spec fn inserted<V>(pairs: Seq<(Seq<char>, V)>, key: Seq<char>, value: V) -> Seq<
    (Seq<char>, V),
> {
    match key_index(pairs, key) {
        Some(i) => pairs.update(i, (key, value)),
        None => pairs.push((key, value)),
    }
}

/// `key_index` gives the least index of the name, and `None` where no pair
/// has it.
pub proof fn lemma_key_index<V>(pairs: Seq<(Seq<char>, V)>, key: Seq<char>)
    ensures
        match key_index(pairs, key) {
            Some(i) => 0 <= i < pairs.len() && pairs[i].0 == key && forall|j: int|
                0 <= j < i ==> (#[trigger] pairs[j]).0 != key,
            None => forall|j: int| 0 <= j < pairs.len() ==> (#[trigger] pairs[j]).0 != key,
        },
    decreases pairs.len(),
{
    if pairs.len() > 0 {
        lemma_key_index(pairs.drop_last(), key);
        assert forall|j: int| 0 <= j < pairs.len() - 1 implies pairs.drop_last()[j]
            == #[trigger] pairs[j] by {}
        match key_index(pairs.drop_last(), key) {
            Some(i) => {
                assert(pairs.drop_last()[i] == pairs[i]);
                assert forall|j: int| 0 <= j < i implies (#[trigger] pairs[j]).0 != key by {
                    assert(pairs.drop_last()[j] == pairs[j]);
                }
            },
            None => {
                assert forall|j: int| 0 <= j < pairs.len() - 1 implies (#[trigger] pairs[j]).0
                    != key by {
                    assert(pairs.drop_last()[j] == pairs[j]);
                }
            },
        }
    }
}

/// A name stands once in a table that it was inserted into, where every
/// name stood once before; and it holds what was inserted.
pub proof fn lemma_inserted<V>(pairs: Seq<(Seq<char>, V)>, key: Seq<char>, value: V)
    ensures
        lookup(inserted(pairs, key, value), key) == Some(value),
        distinct_keys(pairs) ==> distinct_keys(inserted(pairs, key, value)),
        forall|other: Seq<char>|
            other != key ==> lookup(inserted(pairs, key, value), other) == lookup(pairs, other),
{
    lemma_key_index(pairs, key);
    let after = inserted(pairs, key, value);
    lemma_key_index(after, key);
    match key_index(pairs, key) {
        Some(i) => {
            assert(after[i].0 == key);
        },
        None => {
            assert(after[pairs.len() as int].0 == key);
            assert forall|j: int| 0 <= j < pairs.len() implies (#[trigger] after[j]).0 != key by {
                assert(after[j] == pairs[j]);
            }
        },
    }
    assert forall|other: Seq<char>| other != key implies lookup(after, other) == lookup(
        pairs,
        other,
    ) by {
        lemma_key_index(pairs, other);
        lemma_key_index(after, other);
        match key_index(pairs, other) {
            Some(k) => {
                assert(after[k] == pairs[k]);
                assert forall|j: int| 0 <= j < k implies (#[trigger] after[j]).0 != other by {
                    if after[j] != pairs[j] {
                    } else {
                        assert(pairs[j].0 != other);
                    }
                }
            },
            None => {
                assert forall|j: int| 0 <= j < after.len() implies (#[trigger] after[j]).0
                    != other by {
                    if j < pairs.len() && after[j] == pairs[j] {
                        assert(pairs[j].0 != other);
                    }
                }
            },
        }
    }
    if distinct_keys(pairs) {
        assert forall|i: int, j: int| 0 <= i < j < after.len() implies after[i].0 != after[j].0 by {
            if i < pairs.len() && j < pairs.len() {
                assert(pairs[i].0 != pairs[j].0);
            }
        }
    }
}

/// The index of the first pair of a table that is named `key`.
pub fn find_key<V: DeepView>(pairs: &Vec<(String, V)>, key: &str) -> (r: Option<usize>)
    ensures
        match r {
            Some(i) => i < pairs.len() && key_index(pairs.deep_view(), key@) == Some(i as int)
                && lookup(pairs.deep_view(), key@) == Some(pairs[i as int].1.deep_view()),
            None => key_index(pairs.deep_view(), key@) is None && lookup(pairs.deep_view(), key@)
                is None,
        },
{
    let ghost all = pairs.deep_view();
    proof {
        lemma_key_index(all, key@);
    }
    let mut i: usize = 0;
    while i < pairs.len()
        invariant
            i <= pairs.len(),
            all == pairs.deep_view(),
            forall|j: int| 0 <= j < i ==> (#[trigger] all[j]).0 != key@,
        decreases pairs.len() - i,
    {
        proof {
            assert(all[i as int] == pairs[i as int].deep_view());
        }
        if same_text(pairs[i].0.as_str(), key) {
            proof {
                lemma_key_index(all, key@);
            }
            return Some(i);
        }
        i += 1;
    }
    None
}

/// Puts `value` under the name `key`: in the place of what the name held
/// before, or at the end where the name is new.
pub fn insert<V: DeepView>(pairs: &mut Vec<(String, V)>, key: String, value: V)
    ensures
        final(pairs).deep_view() == inserted(old(pairs).deep_view(), key@, value.deep_view()),
{
    let ghost before = pairs.deep_view();
    match find_key(pairs, key.as_str()) {
        Some(at) => {
            pairs.set(at, (key, value));
            assert(pairs.deep_view() =~= before.update(at as int, (key@, value.deep_view())));
        },
        None => {
            pairs.push((key, value));
            assert(pairs.deep_view() =~= before.push((key@, value.deep_view())));
        },
    }
}

} // verus!
