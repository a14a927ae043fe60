//! Lists of keyed items read as tables: of two items with one key the later
//! one counts.

use vstd::prelude::*;

verus! {

/// The table that a list of pairs stands for.
pub open spec fn table_of<K, V>(pairs: Seq<(K, V)>) -> Map<K, V>
    decreases pairs.len(),
{
    if pairs.len() == 0 {
        Map::empty()
    } else {
        table_of(pairs.drop_last()).insert(pairs.last().0, pairs.last().1)
    }
}

/// No key stands twice in the list.
pub open spec fn distinct_keys<K, V>(pairs: Seq<(K, V)>) -> bool {
    forall|a: int, b: int| 0 <= a < b < pairs.len() ==> pairs[a].0 != pairs[b].0
}

/// The keys of the table are the keys of the pairs.
pub proof fn lemma_table_keys<K, V>(pairs: Seq<(K, V)>, key: K)
    ensures
        table_of(pairs).contains_key(key) <==> exists|i: int|
            0 <= i < pairs.len() && (#[trigger] pairs[i]).0 == key,
    decreases pairs.len(),
{
    if pairs.len() > 0 {
        lemma_table_keys(pairs.drop_last(), key);
        if table_of(pairs).contains_key(key) {
            if pairs.last().0 == key {
                assert(pairs[pairs.len() - 1].0 == key);
            } else {
                let i = choose|i: int|
                    0 <= i < pairs.drop_last().len() && (#[trigger] pairs.drop_last()[i]).0 == key;
                assert(pairs[i].0 == key);
            }
        }
        if exists|i: int| 0 <= i < pairs.len() && (#[trigger] pairs[i]).0 == key {
            let i = choose|i: int| 0 <= i < pairs.len() && (#[trigger] pairs[i]).0 == key;
            if i < pairs.len() - 1 {
                assert(pairs.drop_last()[i].0 == key);
            }
        }
    }
}

/// With distinct keys, the table gives each key the value of its pair.
pub proof fn lemma_table_value<K, V>(pairs: Seq<(K, V)>, i: int)
    requires
        0 <= i < pairs.len(),
        distinct_keys(pairs),
    ensures
        table_of(pairs).contains_key(pairs[i].0),
        table_of(pairs)[pairs[i].0] == pairs[i].1,
    decreases pairs.len(),
{
    if i < pairs.len() - 1 {
        assert(distinct_keys(pairs.drop_last())) by {
            assert forall|a: int, b: int| 0 <= a < b < pairs.drop_last().len() implies pairs.drop_last()[a].0
                != pairs.drop_last()[b].0 by {
                assert(pairs[a].0 != pairs[b].0);
            }
        }
        lemma_table_value(pairs.drop_last(), i);
        assert(pairs.drop_last()[i] == pairs[i]);
    }
}

/// The table gives a key the value of the last pair that has it.
pub proof fn lemma_table_last_value<K, V>(pairs: Seq<(K, V)>, i: int)
    requires
        0 <= i < pairs.len(),
        forall|j: int| i < j < pairs.len() ==> (#[trigger] pairs[j]).0 != pairs[i].0,
    ensures
        table_of(pairs).contains_key(pairs[i].0),
        table_of(pairs)[pairs[i].0] == pairs[i].1,
    decreases pairs.len(),
{
    if i < pairs.len() - 1 {
        assert(pairs[pairs.len() - 1].0 != pairs[i].0);
        assert forall|j: int| i < j < pairs.drop_last().len() implies (#[trigger] pairs.drop_last()[j]).0
            != pairs.drop_last()[i].0 by {
            assert(pairs[j].0 != pairs[i].0);
        }
        lemma_table_last_value(pairs.drop_last(), i);
        assert(pairs.drop_last()[i] == pairs[i]);
    }
}

/// A new value in the place of the last pair of a key sets the key in the table.
pub proof fn lemma_table_update_last<K, V>(pairs: Seq<(K, V)>, i: int, value: V)
    requires
        0 <= i < pairs.len(),
        forall|j: int| i < j < pairs.len() ==> (#[trigger] pairs[j]).0 != pairs[i].0,
    ensures
        table_of(pairs.update(i, (pairs[i].0, value))) == table_of(pairs).insert(
            pairs[i].0,
            value,
        ),
    decreases pairs.len(),
{
    let changed = pairs.update(i, (pairs[i].0, value));
    if i == pairs.len() - 1 {
        assert(changed.drop_last() =~= pairs.drop_last());
        assert(table_of(changed) =~= table_of(pairs).insert(pairs[i].0, value));
    } else {
        assert(pairs[pairs.len() - 1].0 != pairs[i].0);
        assert(changed.drop_last() =~= pairs.drop_last().update(i, (pairs[i].0, value)));
        assert forall|j: int| i < j < pairs.drop_last().len() implies (#[trigger] pairs.drop_last()[j]).0
            != pairs.drop_last()[i].0 by {
            assert(pairs[j].0 != pairs[i].0);
        }
        lemma_table_update_last(pairs.drop_last(), i, value);
        assert(pairs.drop_last()[i] == pairs[i]);
        assert(table_of(changed) =~= table_of(pairs).insert(pairs[i].0, value));
    }
}

/// A pair added for a key that the list does not hold adds it to the table.
pub proof fn lemma_table_push<K, V>(pairs: Seq<(K, V)>, key: K, value: V)
    ensures
        table_of(pairs.push((key, value))) == table_of(pairs).insert(key, value),
{
    assert(pairs.push((key, value)).drop_last() =~= pairs);
}

/// With distinct keys, a new value in the place of a pair sets it in the table.
pub proof fn lemma_table_update<K, V>(pairs: Seq<(K, V)>, i: int, value: V)
    requires
        0 <= i < pairs.len(),
        distinct_keys(pairs),
    ensures
        table_of(pairs.update(i, (pairs[i].0, value))) == table_of(pairs).insert(
            pairs[i].0,
            value,
        ),
        distinct_keys(pairs.update(i, (pairs[i].0, value))),
    decreases pairs.len(),
{
    let changed = pairs.update(i, (pairs[i].0, value));
    assert(distinct_keys(changed)) by {
        assert forall|a: int, b: int| 0 <= a < b < changed.len() implies changed[a].0
            != changed[b].0 by {
            assert(pairs[a].0 != pairs[b].0);
        }
    }
    if i == pairs.len() - 1 {
        assert(changed.drop_last() =~= pairs.drop_last());
        assert(table_of(changed) =~= table_of(pairs).insert(pairs[i].0, value));
    } else {
        assert(changed.drop_last() =~= pairs.drop_last().update(i, (pairs[i].0, value)));
        assert(distinct_keys(pairs.drop_last())) by {
            assert forall|a: int, b: int| 0 <= a < b < pairs.drop_last().len() implies pairs.drop_last()[a].0
                != pairs.drop_last()[b].0 by {
                assert(pairs[a].0 != pairs[b].0);
            }
        }
        lemma_table_update(pairs.drop_last(), i, value);
        assert(pairs.drop_last()[i] == pairs[i]);
        assert(pairs.last().0 != pairs[i].0);
        assert(table_of(changed) =~= table_of(pairs).insert(pairs[i].0, value));
    }
}

/// With distinct keys, taking a pair out of the list takes its key out of the table.
pub proof fn lemma_table_remove<K, V>(pairs: Seq<(K, V)>, i: int)
    requires
        0 <= i < pairs.len(),
        distinct_keys(pairs),
    ensures
        table_of(pairs.remove(i)) == table_of(pairs).remove(pairs[i].0),
        distinct_keys(pairs.remove(i)),
    decreases pairs.len(),
{
    let shorter = pairs.remove(i);
    assert(distinct_keys(shorter)) by {
        assert forall|a: int, b: int| 0 <= a < b < shorter.len() implies shorter[a].0
            != shorter[b].0 by {
            let a2 = if a < i { a } else { a + 1 };
            let b2 = if b < i { b } else { b + 1 };
            assert(pairs[a2].0 != pairs[b2].0);
        }
    }
    assert(distinct_keys(pairs.drop_last())) by {
        assert forall|a: int, b: int| 0 <= a < b < pairs.drop_last().len() implies pairs.drop_last()[a].0
            != pairs.drop_last()[b].0 by {
            assert(pairs[a].0 != pairs[b].0);
        }
    }
    if i == pairs.len() - 1 {
        assert(shorter =~= pairs.drop_last());
        lemma_table_keys(pairs.drop_last(), pairs[i].0);
        assert(!table_of(pairs.drop_last()).contains_key(pairs[i].0)) by {
            if table_of(pairs.drop_last()).contains_key(pairs[i].0) {
                let j = choose|j: int|
                    0 <= j < pairs.drop_last().len() && (#[trigger] pairs.drop_last()[j]).0
                        == pairs[i].0;
                assert(pairs[j].0 != pairs[i].0);
            }
        }
        assert(table_of(shorter) =~= table_of(pairs).remove(pairs[i].0));
    } else {
        lemma_table_remove(pairs.drop_last(), i);
        assert(shorter.drop_last() =~= pairs.drop_last().remove(i));
        assert(shorter.last() == pairs.last());
        assert(pairs.drop_last()[i] == pairs[i]);
        assert(pairs.last().0 != pairs[i].0);
        assert(table_of(shorter) =~= table_of(pairs).remove(pairs[i].0));
    }
}

} // verus!
