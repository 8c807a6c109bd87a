//! Tables: records found by the number of their token.

use crate::serializable::types::{Visibility, WithToken};
use std::collections::HashMap;
use vstd::prelude::*;
use vstd::std_specs::iter::IteratorSpec;

verus! {

broadcast use vstd::std_specs::hash::group_hash_axioms;

/// The table that a list of records makes: each record under the number of
/// its token, a later record replacing an earlier one of the same token.
pub open spec fn table_of<T: WithToken>(records: Seq<T>) -> Map<u128, T>
    decreases records.len(),
{
    if records.len() == 0 {
        Map::empty()
    } else {
        table_of(records.drop_last()).insert(records.last().token_spec().0, records.last())
    }
}

/// The table that a list of visibility records makes.
pub open spec fn visibility_table_of(records: Seq<Visibility>) -> Map<u32, Visibility>
    decreases records.len(),
{
    if records.len() == 0 {
        Map::empty()
    } else {
        visibility_table_of(records.drop_last()).insert(records.last().token.0, records.last())
    }
}

/// Every record of the table stands under the number of its own token.
pub open spec fn keyed<T: WithToken>(table: Map<u128, T>) -> bool {
    forall|k: u128| #[trigger] table.contains_key(k) ==> table[k].token_spec().0 == k
}

/// A table made from a list holds each record under its own token, and
/// holds a record for exactly the tokens of the list.
pub proof fn lemma_table_of<T: WithToken>(records: Seq<T>)
    ensures
        keyed(table_of(records)),
        table_of(records).dom().finite(),
        forall|k: u128| #[trigger]
            table_of(records).contains_key(k) <==> exists|i: int|
                0 <= i < records.len() && #[trigger] records[i].token_spec().0 == k,
        forall|k: u128| #[trigger]
            table_of(records).contains_key(k) ==> records.contains(table_of(records)[k]),
    decreases records.len(),
{
    if records.len() > 0 {
        let front = records.drop_last();
        lemma_table_of(front);
        assert forall|k: u128| #[trigger] table_of(records).contains_key(k) implies exists|i: int|
            0 <= i < records.len() && #[trigger] records[i].token_spec().0 == k by {
            if k == records.last().token_spec().0 {
                assert(records[records.len() - 1].token_spec().0 == k);
            } else {
                let i = choose|i: int| 0 <= i < front.len() && #[trigger] front[i].token_spec().0 == k;
                assert(records[i].token_spec().0 == k);
            }
        }
        assert forall|k: u128|
            (exists|i: int|
                0 <= i < records.len() && #[trigger] records[i].token_spec().0
                    == k) implies #[trigger] table_of(records).contains_key(k) by {
            let i = choose|i: int| 0 <= i < records.len() && #[trigger] records[i].token_spec().0 == k;
            if i < records.len() - 1 {
                assert(front[i].token_spec().0 == k);
            }
        }
        assert forall|k: u128| #[trigger] table_of(records).contains_key(k) implies records.contains(
            table_of(records)[k],
        ) by {
            if k == records.last().token_spec().0 {
                assert(records[records.len() - 1] == table_of(records)[k]);
            } else {
                let i = choose|i: int| 0 <= i < front.len() && front[i] == table_of(front)[k];
                assert(records[i] == table_of(records)[k]);
            }
        }
    }
}

/// Makes the table of a list of records.
pub fn vec_to_hashmap<T: WithToken>(vec: Vec<T>) -> (map: HashMap<u128, T>)
    ensures
        map@ == table_of(vec@),
{
    let mut map: HashMap<u128, T> = HashMap::new();
    let ghost records = vec@;
    for item in it: vec
        invariant
            it.seq() == records,
            map@ == table_of(records.take(it.index())),
    {
        proof {
            assert(records.take(it.index() + 1).drop_last() == records.take(it.index()));
        }
        let token = item.token();
        map.insert(token.0, item);
    }
    assert(records.take(records.len() as int) == records);
    map
}

/// Makes the table of a list of visibility records.
pub fn visibility_to_hashmap(vec: Vec<Visibility>) -> (map: HashMap<u32, Visibility>)
    ensures
        map@ == visibility_table_of(vec@),
{
    let mut map: HashMap<u32, Visibility> = HashMap::new();
    let ghost records = vec@;
    for item in it: vec
        invariant
            it.seq() == records,
            map@ == visibility_table_of(records.take(it.index())),
    {
        proof {
            assert(records.take(it.index() + 1).drop_last() == records.take(it.index()));
        }
        let token = item.token;
        map.insert(token.0, item);
    }
    assert(records.take(records.len() as int) == records);
    map
}

/// The numbers under which a table holds a record, each once, in no particular order.
pub fn table_keys<V>(map: &HashMap<u128, V>) -> (keys: Vec<u128>)
    ensures
        keys@.no_duplicates(),
        keys@.len() == map@.len(),
        forall|k: u128| keys@.contains(k) <==> #[trigger] map@.contains_key(k),
{
    keys_of(map)
}

/// The keys under which a table holds a record, each once, in no particular order.
pub(crate) fn keys_of<K: Copy, V>(map: &HashMap<K, V>) -> (keys: Vec<K>)
    requires
        vstd::std_specs::hash::obeys_key_model::<K>(),
    ensures
        keys@.no_duplicates(),
        keys@.len() == map@.len(),
        forall|k: K| keys@.contains(k) <==> #[trigger] map@.contains_key(k),
{
    let mut keys: Vec<K> = Vec::new();
    for k in it: map.keys()
        invariant
            keys@.len() == it.index(),
            forall|j: int| 0 <= j < keys@.len() ==> keys@[j] == *it.seq()[j],
    {
        keys.push(*k);
    }
    proof {
        let all = map.keys().remaining();
        assert(keys@ =~= all.unref());
        assert(all.unref().to_set() == map@.dom());
        assert forall|k: K| keys@.contains(k) <==> #[trigger] map@.contains_key(k) by {
            assert(keys@.contains(k) <==> keys@.to_set().contains(k));
        }
        assert forall|i: int, j: int| 0 <= i < keys@.len() && 0 <= j < keys@.len() && i != j implies keys@[i]
            != keys@[j] by {
            assert(all[i] != all[j]);
        }
    }
    keys
}

} // verus!
