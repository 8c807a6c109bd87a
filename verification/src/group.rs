//! Grouping: the tokens of the records that name the same sample.

use crate::links::lemma_push_no_duplicates;
use crate::serializable::types::{SampleAnnotation, SampleData, WithToken};
use crate::table::table_keys;
use crate::token::Token;
use itertools::Itertools;
use std::collections::HashMap;
use vstd::prelude::*;

verus! {

broadcast use vstd::std_specs::hash::group_hash_axioms;

/// A record that names the sample it belongs to.
pub trait OfSample: WithToken {
    spec fn sample_token_spec(&self) -> Token;

    fn sample_token(&self) -> (token: Token)
        ensures
            token == self.sample_token_spec(),
    ;
}

impl OfSample for SampleAnnotation {
    open spec fn sample_token_spec(&self) -> Token {
        self.sample_token
    }

    fn sample_token(&self) -> Token {
        self.sample_token
    }
}

impl OfSample for SampleData {
    open spec fn sample_token_spec(&self) -> Token {
        self.sample_token
    }

    fn sample_token(&self) -> Token {
        self.sample_token
    }
}

/// The second parts of the pairs whose first part is `key`, in the order of the pairs.
pub open spec fn group_of(pairs: Seq<(u128, Token)>, key: u128) -> Seq<Token>
    decreases pairs.len(),
{
    if pairs.len() == 0 {
        Seq::empty()
    } else {
        let rest = group_of(pairs.drop_last(), key);
        if pairs.last().0 == key {
            rest.push(pairs.last().1)
        } else {
            rest
        }
    }
}

/// Some pair of the list has `key` as its first part.
pub open spec fn has_first(pairs: Seq<(u128, Token)>, key: u128) -> bool {
    exists|i: int| 0 <= i < pairs.len() && (#[trigger] pairs[i]).0 == key
}

/// The tokens are those of the records of the table that name the sample
/// `sample`, each once, in no particular order.
pub open spec fn is_group<T: OfSample>(tokens: Seq<Token>, table: Map<u128, T>, sample: u128) -> bool {
    &&& tokens.no_duplicates()
    &&& forall|t: Token| #[trigger]
        tokens.contains(t) <==> table.contains_key(t.0) && table[t.0].sample_token_spec().0 == sample
}

/// Some record of the table names the sample `sample`.
pub open spec fn has_member<T: OfSample>(table: Map<u128, T>, sample: u128) -> bool {
    exists|k: u128| #[trigger] table.contains_key(k) && table[k].sample_token_spec().0 == sample
}

/// The groups hold, for each sample that some record of the table names,
/// the tokens of the records that name it.
pub open spec fn groups_of<T: OfSample>(groups: Map<u128, Vec<Token>>, table: Map<u128, T>) -> bool {
    &&& forall|sample: u128| #[trigger] groups.contains_key(sample) <==> has_member(table, sample)
    &&& forall|sample: u128| #[trigger]
        groups.contains_key(sample) ==> is_group(groups[sample]@, table, sample)
}

/// `Itertools::into_group_map` on a list of pairs. Trusted: the map that
/// it returns has a key for each first part that occurs in the list, and
/// under it the second parts of the pairs with that first part, in the order
/// of the list.
#[verifier::external_body]
fn group_pairs(pairs: Vec<(u128, Token)>) -> (groups: HashMap<u128, Vec<Token>>)
    ensures
        (forall|key: u128| #[trigger] groups@.contains_key(key) == has_first(pairs@, key)),
        (forall|key: u128| #[trigger] groups@.contains_key(key) ==> groups@[key]@ == group_of(pairs@, key)),
{
    pairs.into_iter().into_group_map()
}

/// In pairs whose second parts are all different, the group of a key holds no token twice,
/// and holds a token exactly when the pair of the key and the token stands in the list.
proof fn lemma_group_of(pairs: Seq<(u128, Token)>, key: u128)
    requires
        forall|i: int, j: int| 0 <= i < j < pairs.len() ==> pairs[i].1 != pairs[j].1,
    ensures
        group_of(pairs, key).no_duplicates(),
        forall|t: Token| #[trigger] group_of(pairs, key).contains(t) <==> pairs.contains((key, t)),
    decreases pairs.len(),
{
    if pairs.len() > 0 {
        let front = pairs.drop_last();
        let last = pairs.last();
        lemma_group_of(front, key);
        let rest = group_of(front, key);
        assert(pairs == front.push(last));
        if last.0 == key {
            if rest.contains(last.1) {
                assert(front.contains((key, last.1)));
                let i = choose|i: int| 0 <= i < front.len() && front[i] == (key, last.1);
                assert(pairs[i].1 == pairs[pairs.len() - 1].1);
            }
            lemma_push_no_duplicates(rest, last.1);
        }
        assert forall|t: Token| #[trigger] group_of(pairs, key).contains(t) <==> pairs.contains((key, t)) by {
            vstd::seq_lib::lemma_seq_contains_after_push(front, last, (key, t));
            if last.0 == key {
                vstd::seq_lib::lemma_seq_contains_after_push(rest, last.1, t);
            }
        }
    }
}

/// Groups the tokens of the records of a table by the sample that they name.
pub fn group_by_sample<T: OfSample>(map: &HashMap<u128, T>) -> (groups: HashMap<u128, Vec<Token>>)
    ensures
        groups_of(groups@, map@),
{
    let keys = table_keys(map);
    let mut pairs: Vec<(u128, Token)> = Vec::new();
    let mut i: usize = 0;
    while i < keys.len()
        invariant
            i <= keys@.len(),
            keys@.no_duplicates(),
            forall|k: u128| keys@.contains(k) <==> #[trigger] map@.contains_key(k),
            pairs@.len() == i,
            forall|j: int|
                0 <= j < i ==> #[trigger] pairs@[j] == (map@[keys@[j]].sample_token_spec().0, Token(keys@[j])),
        decreases keys@.len() - i,
    {
        let key = keys[i];
        assert(keys@.contains(key));
        match map.get(&key) {
            Some(record) => {
                pairs.push((record.sample_token().0, Token(key)));
            },
            None => {
                proof {
                    assert(false);
                }
            },
        }
        i += 1;
    }
    let ghost listed = pairs@;
    let groups = group_pairs(pairs);
    proof {
        assert forall|a: int, b: int| 0 <= a < b < listed.len() implies listed[a].1 != listed[b].1 by {
            assert(keys@[a] != keys@[b]);
        }
        assert forall|sample: u128, t: Token|
            listed.contains((sample, t)) <==> map@.contains_key(t.0) && map@[t.0].sample_token_spec().0
                == sample by {
            if listed.contains((sample, t)) {
                let j = choose|j: int| 0 <= j < listed.len() && listed[j] == (sample, t);
                assert(keys@.contains(keys@[j]));
            }
            if map@.contains_key(t.0) && map@[t.0].sample_token_spec().0 == sample {
                assert(keys@.contains(t.0));
                let j = choose|j: int| 0 <= j < keys@.len() && keys@[j] == t.0;
                assert(listed[j] == (sample, t));
            }
        }
        assert forall|sample: u128| #[trigger] groups@.contains_key(sample) <==> has_member(map@, sample) by {
            if groups@.contains_key(sample) {
                let j = choose|j: int| 0 <= j < listed.len() && (#[trigger] listed[j]).0 == sample;
                assert(listed.contains((sample, listed[j].1)));
                assert(map@.contains_key(listed[j].1.0));
            }
            if has_member(map@, sample) {
                let k = choose|k: u128| #[trigger] map@.contains_key(k) && map@[k].sample_token_spec().0 == sample;
                assert(listed.contains((sample, Token(k))));
                let j = choose|j: int| 0 <= j < listed.len() && listed[j] == (sample, Token(k));
                assert(listed[j].0 == sample);
            }
        }
        assert forall|sample: u128| #[trigger] groups@.contains_key(sample) implies is_group(
            groups@[sample]@,
            map@,
            sample,
        ) by {
            lemma_group_of(listed, sample);
            assert forall|t: Token| #[trigger]
                groups@[sample]@.contains(t) <==> map@.contains_key(t.0) && map@[t.0].sample_token_spec().0
                    == sample by {
                assert(group_of(listed, sample).contains(t) <==> listed.contains((sample, t)));
            }
        }
    }
    groups
}

} // verus!
