//! Chronological order: the tokens of a table, sorted by the time of their records.

use crate::error::Error;
use crate::links::{lemma_same_multiset, pair_le, par_sort_pairs};
use crate::parsed::{SampleInternal, SceneInternal};
use crate::serializable::types::{EgoPose, Sample, SampleData, Timestamp};
use crate::table::table_keys;
use crate::token::Token;
use std::collections::HashMap;
use vstd::prelude::*;

verus! {

broadcast use vstd::std_specs::hash::group_hash_axioms;

/// A record that carries the time at which it was taken.
pub trait Timed {
    spec fn time_spec(&self) -> Timestamp;

    fn time(&self) -> (time: Timestamp)
        ensures
            time == self.time_spec(),
    ;
}

impl Timed for EgoPose {
    open spec fn time_spec(&self) -> Timestamp {
        self.timestamp
    }

    fn time(&self) -> Timestamp {
        self.timestamp
    }
}

impl Timed for Sample {
    open spec fn time_spec(&self) -> Timestamp {
        self.timestamp
    }

    fn time(&self) -> Timestamp {
        self.timestamp
    }
}

impl Timed for SampleInternal {
    open spec fn time_spec(&self) -> Timestamp {
        self.timestamp
    }

    fn time(&self) -> Timestamp {
        self.timestamp
    }
}

impl Timed for SampleData {
    open spec fn time_spec(&self) -> Timestamp {
        self.timestamp
    }

    fn time(&self) -> Timestamp {
        self.timestamp
    }
}

/// The time of each record of a table, in nanoseconds.
pub open spec fn times_of<T: Timed>(table: Map<u128, T>) -> Map<u128, u64> {
    Map::new(|k: u128| table.contains_key(k), |k: u128| table[k].time_spec().0)
}

/// The token `a` may stand before the token `b`: its time is earlier, or
/// the times are the same and its number is not the greater one.
pub open spec fn may_precede(a: Token, b: Token, times: Map<u128, u64>) -> bool {
    times[a.0] < times[b.0] || (times[a.0] == times[b.0] && a.0 <= b.0)
}

/// The order lists each token that has a time once; no token stands before
/// one of an earlier time, and tokens of the same time stand in the order of
/// their numbers.
pub open spec fn is_time_order(order: Seq<Token>, times: Map<u128, u64>) -> bool {
    &&& order.no_duplicates()
    &&& forall|t: Token| #[trigger] order.contains(t) <==> times.contains_key(t.0)
    &&& forall|i: int, j: int|
        0 <= i < j < order.len() ==> may_precede(#[trigger] order[i], #[trigger] order[j], times)
}

/// The earliest time among the samples that the tokens name.
pub open spec fn earliest(tokens: Seq<Token>, samples: Map<u128, SampleInternal>) -> u64
    decreases tokens.len(),
{
    if tokens.len() <= 1 {
        samples[tokens[0].0].timestamp.0
    } else {
        let before = earliest(tokens.drop_last(), samples);
        let time = samples[tokens.last().0].timestamp.0;
        if time < before {
            time
        } else {
            before
        }
    }
}

/// The scene has a sample, and the table holds a record for each of its samples.
pub open spec fn scene_timed(scene: SceneInternal, samples: Map<u128, SampleInternal>) -> bool {
    &&& scene.sample_tokens@.len() > 0
    &&& forall|i: int| 0 <= i < scene.sample_tokens@.len() ==> samples.contains_key(#[trigger] scene.sample_tokens@[i].0)
}

/// The time of each scene: the earliest time among its samples.
pub open spec fn scene_times(scenes: Map<u128, SceneInternal>, samples: Map<u128, SampleInternal>) -> Map<
    u128,
    u64,
> {
    Map::new(|k: u128| scenes.contains_key(k), |k: u128| earliest(scenes[k].sample_tokens@, samples))
}

/// The earliest time of some samples is the time of one of them, and none of them is earlier.
pub proof fn lemma_earliest(tokens: Seq<Token>, samples: Map<u128, SampleInternal>)
    requires
        tokens.len() > 0,
    ensures
        exists|i: int| 0 <= i < tokens.len() && samples[(#[trigger] tokens[i]).0].timestamp.0 == earliest(tokens, samples),
        forall|i: int| 0 <= i < tokens.len() ==> earliest(tokens, samples) <= samples[(#[trigger] tokens[i]).0].timestamp.0,
    decreases tokens.len(),
{
    if tokens.len() == 1 {
        assert(samples[tokens[0].0].timestamp.0 == earliest(tokens, samples));
    } else {
        let front = tokens.drop_last();
        lemma_earliest(front, samples);
        let i = choose|i: int| 0 <= i < front.len() && samples[(#[trigger] front[i]).0].timestamp.0 == earliest(front, samples);
        assert(front[i] == tokens[i]);
        if samples[tokens.last().0].timestamp.0 < earliest(front, samples) {
            assert(samples[tokens[tokens.len() - 1].0].timestamp.0 == earliest(tokens, samples));
        } else {
            assert(samples[tokens[i].0].timestamp.0 == earliest(tokens, samples));
        }
        assert forall|j: int| 0 <= j < tokens.len() implies earliest(tokens, samples) <= samples[(#[trigger] tokens[j]).0].timestamp.0 by {
            if j < front.len() {
                assert(front[j] == tokens[j]);
            }
        }
    }
}

/// Pairs that list, for each key, its time and the key itself, list every
/// key that has a time once, with its time.
proof fn lemma_listed_times(keys: Seq<u128>, pairs: Seq<(u128, u128)>, times: Map<u128, u64>)
    requires
        keys.no_duplicates(),
        forall|k: u128| keys.contains(k) <==> #[trigger] times.contains_key(k),
        pairs.len() == keys.len(),
        forall|j: int| 0 <= j < keys.len() ==> #[trigger] pairs[j] == (times[keys[j]] as u128, keys[j]),
    ensures
        forall|i: int, j: int| 0 <= i < j < pairs.len() ==> pairs[i].1 != pairs[j].1,
        forall|i: int|
            0 <= i < pairs.len() ==> times.contains_key((#[trigger] pairs[i]).1) && times[pairs[i].1] == pairs[i].0,
        forall|k: u128| #[trigger]
            times.contains_key(k) ==> exists|i: int| 0 <= i < pairs.len() && (#[trigger] pairs[i]).1 == k,
{
    assert forall|i: int| 0 <= i < pairs.len() implies times.contains_key((#[trigger] pairs[i]).1)
        && times[pairs[i].1] == pairs[i].0 by {
        assert(keys.contains(keys[i]));
    }
    assert forall|k: u128| #[trigger] times.contains_key(k) implies exists|i: int|
        0 <= i < pairs.len() && (#[trigger] pairs[i]).1 == k by {
        assert(keys.contains(k));
        let i = choose|i: int| 0 <= i < keys.len() && keys[i] == k;
        assert(pairs[i].1 == k);
    }
}

/// Sorts pairs of a time and a token by the time, and returns the tokens in that order.
fn order_by_time(pairs: Vec<(u128, u128)>, Ghost(times): Ghost<Map<u128, u64>>) -> (order: Vec<Token>)
    requires
        forall|i: int, j: int| 0 <= i < j < pairs@.len() ==> pairs@[i].1 != pairs@[j].1,
        forall|i: int| 0 <= i < pairs@.len() ==> times.contains_key((#[trigger] pairs@[i]).1) && times[pairs@[i].1] == pairs@[i].0,
        forall|k: u128| #[trigger] times.contains_key(k) ==> exists|i: int| 0 <= i < pairs@.len() && (#[trigger] pairs@[i]).1 == k,
    ensures
        is_time_order(order@, times),
{
    let mut pairs = pairs;
    let ghost before = pairs@;
    par_sort_pairs(&mut pairs);
    proof {
        lemma_same_multiset(before, pairs@);
        assert forall|i: int| 0 <= i < pairs@.len() implies times.contains_key((#[trigger] pairs@[i]).1) && times[pairs@[i].1] == pairs@[i].0 by {
            assert(pairs@.contains(pairs@[i]));
            assert(before.contains(pairs@[i]));
            let j = choose|j: int| 0 <= j < before.len() && before[j] == pairs@[i];
            assert(times.contains_key(before[j].1));
        }
        assert forall|k: u128| #[trigger] times.contains_key(k) implies exists|i: int| 0 <= i < pairs@.len() && (#[trigger] pairs@[i]).1 == k by {
            let j = choose|j: int| 0 <= j < before.len() && (#[trigger] before[j]).1 == k;
            assert(before.contains(before[j]));
            assert(pairs@.contains(before[j]));
            let i = choose|i: int| 0 <= i < pairs@.len() && pairs@[i] == before[j];
            assert(pairs@[i].1 == k);
        }
        assert(before.no_duplicates());
    }
    let mut order: Vec<Token> = Vec::new();
    let mut i: usize = 0;
    while i < pairs.len()
        invariant
            i <= pairs@.len(),
            order@.len() == i,
            forall|j: int| 0 <= j < i ==> #[trigger] order@[j] == Token(pairs@[j].1),
        decreases pairs@.len() - i,
    {
        order.push(Token(pairs[i].1));
        i += 1;
    }
    proof {
        assert forall|a: int, b: int| 0 <= a < order@.len() && 0 <= b < order@.len() && a != b implies order@[a] != order@[b] by {
            if pairs@[a].1 == pairs@[b].1 {
                assert(times[pairs@[a].1] == pairs@[a].0);
                assert(times[pairs@[b].1] == pairs@[b].0);
                assert(pairs@[a] == pairs@[b]);
            }
        }
        assert forall|t: Token| #[trigger] order@.contains(t) <==> times.contains_key(t.0) by {
            if order@.contains(t) {
                let j = choose|j: int| 0 <= j < order@.len() && order@[j] == t;
                assert(times.contains_key(pairs@[j].1));
            }
            if times.contains_key(t.0) {
                let j = choose|j: int| 0 <= j < pairs@.len() && (#[trigger] pairs@[j]).1 == t.0;
                assert(order@[j] == t);
            }
        }
        assert forall|a: int, b: int| 0 <= a < b < order@.len() implies may_precede(#[trigger] order@[a], #[trigger] order@[b], times) by {
            assert(pair_le(pairs@[a], pairs@[b]));
            assert(times[pairs@[a].1] == pairs@[a].0);
            assert(times[pairs@[b].1] == pairs@[b].0);
        }
    }
    order
}

/// The tokens of a table, sorted by the time of their records. Records of
/// the same time stand in the order of their tokens.
pub fn sorted_tokens<T: Timed>(map: &HashMap<u128, T>) -> (order: Vec<Token>)
    ensures
        is_time_order(order@, times_of(map@)),
{
    let keys = table_keys(map);
    let mut pairs: Vec<(u128, u128)> = Vec::new();
    let mut i: usize = 0;
    while i < keys.len()
        invariant
            i <= keys@.len(),
            forall|k: u128| keys@.contains(k) <==> #[trigger] map@.contains_key(k),
            pairs@.len() == i,
            forall|j: int| 0 <= j < i ==> #[trigger] pairs@[j] == (map@[keys@[j]].time_spec().0 as u128, keys@[j]),
        decreases keys@.len() - i,
    {
        let key = keys[i];
        assert(keys@.contains(key));
        match map.get(&key) {
            Some(record) => {
                pairs.push((record.time().0 as u128, key));
            },
            None => {
                proof {
                    assert(false);
                }
            },
        }
        i += 1;
    }
    proof {
        lemma_listed_times(keys@, pairs@, times_of(map@));
    }
    order_by_time(pairs, Ghost(times_of(map@)))
}

/// The earliest time among the samples of a scene, or nothing if the scene
/// has no sample or names one that the table does not hold.
pub fn scene_start(scene: &SceneInternal, sample_map: &HashMap<u128, SampleInternal>) -> (start: Option<u64>)
    ensures
        start is Some <==> scene_timed(*scene, sample_map@),
        start matches Some(time) ==> time == earliest(scene.sample_tokens@, sample_map@),
{
    let tokens = &scene.sample_tokens;
    if tokens.len() == 0 {
        return None;
    }
    let mut best: u64 = 0;
    let mut i: usize = 0;
    while i < tokens.len()
        invariant
            i <= tokens@.len(),
            tokens@.len() > 0,
            tokens@ == scene.sample_tokens@,
            forall|j: int| 0 <= j < i ==> sample_map@.contains_key(#[trigger] tokens@[j].0),
            i > 0 ==> best == earliest(tokens@.take(i as int), sample_map@),
        decreases tokens@.len() - i,
    {
        match sample_map.get(&tokens[i].0) {
            None => {
                assert(!sample_map@.contains_key(scene.sample_tokens@[i as int].0));
                return None;
            },
            Some(sample) => {
                let time = sample.timestamp.0;
                proof {
                    assert(tokens@.take(i + 1).drop_last() == tokens@.take(i as int));
                }
                if i == 0 || time < best {
                    best = time;
                }
            },
        }
        i += 1;
    }
    assert(tokens@.take(tokens@.len() as int) == tokens@);
    Some(best)
}

/// The tokens of the scenes, sorted by the earliest time among the samples
/// of each. An internal error is reported if a scene has no sample or names
/// one that the table of samples does not hold.
pub fn sorted_scene_tokens(
    scene_map: &HashMap<u128, SceneInternal>,
    sample_map: &HashMap<u128, SampleInternal>,
) -> (r: core::result::Result<Vec<Token>, Error>)
    ensures
        r is Ok <==> forall|k: u128| #[trigger] scene_map@.contains_key(k) ==> scene_timed(scene_map@[k], sample_map@),
        r matches Ok(order) ==> is_time_order(order@, scene_times(scene_map@, sample_map@)),
        r matches Err(e) ==> e == Error::InternalBug,
{
    let keys = table_keys(scene_map);
    let mut pairs: Vec<(u128, u128)> = Vec::new();
    let mut i: usize = 0;
    while i < keys.len()
        invariant
            i <= keys@.len(),
            forall|k: u128| keys@.contains(k) <==> #[trigger] scene_map@.contains_key(k),
            pairs@.len() == i,
            forall|j: int| 0 <= j < i ==> scene_timed(scene_map@[#[trigger] keys@[j]], sample_map@),
            forall|j: int| 0 <= j < i ==> #[trigger] pairs@[j] == (earliest(scene_map@[keys@[j]].sample_tokens@, sample_map@) as u128, keys@[j]),
        decreases keys@.len() - i,
    {
        let key = keys[i];
        assert(keys@.contains(key));
        match scene_map.get(&key) {
            Some(scene) => {
                match scene_start(scene, sample_map) {
                    Some(time) => {
                        pairs.push((time as u128, key));
                    },
                    None => {
                        return Err(Error::InternalBug);
                    },
                }
            },
            None => {
                proof {
                    assert(false);
                }
            },
        }
        i += 1;
    }
    proof {
        lemma_listed_times(keys@, pairs@, scene_times(scene_map@, sample_map@));
        assert forall|k: u128| #[trigger] scene_map@.contains_key(k) implies scene_timed(scene_map@[k], sample_map@) by {
            assert(keys@.contains(k));
            let j = choose|j: int| 0 <= j < keys@.len() && keys@[j] == k;
            assert(scene_timed(scene_map@[keys@[j]], sample_map@));
        }
    }
    Ok(order_by_time(pairs, Ghost(scene_times(scene_map@, sample_map@))))
}

} // verus!
