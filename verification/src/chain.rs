//! Chains: the records that are reached from a first one by following `next`.

use crate::error::{Corruption, Error, Table};
use crate::links::Linked;
use crate::token::Token;
use std::collections::HashMap;
use vstd::prelude::*;

verus! {

broadcast use vstd::std_specs::hash::group_hash_axioms;

/// How a walk along the `next` links stopped.
#[derive(Debug, Clone, Copy, PartialEq, Eq, Hash, Structural)]
pub enum WalkEnd {
    /// It reached a record that names no next one.
    Ended,
    /// It reached a token under which the table holds no record, or a record of another token.
    Dangling,
    /// It had visited as many records as it was allowed, and the next token names a further record.
    TooLong,
}

/// The table holds a record under the token, and the record has that token.
pub open spec fn names_record<T: Linked>(table: Map<u128, T>, token: Token) -> bool {
    table.contains_key(token.0) && table[token.0].token_spec() == token
}

/// The walk from `start` along the `next` links of a table, over at most
/// `limit` records: the tokens of the records visited, in order, and how the
/// walk stopped. A token that names no record stops the walk wherever it is
/// met, also behind the last record that the limit allows.
pub open spec fn walk<T: Linked>(table: Map<u128, T>, start: Option<Token>, limit: nat) -> (
    Seq<Token>,
    WalkEnd,
)
    decreases limit,
{
    match start {
        None => (Seq::empty(), WalkEnd::Ended),
        Some(token) => if !names_record(table, token) {
            (Seq::empty(), WalkEnd::Dangling)
        } else if limit == 0 {
            (Seq::empty(), WalkEnd::TooLong)
        } else {
            let rest = walk(table, table[token.0].next_spec(), (limit - 1) as nat);
            (seq![token] + rest.0, rest.1)
        },
    }
}

/// The tokens are a chain of the table: each names a record of its own
/// token, each record but the last names the next token of the list as the
/// one after it, and the last names none.
pub open spec fn is_chain<T: Linked>(table: Map<u128, T>, tokens: Seq<Token>) -> bool {
    &&& tokens.len() > 0
    &&& forall|i: int|
        0 <= i < tokens.len() ==> table.contains_key(#[trigger] tokens[i].0) && table[tokens[i].0].token_spec()
            == tokens[i]
    &&& forall|i: int|
        0 <= i < tokens.len() - 1 ==> table[#[trigger] tokens[i].0].next_spec() == Some(tokens[i + 1])
    &&& table[tokens.last().0].next_spec() is None
}

/// The tokens are a whole chain of the table: a chain whose first record
/// names no record before it.
pub open spec fn is_whole_chain<T: Linked>(table: Map<u128, T>, tokens: Seq<Token>) -> bool {
    is_chain(table, tokens) && table[tokens[0].0].prev_spec() is None
}

/// A walk that ends has visited a chain that begins with the token it started from.
pub proof fn lemma_walk_is_chain<T: Linked>(table: Map<u128, T>, start: Token, limit: nat)
    requires
        walk(table, Some(start), limit).1 == WalkEnd::Ended,
    ensures
        is_chain(table, walk(table, Some(start), limit).0),
        walk(table, Some(start), limit).0[0] == start,
        walk(table, Some(start), limit).0.len() <= limit,
    decreases limit,
{
    let tokens = walk(table, Some(start), limit).0;
    let next = table[start.0].next_spec();
    let rest = walk(table, next, (limit - 1) as nat);
    assert(tokens == seq![start] + rest.0);
    match next {
        None => {
            assert(tokens =~= seq![start]);
        },
        Some(after) => {
            lemma_walk_is_chain(table, after, (limit - 1) as nat);
            assert forall|i: int| 0 <= i < tokens.len() implies table.contains_key(#[trigger] tokens[i].0)
                && table[tokens[i].0].token_spec() == tokens[i] by {
                if i > 0 {
                    assert(tokens[i] == rest.0[i - 1]);
                }
            }
            assert forall|i: int| 0 <= i < tokens.len() - 1 implies table[#[trigger] tokens[i].0].next_spec()
                == Some(tokens[i + 1]) by {
                assert(tokens[i + 1] == rest.0[i]);
                if i > 0 {
                    assert(tokens[i] == rest.0[i - 1]);
                }
            }
            assert(tokens.last() == rest.0.last());
        },
    }
}

/// A chain is what the walk from its first token visits, if the walk is
/// allowed as many records as the chain has: no other list of tokens is a
/// chain from that token.
pub proof fn lemma_chain_is_walk<T: Linked>(table: Map<u128, T>, tokens: Seq<Token>, limit: nat)
    requires
        is_chain(table, tokens),
        tokens.len() <= limit,
    ensures
        walk(table, Some(tokens[0]), limit) == (tokens, WalkEnd::Ended),
    decreases tokens.len(),
{
    let next = table[tokens[0].0].next_spec();
    if tokens.len() == 1 {
        assert(tokens.last() == tokens[0]);
        assert(walk(table, next, (limit - 1) as nat).0 =~= Seq::<Token>::empty());
        assert(seq![tokens[0]] + Seq::<Token>::empty() =~= tokens);
    } else {
        let rest = tokens.drop_first();
        assert(forall|i: int| 0 <= i < rest.len() ==> rest[i] == tokens[i + 1]);
        assert(rest.last() == tokens.last());
        assert(is_chain(table, rest)) by {
            assert forall|i: int| 0 <= i < rest.len() - 1 implies table[#[trigger] rest[i].0].next_spec()
                == Some(rest[i + 1]) by {
                assert(rest[i] == tokens[i + 1]);
            }
        }
        lemma_chain_is_walk(table, rest, (limit - 1) as nat);
        assert(next == Some(rest[0]));
        assert(seq![tokens[0]] + rest =~= tokens);
    }
}

/// A walk visits no more records than it is allowed, and each token that
/// it lists names a record.
pub proof fn lemma_walk_visits<T: Linked>(table: Map<u128, T>, start: Option<Token>, limit: nat)
    ensures
        walk(table, start, limit).0.len() <= limit,
        forall|i: int|
            0 <= i < walk(table, start, limit).0.len() ==> names_record(
                table,
                #[trigger] walk(table, start, limit).0[i],
            ),
    decreases limit,
{
    if let Some(token) = start {
        if names_record(table, token) && limit > 0 {
            let rest = walk(table, table[token.0].next_spec(), (limit - 1) as nat);
            lemma_walk_visits(table, table[token.0].next_spec(), (limit - 1) as nat);
            let tokens = walk(table, start, limit).0;
            assert forall|i: int| 0 <= i < tokens.len() implies names_record(table, #[trigger] tokens[i]) by {
                if i > 0 {
                    assert(tokens[i] == rest.0[i - 1]);
                }
            }
        }
    }
}

/// A walk that stopped for another reason than its limit stops in the same
/// way under every limit that allows the records it visited.
pub proof fn lemma_walk_settled<T: Linked>(table: Map<u128, T>, start: Option<Token>, limit: nat, other: nat)
    requires
        walk(table, start, limit).1 != WalkEnd::TooLong,
        other >= walk(table, start, limit).0.len(),
    ensures
        walk(table, start, other) == walk(table, start, limit),
    decreases limit,
{
    if let Some(token) = start {
        if names_record(table, token) {
            let next = table[token.0].next_spec();
            let rest = walk(table, next, (limit - 1) as nat);
            assert(walk(table, start, limit).0.len() == 1 + rest.0.len());
            lemma_walk_settled(table, next, (limit - 1) as nat, (other - 1) as nat);
        }
    }
}

/// From any record that a walk visits, the walk goes on as a walk of its
/// own: over the records that are left, to the same stop.
pub proof fn lemma_walk_suffix<T: Linked>(table: Map<u128, T>, start: Option<Token>, limit: nat, place: int)
    requires
        0 <= place < walk(table, start, limit).0.len(),
    ensures
        place < limit,
        walk(table, Some(walk(table, start, limit).0[place]), (limit - place) as nat) == (
            walk(table, start, limit).0.skip(place),
            walk(table, start, limit).1,
        ),
    decreases place,
{
    let whole = walk(table, start, limit);
    let token = start->Some_0;
    let next = table[token.0].next_spec();
    let rest = walk(table, next, (limit - 1) as nat);
    assert(whole.0 == seq![token] + rest.0);
    if place == 0 {
        assert(whole.0.skip(0) =~= whole.0);
    } else {
        lemma_walk_suffix(table, next, (limit - 1) as nat, place - 1);
        assert(whole.0[place] == rest.0[place - 1]);
        assert(whole.0.skip(place) =~= rest.0.skip(place - 1));
    }
}

/// A walk that stopped for another reason than its limit has visited no record twice.
pub proof fn lemma_walk_distinct<T: Linked>(table: Map<u128, T>, start: Option<Token>, limit: nat)
    requires
        walk(table, start, limit).1 != WalkEnd::TooLong,
    ensures
        walk(table, start, limit).0.no_duplicates(),
    decreases limit,
{
    if let Some(token) = start {
        if names_record(table, token) {
            let whole = walk(table, start, limit);
            let next = table[token.0].next_spec();
            let rest = walk(table, next, (limit - 1) as nat);
            lemma_walk_distinct(table, next, (limit - 1) as nat);
            assert(whole.0 == seq![token] + rest.0);
            if rest.0.contains(token) {
                let p = choose|p: int| 0 <= p < rest.0.len() && rest.0[p] == token;
                assert(whole.0[p + 1] == token);
                lemma_walk_suffix(table, start, limit, p + 1);
                let again = walk(table, start, (limit - (p + 1)) as nat);
                assert(again.0.len() == whole.0.len() - (p + 1));
                lemma_walk_visits(table, start, limit);
                lemma_walk_settled(table, start, (limit - (p + 1)) as nat, limit);
                assert(false);
            }
            assert forall|i: int, j: int| 0 <= i < whole.0.len() && 0 <= j < whole.0.len() && i != j implies whole.0[i]
                != whole.0[j] by {
                if i > 0 {
                    assert(whole.0[i] == rest.0[i - 1]);
                    assert(rest.0.contains(rest.0[i - 1]));
                }
                if j > 0 {
                    assert(whole.0[j] == rest.0[j - 1]);
                    assert(rest.0.contains(rest.0[j - 1]));
                }
            }
        }
    }
}

/// A walk that stops for another reason than its limit stops within the
/// table: it visits no more records than the table holds, and as many
/// records as the table holds are enough to follow it to its stop.
pub proof fn lemma_walk_within_table<T: Linked>(table: Map<u128, T>, start: Option<Token>, limit: nat)
    requires
        table.dom().finite(),
        walk(table, start, limit).1 != WalkEnd::TooLong,
    ensures
        walk(table, start, limit).0.len() <= table.len(),
        walk(table, start, table.len()) == walk(table, start, limit),
{
    let tokens = walk(table, start, limit).0;
    lemma_walk_distinct(table, start, limit);
    lemma_walk_visits(table, start, limit);
    let keys = tokens.map_values(|t: Token| t.0);
    assert forall|i: int, j: int| 0 <= i < keys.len() && 0 <= j < keys.len() && i != j implies keys[i]
        != keys[j] by {
        assert(tokens[i] != tokens[j]);
    }
    keys.unique_seq_to_set();
    assert(keys.to_set().subset_of(table.dom())) by {
        assert forall|k: u128| keys.to_set().contains(k) implies table.dom().contains(k) by {
            let i = choose|i: int| 0 <= i < keys.len() && keys[i] == k;
            assert(names_record(table, tokens[i]));
        }
    }
    vstd::set_lib::lemma_len_subset(keys.to_set(), table.dom());
    lemma_walk_settled(table, start, limit, table.len());
}

/// A walk that as many records as the table holds do not bring to a stop
/// never stops: it runs in a circle, and no limit lets it end or meet a token
/// that names no record.
pub proof fn lemma_walk_endless<T: Linked>(table: Map<u128, T>, start: Option<Token>, limit: nat)
    requires
        table.dom().finite(),
        walk(table, start, table.len()).1 == WalkEnd::TooLong,
    ensures
        walk(table, start, limit).1 == WalkEnd::TooLong,
{
    if walk(table, start, limit).1 != WalkEnd::TooLong {
        lemma_walk_within_table(table, start, limit);
    }
}

/// A chain of one table is a chain of any other table whose records have
/// the same tokens and name the same next records.
pub proof fn lemma_chain_transfer<A: Linked, B: Linked>(a: Map<u128, A>, b: Map<u128, B>, tokens: Seq<Token>)
    requires
        is_chain(a, tokens),
        forall|k: u128| #[trigger]
            a.contains_key(k) ==> b.contains_key(k) && b[k].token_spec() == a[k].token_spec() && b[k].next_spec()
                == a[k].next_spec(),
    ensures
        is_chain(b, tokens),
{
    assert forall|i: int| 0 <= i < tokens.len() implies b.contains_key(#[trigger] tokens[i].0)
        && b[tokens[i].0].token_spec() == tokens[i] by {
        assert(a.contains_key(tokens[i].0));
    }
    assert forall|i: int| 0 <= i < tokens.len() - 1 implies b[#[trigger] tokens[i].0].next_spec() == Some(
        tokens[i + 1],
    ) by {
        assert(a.contains_key(tokens[i].0));
    }
    assert(a.contains_key(tokens[tokens.len() - 1].0));
}

/// Two chains of a table that begin with the same token are the same chain.
pub proof fn lemma_chain_unique<T: Linked>(table: Map<u128, T>, a: Seq<Token>, b: Seq<Token>)
    requires
        is_chain(table, a),
        is_chain(table, b),
        a[0] == b[0],
    ensures
        a == b,
{
    let limit = if a.len() >= b.len() {
        a.len()
    } else {
        b.len()
    };
    lemma_chain_is_walk(table, a, limit);
    lemma_chain_is_walk(table, b, limit);
}

/// Walks from `first` along the `next` links of a table, over at most
/// `limit` records. A token that names no record stops the walk wherever it
/// is met.
pub fn follow_chain<T: Linked>(map: &HashMap<u128, T>, first: Token, limit: usize) -> (r: (
    Vec<Token>,
    WalkEnd,
))
    ensures
        (r.0@, r.1) == walk(map@, Some(first), limit as nat),
{
    let mut tokens: Vec<Token> = Vec::new();
    let mut current: Option<Token> = Some(first);
    let mut end = WalkEnd::Ended;
    let mut done = false;
    assert(Seq::<Token>::empty() + walk(map@, current, limit as nat).0 =~= walk(
        map@,
        current,
        limit as nat,
    ).0);
    while !done
        invariant
            tokens@.len() <= limit,
            !done ==> walk(map@, Some(first), limit as nat) == (
                tokens@ + walk(map@, current, (limit - tokens@.len()) as nat).0,
                walk(map@, current, (limit - tokens@.len()) as nat).1,
            ),
            done ==> (tokens@, end) == walk(map@, Some(first), limit as nat),
        decreases
                (if done {
                    0
                } else {
                    1 + limit - tokens@.len()
                }),
    {
        let ghost left = (limit - tokens@.len()) as nat;
        match current {
            None => {
                proof {
                    assert(tokens@ + Seq::<Token>::empty() =~= tokens@);
                }
                end = WalkEnd::Ended;
                done = true;
            },
            Some(token) => {
                let found = match map.get(&token.0) {
                    None => None,
                    Some(record) => if record.token() != token {
                        None
                    } else {
                        Some(record.next())
                    },
                };
                match found {
                    None => {
                        proof {
                            assert(tokens@ + Seq::<Token>::empty() =~= tokens@);
                        }
                        end = WalkEnd::Dangling;
                        done = true;
                    },
                    Some(next) => {
                        if tokens.len() >= limit {
                            proof {
                                assert(tokens@ + Seq::<Token>::empty() =~= tokens@);
                            }
                            end = WalkEnd::TooLong;
                            done = true;
                        } else {
                            proof {
                                let rest = walk(map@, next, (left - 1) as nat);
                                assert(tokens@ + (seq![token] + rest.0) =~= tokens@.push(token) + rest.0);
                            }
                            tokens.push(token);
                            current = next;
                        }
                    },
                }
            },
        }
    }
    (tokens, end)
}

/// The chain of a record `owner` of `table` that announces the first
/// token, the last token and the length of its chain. The walk from `first`
/// is followed as far as it goes: as many records as the table holds are
/// enough for that. If it meets a token that names no record, the result is
/// the internal error. If it runs in a circle, or ends after another number of
/// records than `declared`, or ends with another token than `last`, or
/// begins with a record that names one before it, the result is a corruption
/// that names the owner. Otherwise it is the tokens that the walk visits.
pub open spec fn chain_result<T: Linked>(
    records: Map<u128, T>,
    table: Table,
    owner: Token,
    first: Token,
    last: Token,
    declared: usize,
) -> core::result::Result<Seq<Token>, Error> {
    let walked = walk(records, Some(first), records.len());
    match walked.1 {
        WalkEnd::Dangling => Err(Error::InternalBug),
        WalkEnd::TooLong => Err(
            Error::CorruptedDataset(Corruption::ChainLength { table, owner: owner.0, declared, found: None }),
        ),
        WalkEnd::Ended => if walked.0.len() != declared {
            Err(
                Error::CorruptedDataset(
                    Corruption::ChainLength {
                        table,
                        owner: owner.0,
                        declared,
                        found: Some(walked.0.len() as usize),
                    },
                ),
            )
        } else if walked.0.last() != last {
            Err(
                Error::CorruptedDataset(
                    Corruption::ChainEnd { table, owner: owner.0, last: last.0, found: walked.0.last().0 },
                ),
            )
        } else {
            match records[first.0].prev_spec() {
                Some(prev) => Err(
                    Error::CorruptedDataset(
                        Corruption::ChainHead { table, owner: owner.0, first: first.0, prev: prev.0 },
                    ),
                ),
                None => Ok(walked.0),
            }
        },
    }
}

/// An accepted chain is a chain of the records that begins with the
/// announced first token, which names no record before it, ends with the
/// announced last token, and has the announced length.
pub proof fn lemma_chain_result<T: Linked>(
    records: Map<u128, T>,
    table: Table,
    owner: Token,
    first: Token,
    last: Token,
    declared: usize,
)
    requires
        chain_result(records, table, owner, first, last, declared) is Ok,
    ensures
        ({
            let tokens = chain_result(records, table, owner, first, last, declared)->Ok_0;
            &&& is_whole_chain(records, tokens)
            &&& tokens == walk(records, Some(first), records.len()).0
            &&& tokens.len() == declared
            &&& tokens.first() == first
            &&& tokens.last() == last
        }),
{
    lemma_walk_is_chain(records, first, records.len());
}

/// Whatever limit shows where the walk from the first token stops shows
/// what becomes of the chain: a walk into nothing is the internal error, and
/// a walk that ends after another number of records than announced is a
/// corruption that gives that number.
pub proof fn lemma_chain_refused<T: Linked>(
    records: Map<u128, T>,
    table: Table,
    owner: Token,
    first: Token,
    last: Token,
    declared: usize,
    limit: nat,
)
    requires
        records.dom().finite(),
        walk(records, Some(first), limit).1 != WalkEnd::TooLong,
    ensures
        walk(records, Some(first), limit).1 == WalkEnd::Dangling ==> chain_result(
            records,
            table,
            owner,
            first,
            last,
            declared,
        ) == Err::<Seq<Token>, Error>(Error::InternalBug),
        walk(records, Some(first), limit).1 == WalkEnd::Ended && walk(records, Some(first), limit).0.len()
            != declared ==> chain_result(records, table, owner, first, last, declared) == Err::<
            Seq<Token>,
            Error,
        >(
            Error::CorruptedDataset(
                Corruption::ChainLength {
                    table,
                    owner: owner.0,
                    declared,
                    found: Some(walk(records, Some(first), limit).0.len() as usize),
                },
            ),
        ),
{
    lemma_walk_within_table(records, Some(first), limit);
}

/// The chain of a record that announces its first token, its last token and
/// its length: the tokens from the first along the `next` links, if the walk
/// ends, they are as many as announced, end with the last, and the first
/// names no record before it; the reason for refusal otherwise.
pub fn materialize_chain<T: Linked>(
    map: &HashMap<u128, T>,
    table: Table,
    owner: Token,
    first: Token,
    last: Token,
    declared: usize,
) -> (r: core::result::Result<Vec<Token>, Error>)
    ensures
        match chain_result(map@, table, owner, first, last, declared) {
            Ok(tokens) => r matches Ok(found) && found@ == tokens,
            Err(e) => r matches Err(err) && err == e,
        },
{
    let (tokens, end) = follow_chain(map, first, map.len());
    match end {
        WalkEnd::Dangling => Err(Error::InternalBug),
        WalkEnd::TooLong => Err(
            Error::CorruptedDataset(Corruption::ChainLength { table, owner: owner.0, declared, found: None }),
        ),
        WalkEnd::Ended => {
            if tokens.len() != declared {
                Err(
                    Error::CorruptedDataset(
                        Corruption::ChainLength { table, owner: owner.0, declared, found: Some(tokens.len()) },
                    ),
                )
            } else {
                proof {
                    lemma_walk_is_chain(map@, first, map@.len());
                }
                let found = tokens[tokens.len() - 1];
                if found != last {
                    Err(
                        Error::CorruptedDataset(
                            Corruption::ChainEnd { table, owner: owner.0, last: last.0, found: found.0 },
                        ),
                    )
                } else {
                    assert(map@.contains_key(tokens@[0].0));
                    match map.get(&first.0) {
                        Some(record) => match record.prev() {
                            Some(prev) => Err(
                                Error::CorruptedDataset(
                                    Corruption::ChainHead { table, owner: owner.0, first: first.0, prev: prev.0 },
                                ),
                            ),
                            None => Ok(tokens),
                        },
                        None => {
                            proof {
                                assert(false);
                            }
                            Err(Error::InternalBug)
                        },
                    }
                }
            }
        },
    }
}

} // verus!
