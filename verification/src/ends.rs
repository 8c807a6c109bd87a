//! The ends of the chains: the records that name no record before them, or
//! none after them, and the instances and scenes that announce them.

use crate::error::{Corruption, Error, Reference, Table};
use crate::links::{lemma_push_no_duplicates, lemma_same_multiset, pair_le, pairs_sorted, par_sort_pairs, Linked};
use crate::serializable::types::{Instance, Scene, WithToken};
use crate::table::table_keys;
use crate::token::Token;
use std::collections::HashMap;
use vstd::prelude::*;

verus! {

broadcast use vstd::std_specs::hash::group_hash_axioms;

/// A record that owns a chain: it announces the first and the last record of it.
pub trait Chained: WithToken {
    spec fn first_spec(&self) -> Token;

    spec fn last_spec(&self) -> Token;

    fn first(&self) -> (first: Token)
        ensures
            first == self.first_spec(),
    ;

    fn last(&self) -> (last: Token)
        ensures
            last == self.last_spec(),
    ;
}

impl Chained for Instance {
    open spec fn first_spec(&self) -> Token {
        self.first_annotation_token
    }

    open spec fn last_spec(&self) -> Token {
        self.last_annotation_token
    }

    fn first(&self) -> Token {
        self.first_annotation_token
    }

    fn last(&self) -> Token {
        self.last_annotation_token
    }
}

impl Chained for Scene {
    open spec fn first_spec(&self) -> Token {
        self.first_sample_token
    }

    open spec fn last_spec(&self) -> Token {
        self.last_sample_token
    }

    fn first(&self) -> Token {
        self.first_sample_token
    }

    fn last(&self) -> Token {
        self.last_sample_token
    }
}

/// The link of a record at one end: its `prev` at the head, its `next` at the tail.
pub open spec fn end_link<T: Linked>(record: T, head: bool) -> Option<Token> {
    if head {
        record.prev_spec()
    } else {
        record.next_spec()
    }
}

/// The table holds a record under the token, and the record is an end of
/// its chain: a head names no `prev`, a tail no `next`.
pub open spec fn is_end<T: Linked>(records: Map<u128, T>, token: u128, head: bool) -> bool {
    records.contains_key(token) && end_link(records[token], head) is None
}

/// The end that an owner announces: its first token at the head, its last at the tail.
pub open spec fn announced<O: Chained>(owner: O, head: bool) -> u128 {
    if head {
        owner.first_spec().0
    } else {
        owner.last_spec().0
    }
}

/// The ends of the chains and the owners fit: every owner announces an end,
/// every end is announced by an owner, and no two owners announce the same
/// end. So every end is the announced end of exactly one owner.
pub open spec fn ends_owned<O: Chained, T: Linked>(owners: Map<u128, O>, records: Map<u128, T>, head: bool) -> bool {
    &&& all_announced_are_ends(owners, records, head)
    &&& forall|h: u128| #[trigger]
        is_end(records, h, head) ==> exists|k: u128| #[trigger]
            owners.contains_key(k) && announced(owners[k], head) == h
    &&& forall|k1: u128, k2: u128|
        #![trigger owners.contains_key(k1), owners.contains_key(k2)]
        owners.contains_key(k1) && owners.contains_key(k2) && k1 != k2 ==> announced(owners[k1], head)
            != announced(owners[k2], head)
}

/// Every owner announces an end of a chain.
pub open spec fn all_announced_are_ends<O: Chained, T: Linked>(
    owners: Map<u128, O>,
    records: Map<u128, T>,
    head: bool,
) -> bool {
    forall|k: u128| #[trigger] owners.contains_key(k) ==> is_end(records, announced(owners[k], head), head)
}

/// The corruption is a fault of the ends of the chains of `records`, whose
/// owners are `owners`: an owner announces an end that names a further
/// record, an end has no owner, or two owners announce the same end.
pub open spec fn ends_broken<O: Chained, T: Linked>(
    owners: Map<u128, O>,
    records: Map<u128, T>,
    owner_table: Table,
    record_table: Table,
    c: Corruption,
) -> bool {
    match c {
        Corruption::ChainHead { table, owner, first, prev } => table == owner_table && owners.contains_key(owner)
            && announced(owners[owner], true) == first && records.contains_key(first) && end_link(
            records[first],
            true,
        ) == Some(Token(prev)),
        Corruption::ChainTail { table, owner, last, next } => table == owner_table && owners.contains_key(owner)
            && announced(owners[owner], false) == last && records.contains_key(last) && end_link(
            records[last],
            false,
        ) == Some(Token(next)),
        Corruption::UnownedHead { table, head } => table == record_table && is_end(records, head, true)
            && forall|k: u128| #[trigger] owners.contains_key(k) ==> announced(owners[k], true) != head,
        Corruption::UnownedTail { table, tail } => table == record_table && is_end(records, tail, false)
            && forall|k: u128| #[trigger] owners.contains_key(k) ==> announced(owners[k], false) != tail,
        Corruption::SharedHead { table, owner, other, first } => table == owner_table && owners.contains_key(
            owner,
        ) && owners.contains_key(other) && owner != other && announced(owners[owner], true) == first
            && announced(owners[other], true) == first,
        Corruption::SharedTail { table, owner, other, last } => table == owner_table && owners.contains_key(
            owner,
        ) && owners.contains_key(other) && owner != other && announced(owners[owner], false) == last
            && announced(owners[other], false) == last,
        _ => false,
    }
}

/// An owner announces an end under which the table of records holds nothing.
pub open spec fn end_missing<O: Chained, T: Linked>(
    owners: Map<u128, O>,
    records: Map<u128, T>,
    head: bool,
    owner: u128,
    token: u128,
) -> bool {
    owners.contains_key(owner) && announced(owners[owner], head) == token && !records.contains_key(token)
}

/// The corruption speaks of the heads of the chains, not of their tails.
pub open spec fn at_head(c: Corruption) -> bool {
    c is ChainHead || c is UnownedHead || c is SharedHead
}

/// Chains with a fault at one end do not fit their owners at that end.
pub proof fn lemma_ends_broken<O: Chained, T: Linked>(
    owners: Map<u128, O>,
    records: Map<u128, T>,
    owner_table: Table,
    record_table: Table,
    c: Corruption,
)
    requires
        ends_broken(owners, records, owner_table, record_table, c),
    ensures
        !ends_owned(owners, records, at_head(c)),
{
    match c {
        Corruption::ChainHead { owner, .. } => {
            assert(owners.contains_key(owner));
        },
        Corruption::ChainTail { owner, .. } => {
            assert(owners.contains_key(owner));
        },
        Corruption::UnownedHead { head, .. } => {
            assert(is_end(records, head, true));
        },
        Corruption::UnownedTail { tail, .. } => {
            assert(is_end(records, tail, false));
        },
        Corruption::SharedHead { owner, other, .. } => {
            assert(owners.contains_key(owner) && owners.contains_key(other));
        },
        Corruption::SharedTail { owner, other, .. } => {
            assert(owners.contains_key(owner) && owners.contains_key(other));
        },
        _ => {},
    }
}

/// The corruption for an end that no owner announces.
pub open spec fn unowned_spec(record_table: Table, head: bool, token: u128) -> Corruption {
    if head {
        Corruption::UnownedHead { table: record_table, head: token }
    } else {
        Corruption::UnownedTail { table: record_table, tail: token }
    }
}

/// The corruption for an announced end that names a further record.
pub open spec fn linked_on_spec(owner_table: Table, head: bool, owner: u128, token: u128, link: u128) -> Corruption {
    if head {
        Corruption::ChainHead { table: owner_table, owner, first: token, prev: link }
    } else {
        Corruption::ChainTail { table: owner_table, owner, last: token, next: link }
    }
}

/// The corruption for an end that two owners announce.
pub open spec fn shared_spec(owner_table: Table, head: bool, owner: u128, other: u128, token: u128) -> Corruption {
    if head {
        Corruption::SharedHead { table: owner_table, owner, other, first: token }
    } else {
        Corruption::SharedTail { table: owner_table, owner, other, last: token }
    }
}

/// The corruption for an end that no owner announces.
fn unowned(record_table: Table, head: bool, token: u128) -> (c: Corruption)
    ensures
        c == unowned_spec(record_table, head, token),
{
    if head {
        Corruption::UnownedHead { table: record_table, head: token }
    } else {
        Corruption::UnownedTail { table: record_table, tail: token }
    }
}

/// The corruption for an announced end that names a further record.
fn linked_on(owner_table: Table, head: bool, owner: u128, token: u128, link: u128) -> (c: Corruption)
    ensures
        c == linked_on_spec(owner_table, head, owner, token, link),
{
    if head {
        Corruption::ChainHead { table: owner_table, owner, first: token, prev: link }
    } else {
        Corruption::ChainTail { table: owner_table, owner, last: token, next: link }
    }
}

/// The corruption for an end that two owners announce.
fn shared(owner_table: Table, head: bool, owner: u128, other: u128, token: u128) -> (c: Corruption)
    ensures
        c == shared_spec(owner_table, head, owner, other, token),
{
    if head {
        Corruption::SharedHead { table: owner_table, owner, other, first: token }
    } else {
        Corruption::SharedTail { table: owner_table, owner, other, last: token }
    }
}

/// The ends of the table, each as the pair of its token and zero.
fn collect_ends<T: Linked>(records: &HashMap<u128, T>, head: bool) -> (ends: Vec<(u128, u128)>)
    ensures
        ends@.no_duplicates(),
        forall|h: u128, z: u128| #[trigger] ends@.contains((h, z)) <==> z == 0 && is_end(records@, h, head),
{
    let keys = table_keys(records);
    let mut ends: Vec<(u128, u128)> = Vec::new();
    let mut i: usize = 0;
    while i < keys.len()
        invariant
            i <= keys@.len(),
            keys@.no_duplicates(),
            forall|k: u128| keys@.contains(k) <==> #[trigger] records@.contains_key(k),
            ends@.no_duplicates(),
            forall|h: u128, z: u128| #[trigger]
                ends@.contains((h, z)) <==> z == 0 && is_end(records@, h, head) && keys@.take(i as int).contains(h),
        decreases keys@.len() - i,
    {
        let key = keys[i];
        assert(keys@.contains(key));
        let ghost before = ends@;
        match records.get(&key) {
            Some(record) => {
                let link = if head {
                    record.prev()
                } else {
                    record.next()
                };
                if link.is_none() {
                    proof {
                        assert(!keys@.take(i as int).contains(key));
                        assert(!ends@.contains((key, 0u128)));
                        lemma_push_no_duplicates(ends@, (key, 0u128));
                    }
                    ends.push((key, 0));
                }
            },
            None => {},
        }
        proof {
            let done = keys@.take(i as int);
            assert(keys@.take(i + 1) == done.push(key));
            assert forall|h: u128, z: u128| #[trigger]
                ends@.contains((h, z)) <==> z == 0 && is_end(records@, h, head) && keys@.take(i + 1).contains(
                    h,
                ) by {
                vstd::seq_lib::lemma_seq_contains_after_push(done, key, h);
                if ends@.len() > before.len() {
                    vstd::seq_lib::lemma_seq_contains_after_push(before, (key, 0u128), (h, z));
                }
            }
        }
        i += 1;
    }
    assert(keys@.take(keys@.len() as int) == keys@);
    ends
}

/// The end that each owner announces, as the pair of the end and the owner.
fn collect_announced<O: Chained>(owners: &HashMap<u128, O>, head: bool) -> (pairs: Vec<(u128, u128)>)
    ensures
        pairs@.no_duplicates(),
        forall|t: u128, k: u128| #[trigger]
            pairs@.contains((t, k)) <==> owners@.contains_key(k) && announced(owners@[k], head) == t,
{
    let keys = table_keys(owners);
    let mut pairs: Vec<(u128, u128)> = Vec::new();
    let mut i: usize = 0;
    while i < keys.len()
        invariant
            i <= keys@.len(),
            keys@.no_duplicates(),
            forall|k: u128| keys@.contains(k) <==> #[trigger] owners@.contains_key(k),
            pairs@.no_duplicates(),
            forall|t: u128, k: u128| #[trigger]
                pairs@.contains((t, k)) <==> owners@.contains_key(k) && announced(owners@[k], head) == t
                    && keys@.take(i as int).contains(k),
        decreases keys@.len() - i,
    {
        let key = keys[i];
        assert(keys@.contains(key));
        let ghost before = pairs@;
        match owners.get(&key) {
            Some(owner) => {
                let token = if head {
                    owner.first()
                } else {
                    owner.last()
                };
                proof {
                    assert(!keys@.take(i as int).contains(key));
                    assert(!pairs@.contains((token.0, key)));
                    lemma_push_no_duplicates(pairs@, (token.0, key));
                }
                pairs.push((token.0, key));
            },
            None => {},
        }
        proof {
            let done = keys@.take(i as int);
            assert(keys@.take(i + 1) == done.push(key));
            assert forall|t: u128, k: u128| #[trigger]
                pairs@.contains((t, k)) <==> owners@.contains_key(k) && announced(owners@[k], head) == t
                    && keys@.take(i + 1).contains(k) by {
                vstd::seq_lib::lemma_seq_contains_after_push(done, key, k);
                if pairs@.len() > before.len() {
                    vstd::seq_lib::lemma_seq_contains_after_push(
                        before,
                        (announced(owners@[key], head), key),
                        (t, k),
                    );
                }
            }
        }
        i += 1;
    }
    assert(keys@.take(keys@.len() as int) == keys@);
    pairs
}

/// The sorted ends and the sorted announcements agree before the place `i`,
/// and the end at `i` is smaller than the announcement there, or there is no
/// announcement left: no announcement names that end.
proof fn lemma_unowned(ends: Seq<(u128, u128)>, owned: Seq<(u128, u128)>, i: int)
    requires
        pairs_sorted(owned),
        ends.no_duplicates(),
        forall|j: int| 0 <= j < ends.len() ==> (#[trigger] ends[j]).1 == 0,
        0 <= i < ends.len(),
        i <= owned.len(),
        forall|j: int| 0 <= j < i ==> (#[trigger] ends[j]).0 == owned[j].0,
        i < owned.len() ==> ends[i].0 < owned[i].0,
    ensures
        forall|j: int| 0 <= j < owned.len() ==> (#[trigger] owned[j]).0 != ends[i].0,
{
    assert forall|j: int| 0 <= j < owned.len() implies (#[trigger] owned[j]).0 != ends[i].0 by {
        if j < i {
            if owned[j].0 == ends[i].0 {
                assert(ends[j].0 == owned[j].0);
                assert(ends[j] == ends[i]);
            }
        } else if j > i {
            assert(pair_le(owned[i], owned[j]));
        }
    }
}

/// The sorted ends and the sorted announcements agree before the place `i`,
/// the announcement at `i` is smaller than the end there, or there is no end
/// left, and the announcement before it names another token: the token that
/// is announced at `i` is no end.
proof fn lemma_not_an_end(ends: Seq<(u128, u128)>, owned: Seq<(u128, u128)>, i: int)
    requires
        pairs_sorted(owned),
        pairs_sorted(ends),
        0 <= i < owned.len(),
        i <= ends.len(),
        forall|j: int| 0 <= j < i ==> (#[trigger] ends[j]).0 == owned[j].0,
        i < ends.len() ==> owned[i].0 < ends[i].0,
        i > 0 ==> owned[i - 1].0 != owned[i].0,
    ensures
        forall|j: int| 0 <= j < ends.len() ==> (#[trigger] ends[j]).0 != owned[i].0,
{
    assert forall|j: int| 0 <= j < ends.len() implies (#[trigger] ends[j]).0 != owned[i].0 by {
        if j < i {
            if ends[j].0 == owned[i].0 {
                assert(owned[j].0 == owned[i].0);
                if j < i - 1 {
                    assert(pair_le(owned[j], owned[i - 1]));
                }
                assert(pair_le(owned[i - 1], owned[i]));
            }
        } else if j > i {
            assert(pair_le(ends[i], ends[j]));
        }
    }
}

/// Checks that the ends of the chains fit their owners: at the head, that
/// the records without a `prev` are the announced first records, each of
/// exactly one owner; at the tail, the same of the records without a `next`
/// and the announced last records. First every announced record is looked
/// up: one that the table does not hold is reported as a dangling token of
/// `field`, one that names a further record as a corruption that names its
/// owner. Then the ends and the announcements are sorted and compared place
/// by place, which finds an end without an owner or with two.
pub fn check_chain_ends<O: Chained, T: Linked>(
    owners: &HashMap<u128, O>,
    records: &HashMap<u128, T>,
    owner_table: Table,
    record_table: Table,
    field: Reference,
    head: bool,
) -> (r: core::result::Result<(), Error>)
    ensures
        r is Ok <==> ends_owned(owners@, records@, head),
        r matches Err(e) ==> e matches Error::CorruptedDataset(c) && (match c {
            Corruption::DanglingToken { field: f, holder, token } => f == field && end_missing(
                owners@,
                records@,
                head,
                holder,
                token,
            ),
            _ => ends_broken(owners@, records@, owner_table, record_table, c) && head == at_head(c),
        }),
        r matches Err(Error::CorruptedDataset(c)) && (c is UnownedHead || c is UnownedTail || c is SharedHead
            || c is SharedTail) ==> all_announced_are_ends(owners@, records@, head),
{
    let mut owned = collect_announced(owners, head);
    let mut n: usize = 0;
    while n < owned.len()
        invariant
            n <= owned@.len(),
            forall|t: u128, k: u128| #[trigger]
                owned@.contains((t, k)) <==> owners@.contains_key(k) && announced(owners@[k], head) == t,
            forall|m: int| 0 <= m < n ==> is_end(records@, (#[trigger] owned@[m]).0, head),
        decreases owned@.len() - n,
    {
        let token = owned[n].0;
        let owner = owned[n].1;
        proof {
            assert(owned@.contains(owned@[n as int]));
            assert(owned@.contains((token, owner)));
        }
        match records.get(&token) {
            None => {
                proof {
                    assert(!is_end(records@, announced(owners@[owner], head), head));
                }
                return Err(Error::CorruptedDataset(Corruption::DanglingToken { field, holder: owner, token }));
            },
            Some(record) => {
                let link = if head {
                    record.prev()
                } else {
                    record.next()
                };
                if let Some(link) = link {
                    proof {
                        lemma_ends_broken(
                            owners@,
                            records@,
                            owner_table,
                            record_table,
                            linked_on_spec(owner_table, head, owner, token, link.0),
                        );
                    }
                    return Err(Error::CorruptedDataset(linked_on(owner_table, head, owner, token, link.0)));
                }
            },
        }
        n += 1;
    }
    proof {
        assert forall|k: u128| #[trigger] owners@.contains_key(k) implies is_end(
            records@,
            announced(owners@[k], head),
            head,
        ) by {
            assert(owned@.contains((announced(owners@[k], head), k)));
            let m = choose|m: int| 0 <= m < owned@.len() && owned@[m] == (announced(owners@[k], head), k);
            assert(is_end(records@, owned@[m].0, head));
        }
    }
    let mut ends = collect_ends(records, head);
    let ghost ends_before = ends@;
    let ghost owned_before = owned@;
    par_sort_pairs(&mut ends);
    par_sort_pairs(&mut owned);
    proof {
        lemma_same_multiset(ends_before, ends@);
        lemma_same_multiset(owned_before, owned@);
        assert forall|j: int| 0 <= j < ends@.len() implies (#[trigger] ends@[j]).1 == 0 by {
            assert(ends@.contains(ends@[j]));
            assert(ends_before.contains((ends@[j].0, ends@[j].1)));
        }
        assert forall|j: int| 0 <= j < owned@.len() implies is_end(records@, (#[trigger] owned@[j]).0, head) by {
            assert(owned@.contains(owned@[j]));
            assert(owned_before.contains(owned@[j]));
            let m = choose|m: int| 0 <= m < owned_before.len() && owned_before[m] == owned@[j];
            assert(is_end(records@, owned_before[m].0, head));
        }
    }
    let mut i: usize = 0;
    let mut fault_at_end = false;
    let mut found = false;
    while !found && i < ends.len() && i < owned.len()
        invariant
            i <= ends@.len(),
            i <= owned@.len(),
            forall|j: int| 0 <= j < i ==> (#[trigger] ends@[j]).0 == owned@[j].0,
            found ==> i < ends@.len() && i < owned@.len() && ends@[i as int].0 != owned@[i as int].0,
            found ==> (fault_at_end <==> ends@[i as int].0 < owned@[i as int].0),
        decreases (if found { 0int } else { 1 + ends@.len() - i }),
    {
        let a = ends[i].0;
        let b = owned[i].0;
        if a != b {
            fault_at_end = a < b;
            found = true;
        } else {
            i += 1;
        }
    }
    if !found {
        if i < ends.len() {
            fault_at_end = true;
            found = true;
        } else if i < owned.len() {
            fault_at_end = false;
            found = true;
        }
    }
    if !found {
        proof {
            assert(ends@.len() == owned@.len());
            assert forall|k: u128| #[trigger] owners@.contains_key(k) implies is_end(
                records@,
                announced(owners@[k], head),
                head,
            ) by {
                let pair = (announced(owners@[k], head), k);
                assert(owned_before.contains(pair));
                assert(owned@.contains(pair));
                let j = choose|j: int| 0 <= j < owned@.len() && owned@[j] == pair;
                assert(ends@.contains(ends@[j]));
                assert(ends_before.contains((ends@[j].0, ends@[j].1)));
            }
            assert forall|h: u128| #[trigger] is_end(records@, h, head) implies exists|k: u128| #[trigger]
                owners@.contains_key(k) && announced(owners@[k], head) == h by {
                assert(ends_before.contains((h, 0u128)));
                assert(ends@.contains((h, 0u128)));
                let j = choose|j: int| 0 <= j < ends@.len() && ends@[j] == (h, 0u128);
                assert(owned@.contains(owned@[j]));
                assert(owned_before.contains((owned@[j].0, owned@[j].1)));
                assert(owners@.contains_key(owned@[j].1));
            }
            assert forall|k1: u128, k2: u128|
                #![trigger owners@.contains_key(k1), owners@.contains_key(k2)]
                owners@.contains_key(k1) && owners@.contains_key(k2) && k1 != k2 implies announced(
                owners@[k1],
                head,
            ) != announced(owners@[k2], head) by {
                let t1 = announced(owners@[k1], head);
                let t2 = announced(owners@[k2], head);
                if t1 == t2 {
                    assert(owned_before.contains((t1, k1)));
                    assert(owned_before.contains((t2, k2)));
                    assert(owned@.contains((t1, k1)));
                    assert(owned@.contains((t2, k2)));
                    let j1 = choose|j: int| 0 <= j < owned@.len() && owned@[j] == (t1, k1);
                    let j2 = choose|j: int| 0 <= j < owned@.len() && owned@[j] == (t2, k2);
                    assert(ends@[j1].0 == t1 && ends@[j2].0 == t1);
                    assert(ends@[j1] == ends@[j2]);
                }
            }
        }
        return Ok(());
    }
    if fault_at_end {
        let token = ends[i].0;
        proof {
            lemma_unowned(ends@, owned@, i as int);
            assert(ends@.contains(ends@[i as int]));
            assert(ends_before.contains((token, ends@[i as int].1)));
            assert forall|k: u128| #[trigger] owners@.contains_key(k) implies announced(owners@[k], head)
                != token by {
                let pair = (announced(owners@[k], head), k);
                assert(owned_before.contains(pair));
                assert(owned@.contains(pair));
                let j = choose|j: int| 0 <= j < owned@.len() && owned@[j] == pair;
                assert(owned@[j].0 != token);
            }
            lemma_ends_broken(
                owners@,
                records@,
                owner_table,
                record_table,
                unowned_spec(record_table, head, token),
            );
        }
        return Err(Error::CorruptedDataset(unowned(record_table, head, token)));
    }
    let token = owned[i].0;
    let owner = owned[i].1;
    proof {
        assert(owned@.contains(owned@[i as int]));
        assert(owned_before.contains((token, owner)));
        assert(is_end(records@, owned@[i as int].0, head));
    }
    if i > 0 && owned[i - 1].0 == token {
        let other = owned[i - 1].1;
        proof {
            assert(owned@.contains(owned@[i - 1]));
            assert(owned_before.contains((token, other)));
            assert(owned@[i - 1] != owned@[i as int]);
            lemma_ends_broken(
                owners@,
                records@,
                owner_table,
                record_table,
                shared_spec(owner_table, head, owner, other, token),
            );
        }
        Err(Error::CorruptedDataset(shared(owner_table, head, owner, other, token)))
    } else {
        proof {
            lemma_not_an_end(ends@, owned@, i as int);
            assert(ends_before.contains((token, 0u128)));
            assert(ends@.contains((token, 0u128)));
            assert(false);
        }
        Err(Error::InternalBug)
    }
}

} // verus!
