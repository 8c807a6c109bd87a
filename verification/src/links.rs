//! The `prev` and `next` links of the chained tables, and the rule that the
//! two agree.

use crate::error::{Corruption, Error, Table};
use crate::serializable::types::{Sample, SampleAnnotation, SampleData, WithToken};
use crate::table::table_keys;
use crate::token::Token;
use rayon::slice::ParallelSliceMut;
use std::collections::HashMap;
use vstd::prelude::*;

verus! {

broadcast use vstd::std_specs::hash::group_hash_axioms;

/// A record of a chained table: it may name the record before it and the
/// record after it.
pub trait Linked: WithToken {
    spec fn prev_spec(&self) -> Option<Token>;

    spec fn next_spec(&self) -> Option<Token>;

    fn prev(&self) -> (prev: Option<Token>)
        ensures
            prev == self.prev_spec(),
    ;

    fn next(&self) -> (next: Option<Token>)
        ensures
            next == self.next_spec(),
    ;
}

impl Linked for Sample {
    open spec fn prev_spec(&self) -> Option<Token> {
        self.prev
    }

    open spec fn next_spec(&self) -> Option<Token> {
        self.next
    }

    fn prev(&self) -> Option<Token> {
        self.prev
    }

    fn next(&self) -> Option<Token> {
        self.next
    }
}

impl Linked for SampleAnnotation {
    open spec fn prev_spec(&self) -> Option<Token> {
        self.prev
    }

    open spec fn next_spec(&self) -> Option<Token> {
        self.next
    }

    fn prev(&self) -> Option<Token> {
        self.prev
    }

    fn next(&self) -> Option<Token> {
        self.next
    }
}

impl Linked for SampleData {
    open spec fn prev_spec(&self) -> Option<Token> {
        self.prev
    }

    open spec fn next_spec(&self) -> Option<Token> {
        self.next
    }

    fn prev(&self) -> Option<Token> {
        self.prev
    }

    fn next(&self) -> Option<Token> {
        self.next
    }
}

/// The record `to` of the table names `from` as the record before it.
pub open spec fn has_prev_edge<T: Linked>(table: Map<u128, T>, from: u128, to: u128) -> bool {
    table.contains_key(to) && table[to].prev_spec() == Some(Token(from))
}

/// The record `from` of the table names `to` as the record after it.
pub open spec fn has_next_edge<T: Linked>(table: Map<u128, T>, from: u128, to: u128) -> bool {
    table.contains_key(from) && table[from].next_spec() == Some(Token(to))
}

/// The links of the table agree: one record names a second as the one after
/// it exactly when the second names the first as the one before it.
pub open spec fn links_symmetric<T: Linked>(table: Map<u128, T>) -> bool {
    forall|from: u128, to: u128|
        #![trigger has_prev_edge(table, from, to)]
        #![trigger has_next_edge(table, from, to)]
        has_prev_edge(table, from, to) <==> has_next_edge(table, from, to)
}

/// The order of pairs: by the first number, then by the second.
pub open spec fn pair_le(a: (u128, u128), b: (u128, u128)) -> bool {
    a.0 < b.0 || (a.0 == b.0 && a.1 <= b.1)
}

/// The pairs stand in ascending order.
pub open spec fn pairs_sorted(pairs: Seq<(u128, u128)>) -> bool {
    forall|i: int, j: int| 0 <= i < j < pairs.len() ==> pair_le(#[trigger] pairs[i], #[trigger] pairs[j])
}

/// `rayon`'s `par_sort_unstable` on a slice of pairs of numbers. Trusted: it
/// leaves the same pairs, each as often as before, in ascending order, pairs
/// being ordered by their first number and then by their second.
#[verifier::external_body]
pub(crate) fn par_sort_pairs(pairs: &mut Vec<(u128, u128)>)
    ensures
        pairs_sorted(final(pairs)@),
        final(pairs)@.to_multiset() == old(pairs)@.to_multiset(),
{
    pairs.par_sort_unstable();
}

/// Sorting keeps the length of a list, what it contains, and that nothing occurs twice in it.
pub proof fn lemma_same_multiset<A>(before: Seq<A>, after: Seq<A>)
    requires
        before.to_multiset() == after.to_multiset(),
    ensures
        before.len() == after.len(),
        forall|x: A| before.contains(x) <==> after.contains(x),
        before.no_duplicates() ==> after.no_duplicates(),
{
    before.to_multiset_ensures();
    after.to_multiset_ensures();
    assert forall|x: A| before.contains(x) <==> after.contains(x) by {
        assert(before.contains(x) <==> before.to_multiset().count(x) > 0);
        assert(after.contains(x) <==> after.to_multiset().count(x) > 0);
    }
    if before.no_duplicates() {
        before.lemma_multiset_has_no_duplicates();
        after.lemma_multiset_has_no_duplicates_conv();
    }
}

/// A list without repetition stays so when something new is added to it.
pub proof fn lemma_push_no_duplicates<A>(s: Seq<A>, x: A)
    requires
        s.no_duplicates(),
        !s.contains(x),
    ensures
        s.push(x).no_duplicates(),
{
    assert forall|i: int, j: int| 0 <= i < s.len() + 1 && 0 <= j < s.len() + 1 && i != j implies s.push(x)[i]
        != s.push(x)[j] by {
        if i < s.len() {
            assert(s.contains(s[i]));
        }
        if j < s.len() {
            assert(s.contains(s[j]));
        }
    }
}

/// The record `from` names `to` as the record after it, if `by_next`; the
/// record `to` names `from` as the record before it, if not.
pub open spec fn has_edge<T: Linked>(table: Map<u128, T>, from: u128, to: u128, by_next: bool) -> bool {
    if by_next {
        has_next_edge(table, from, to)
    } else {
        has_prev_edge(table, from, to)
    }
}

/// The links that the records of a table declare by one of their fields:
/// by `next`, each as the pair of the record itself and the record after it;
/// by `prev`, each as the pair of the record before and the record itself.
fn collect_edges<T: Linked>(map: &HashMap<u128, T>, keys: &Vec<u128>, by_next: bool) -> (edges: Vec<
    (u128, u128),
>)
    requires
        keys@.no_duplicates(),
        forall|k: u128| keys@.contains(k) <==> #[trigger] map@.contains_key(k),
    ensures
        edges@.no_duplicates(),
        forall|from: u128, to: u128| #[trigger]
            edges@.contains((from, to)) <==> has_edge(map@, from, to, by_next),
{
    let mut edges: Vec<(u128, u128)> = Vec::new();
    let mut i: usize = 0;
    while i < keys.len()
        invariant
            i <= keys@.len(),
            keys@.no_duplicates(),
            forall|k: u128| keys@.contains(k) <==> #[trigger] map@.contains_key(k),
            edges@.no_duplicates(),
            forall|from: u128, to: u128| #[trigger]
                edges@.contains((from, to)) <==> has_edge(map@, from, to, by_next) && keys@.take(
                    i as int,
                ).contains(if by_next { from } else { to }),
        decreases keys@.len() - i,
    {
        let key = keys[i];
        assert(keys@.contains(key));
        let ghost before = edges@;
        let link = match map.get(&key) {
            Some(record) => if by_next {
                record.next()
            } else {
                record.prev()
            },
            None => None,
        };
        if let Some(link) = link {
            let edge = if by_next {
                (key, link.0)
            } else {
                (link.0, key)
            };
            proof {
                assert(!keys@.take(i as int).contains(key));
                assert(!edges@.contains((edge.0, edge.1)));
                lemma_push_no_duplicates(edges@, edge);
            }
            edges.push(edge);
        }
        proof {
            let done = keys@.take(i as int);
            assert(keys@.take(i + 1) == done.push(key));
            assert forall|from: u128, to: u128| #[trigger]
                edges@.contains((from, to)) <==> has_edge(map@, from, to, by_next) && keys@.take(
                    i + 1,
                ).contains(if by_next { from } else { to }) by {
                vstd::seq_lib::lemma_seq_contains_after_push(done, key, if by_next { from } else { to });
                if edges@.len() > before.len() {
                    vstd::seq_lib::lemma_seq_contains_after_push(before, edges@.last(), (from, to));
                }
            }
        }
        i += 1;
    }
    assert(keys@.take(keys@.len() as int) == keys@);
    edges
}

/// The corruption is a link of the table that the other side does not confirm.
pub open spec fn link_unmatched<T: Linked>(table: Map<u128, T>, name: Table, c: Corruption) -> bool {
    match c {
        Corruption::UnmatchedPrev { table: t, from, to } => t == name && has_prev_edge(table, from, to)
            && !has_next_edge(table, from, to),
        Corruption::UnmatchedNext { table: t, from, to } => t == name && has_next_edge(table, from, to)
            && !has_prev_edge(table, from, to),
        _ => false,
    }
}

/// The link from `from` to `to` is declared by one side only.
pub open spec fn unmatched<T: Linked>(table: Map<u128, T>, from: u128, to: u128) -> bool {
    has_prev_edge(table, from, to) != has_next_edge(table, from, to)
}

/// The link that a corruption names.
pub open spec fn named_link(c: Corruption) -> (u128, u128) {
    match c {
        Corruption::UnmatchedPrev { from, to, .. } => (from, to),
        Corruption::UnmatchedNext { from, to, .. } => (from, to),
        _ => (0, 0),
    }
}

/// No link of the table that one side only declares stands, in the order
/// of pairs, before the link that the corruption names.
pub open spec fn names_least_unmatched<T: Linked>(table: Map<u128, T>, c: Corruption) -> bool {
    forall|from: u128, to: u128| #[trigger] unmatched(table, from, to) ==> pair_le(named_link(c), (from, to))
}

/// Under the conditions of `lemma_absent`, whatever occurs in one of the
/// two lists only does not stand before the element at the place `i`.
proof fn lemma_least(a: Seq<(u128, u128)>, b: Seq<(u128, u128)>, i: int)
    requires
        pairs_sorted(a),
        pairs_sorted(b),
        0 <= i < a.len(),
        i <= b.len(),
        forall|j: int| 0 <= j < i ==> a[j] == b[j],
        i < b.len() ==> a[i] != b[i] && pair_le(a[i], b[i]),
    ensures
        forall|e: (u128, u128)| a.contains(e) != b.contains(e) ==> pair_le(a[i], e),
{
    assert forall|e: (u128, u128)| a.contains(e) != b.contains(e) implies pair_le(a[i], e) by {
        if a.contains(e) {
            let j = choose|j: int| 0 <= j < a.len() && a[j] == e;
            if j < i {
                assert(b[j] == e);
            } else if j > i {
                assert(pair_le(a[i], a[j]));
            }
        } else {
            let j = choose|j: int| 0 <= j < b.len() && b[j] == e;
            if j < i {
                assert(a[j] == e);
            } else if j > i {
                assert(pair_le(b[i], b[j]));
            }
        }
    }
}

/// An element of a sorted list without repetition that is smaller than the
/// element at the same place of a second sorted list, which agrees with the
/// first before that place, does not occur in the second list.
proof fn lemma_absent(a: Seq<(u128, u128)>, b: Seq<(u128, u128)>, i: int)
    requires
        pairs_sorted(a),
        pairs_sorted(b),
        a.no_duplicates(),
        0 <= i < a.len(),
        i <= b.len(),
        forall|j: int| 0 <= j < i ==> a[j] == b[j],
        i < b.len() ==> a[i] != b[i] && pair_le(a[i], b[i]),
    ensures
        !b.contains(a[i]),
{
    if b.contains(a[i]) {
        let j = choose|j: int| 0 <= j < b.len() && b[j] == a[i];
        if j < i {
            assert(a[j] == a[i]);
        } else if j > i {
            assert(pair_le(b[i], b[j]));
        }
    }
}

/// The error for the link at the place `i` of the sorted list `own`, which
/// stands before the link at that place of the sorted list `other`, or
/// behind its end: the link is declared by one side only, and it is the first
/// such link in the order of pairs.
fn unmatched_link<T: Linked>(
    own: &Vec<(u128, u128)>,
    other: &Vec<(u128, u128)>,
    i: usize,
    Ghost(table): Ghost<Map<u128, T>>,
    name: Table,
    by_next: bool,
) -> (c: Corruption)
    requires
        pairs_sorted(own@),
        pairs_sorted(other@),
        own@.no_duplicates(),
        i < own@.len(),
        i <= other@.len(),
        forall|j: int| 0 <= j < i ==> own@[j] == other@[j],
        i < other@.len() ==> own@[i as int] != other@[i as int] && pair_le(own@[i as int], other@[i as int]),
        forall|from: u128, to: u128| #[trigger] own@.contains((from, to)) <==> has_edge(table, from, to, by_next),
        forall|from: u128, to: u128| #[trigger]
            other@.contains((from, to)) <==> has_edge(table, from, to, !by_next),
    ensures
        link_unmatched(table, name, c),
        names_least_unmatched(table, c),
        !links_symmetric(table),
{
    let edge = own[i];
    proof {
        lemma_absent(own@, other@, i as int);
        lemma_least(own@, other@, i as int);
        assert(own@.contains(edge));
        assert(own@.contains((edge.0, edge.1)));
        assert(!other@.contains((edge.0, edge.1)));
        assert forall|from: u128, to: u128| #[trigger] unmatched(table, from, to) implies pair_le(
            edge,
            (from, to),
        ) by {
            assert(own@.contains((from, to)) != other@.contains((from, to)));
        }
        assert(has_prev_edge(table, edge.0, edge.1) != has_next_edge(table, edge.0, edge.1));
    }
    if by_next {
        Corruption::UnmatchedNext { table: name, from: edge.0, to: edge.1 }
    } else {
        Corruption::UnmatchedPrev { table: name, from: edge.0, to: edge.1 }
    }
}

/// Checks that the `prev` links and the `next` links of a table agree, by
/// sorting the two lists of links and comparing them place by place. Of the
/// links that one side only declares, the error names the first in the order
/// of pairs.
pub fn check_links<T: Linked>(map: &HashMap<u128, T>, name: Table) -> (r: core::result::Result<(), Error>)
    ensures
        r is Ok <==> links_symmetric(map@),
        r matches Err(e) ==> e matches Error::CorruptedDataset(c) && link_unmatched(map@, name, c)
            && names_least_unmatched(map@, c),
{
    let keys = table_keys(map);
    let mut prev_edges = collect_edges(map, &keys, false);
    let mut next_edges = collect_edges(map, &keys, true);
    let ghost prev_before = prev_edges@;
    let ghost next_before = next_edges@;
    par_sort_pairs(&mut prev_edges);
    par_sort_pairs(&mut next_edges);
    proof {
        lemma_same_multiset(prev_before, prev_edges@);
        lemma_same_multiset(next_before, next_edges@);
    }
    let mut i: usize = 0;
    let mut differ = false;
    let mut prev_first = false;
    while !differ && i < prev_edges.len() && i < next_edges.len()
        invariant
            i <= prev_edges@.len(),
            i <= next_edges@.len(),
            forall|j: int| 0 <= j < i ==> prev_edges@[j] == next_edges@[j],
            differ ==> i < prev_edges@.len() && i < next_edges@.len() && prev_edges@[i as int]
                != next_edges@[i as int],
            differ && prev_first ==> pair_le(prev_edges@[i as int], next_edges@[i as int]),
            differ && !prev_first ==> pair_le(next_edges@[i as int], prev_edges@[i as int]),
        decreases (if differ { 0int } else { 1 + prev_edges@.len() - i }),
    {
        let a = prev_edges[i];
        let b = next_edges[i];
        if a.0 != b.0 || a.1 != b.1 {
            prev_first = a.0 < b.0 || (a.0 == b.0 && a.1 < b.1);
            differ = true;
        } else {
            i += 1;
        }
    }
    if !differ {
        if i < prev_edges.len() {
            prev_first = true;
        } else if i < next_edges.len() {
            prev_first = false;
        } else {
            proof {
                assert(prev_edges@ =~= next_edges@);
                assert forall|from: u128, to: u128|
                    #![trigger has_prev_edge(map@, from, to)]
                    #![trigger has_next_edge(map@, from, to)]
                    has_prev_edge(map@, from, to) <==> has_next_edge(map@, from, to) by {
                    assert(prev_edges@.contains((from, to)) <==> has_edge(map@, from, to, false));
                    assert(next_edges@.contains((from, to)) <==> has_edge(map@, from, to, true));
                }
            }
            return Ok(());
        }
    }
    let c = if prev_first {
        unmatched_link::<T>(&prev_edges, &next_edges, i, Ghost(map@), name, false)
    } else {
        unmatched_link::<T>(&next_edges, &prev_edges, i, Ghost(map@), name, true)
    };
    Err(Error::CorruptedDataset(c))
}

} // verus!
