//! Turning the matches of the store into airports.

use crate::model::{Airport, AirportView};
use vstd::prelude::*;

verus! {

/// How many matches a lookup by identifier asks the store for. Identifiers are
/// unique, so one is all there can be.
pub const IDENTIFIER_LIMIT: usize = 1;

/// How many matches a search by free text asks the store for.
pub const SEARCH_LIMIT: usize = 25;

/// The test that the payload of a match could be read back as an airport.
pub open spec fn readable() -> spec_fn(Option<Airport>) -> bool {
    |candidate: Option<Airport>| candidate is Some
}

/// The airports that a query gives, from what the store returned for it.
///
/// `candidates` are the store's matches for the query, best first; each is the
/// airport that its payload holds, or `None` where the payload could not be
/// read back. No more than `limit` matches are looked at. A match that could
/// not be read back is left out, and the others keep their order.
pub open spec fn materialized(candidates: Seq<Option<Airport>>, limit: nat) -> Seq<Airport> {
    let considered = if candidates.len() <= limit {
        candidates
    } else {
        candidates.take(limit as int)
    };
    considered.filter(readable()).map_values(|candidate: Option<Airport>| candidate->Some_0)
}

/// Turns the store's matches for a query into airports.
pub fn materialize_query(candidates: Vec<Option<Airport>>, limit: usize) -> (airports: Vec<
    Airport,
>)
    ensures
        airports@ == materialized(candidates@, limit as nat),
{
    let mut considered = candidates;
    considered.truncate(limit);
    let ghost all = considered@;
    let ghost mut done: Seq<Option<Airport>> = Seq::empty();
    let mut airports: Vec<Airport> = Vec::new();
    proof {
        assert(all == if candidates@.len() <= limit {
            candidates@
        } else {
            candidates@.take(limit as int)
        });
        assert(done.filter(readable()).len() == 0) by {
            done.lemma_filter_len(readable());
        }
        assert(airports@ =~= done.filter(readable()).map_values(
            |candidate: Option<Airport>| candidate->Some_0,
        ));
    }
    for candidate in rest: considered
        invariant
            rest.seq() == all,
            done == all.take(rest.index()),
            airports@ == done.filter(readable()).map_values(
                |candidate: Option<Airport>| candidate->Some_0,
            ),
    {
        proof {
            done.lemma_filter_push(candidate, readable());
            assert(all.take(rest.index() + 1) =~= done.push(candidate));
            done = done.push(candidate);
        }
        match candidate {
            Some(airport) => {
                airports.push(airport);
            },
            None => {},
        }
        proof {
            assert(airports@ =~= done.filter(readable()).map_values(
                |candidate: Option<Airport>| candidate->Some_0,
            ));
        }
    }
    proof {
        assert(all.take(all.len() as int) =~= all);
    }
    airports
}

/// The airport that a lookup by identifier gives: the best match whose
/// payload could be read back, or none where there is no such match.
pub fn by_identifier(candidates: Vec<Option<Airport>>) -> (airport: Option<Airport>)
    ensures
        airport == if materialized(candidates@, IDENTIFIER_LIMIT as nat).len() > 0 {
            Some(materialized(candidates@, IDENTIFIER_LIMIT as nat)[0])
        } else {
            None
        },
{
    let mut airports = materialize_query(candidates, IDENTIFIER_LIMIT);
    if airports.len() > 0 {
        Some(airports.remove(0))
    } else {
        None
    }
}

/// The airports that a search by free text gives: the matches whose payload
/// could be read back, best first.
pub fn search(candidates: Vec<Option<Airport>>) -> (airports: Vec<Airport>)
    ensures
        airports@ == materialized(candidates@, SEARCH_LIMIT as nat),
{
    materialize_query(candidates, SEARCH_LIMIT)
}

/// A query gives no more airports than its limit.
pub proof fn law_at_most_limit(candidates: Seq<Option<Airport>>, limit: nat)
    ensures
        materialized(candidates, limit).len() <= limit,
        materialized(candidates, limit).len() <= candidates.len(),
{
    if candidates.len() <= limit {
        candidates.lemma_filter_len(readable());
    } else {
        candidates.take(limit as int).lemma_filter_len(readable());
    }
}

/// Where the store has no match whose payload can be read back, and so where
/// it has no match at all, a query gives no airport.
pub proof fn law_nothing_found(candidates: Seq<Option<Airport>>, limit: nat)
    requires
        forall|i: int| 0 <= i < candidates.len() ==> candidates[i] is None,
    ensures
        materialized(candidates, limit) == Seq::<Airport>::empty(),
{
    let considered = if candidates.len() <= limit {
        candidates
    } else {
        candidates.take(limit as int)
    };
    assert forall|candidate: Option<Airport>| considered.contains(candidate) implies !(
    #[trigger] readable()(candidate)) by {
        let i = choose|i: int| 0 <= i < considered.len() && considered[i] == candidate;
        assert(considered[i] == candidates[i]);
    }
    considered.lemma_all_neg_filter_empty(readable());
    assert(materialized(candidates, limit) =~= Seq::<Airport>::empty());
}

/// Every match within the limit whose payload can be read back is among the
/// airports that the query gives.
pub proof fn law_readable_match_is_given(
    candidates: Seq<Option<Airport>>,
    limit: nat,
    position: int,
)
    requires
        0 <= position < candidates.len(),
        position < limit,
        candidates[position] is Some,
    ensures
        materialized(candidates, limit).contains(candidates[position]->Some_0),
{
    let considered = if candidates.len() <= limit {
        candidates
    } else {
        candidates.take(limit as int)
    };
    let kept = considered.filter(readable());
    assert(considered[position] == candidates[position]);
    assert(readable()(considered[position]));
    considered.lemma_filter_contains(readable(), position);
    assert(kept.contains(candidates[position]));
    let k = choose|k: int| 0 <= k < kept.len() && kept[k] == candidates[position];
    assert(materialized(candidates, limit)[k] == candidates[position]->Some_0);
}

/// The airports that a query gives come in the order of the store's matches:
/// where the best match can be read back, it is the first airport.
pub proof fn law_best_match_first(candidates: Seq<Option<Airport>>, limit: nat)
    requires
        candidates.len() > 0,
        limit > 0,
        candidates[0] is Some,
    ensures
        materialized(candidates, limit).len() > 0,
        materialized(candidates, limit)[0] == candidates[0]->Some_0,
{
    let considered = if candidates.len() <= limit {
        candidates
    } else {
        candidates.take(limit as int)
    };
    let head = seq![candidates[0]];
    let tail = considered.skip(1);
    assert(considered =~= head + tail);
    Seq::filter_distributes_over_add(head, tail, readable());
    assert(head.filter(readable()) == head) by {
        let none = Seq::<Option<Airport>>::empty();
        assert(head =~= none.push(candidates[0]));
        none.lemma_filter_push(candidates[0], readable());
        none.lemma_filter_len(readable());
        assert(none.filter(readable()) =~= none);
    }
}

/// Where the store answers a lookup with the payload of one document, read
/// back as it was written, the lookup gives the airport of that document.
pub proof fn law_lookup_gives_stored_airport(stored: Airport)
    ensures
        materialized(seq![Some(stored)], IDENTIFIER_LIMIT as nat) == seq![stored],
{
    law_best_match_first(seq![Some(stored)], IDENTIFIER_LIMIT as nat);
    law_at_most_limit(seq![Some(stored)], IDENTIFIER_LIMIT as nat);
    assert(materialized(seq![Some(stored)], IDENTIFIER_LIMIT as nat) =~= seq![stored]);
}

/// The line that shows an airport among the matches of a search: identifier,
/// region and name, with a space between.
pub open spec fn summary_of(airport: AirportView) -> Seq<char> {
    airport.ident + " "@ + airport.iso_region + " "@ + airport.name
}

/// Composes the line that shows an airport among the matches of a search.
pub fn summary(airport: &Airport) -> (line: String)
    ensures
        line@ == summary_of(airport@),
{
    let mut line = airport.ident.clone();
    line.append(" ");
    line.append(airport.iso_region.as_str());
    line.append(" ");
    line.append(airport.name.as_str());
    line
}

} // verus!
