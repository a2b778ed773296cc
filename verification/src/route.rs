//! Routes: resolving tokens to waypoints, and the legs between them.

use crate::error::Error;
use crate::model::{Airport, Coords, ParseCoordsError};
use crate::pairs::{adjacent_pairs, pending_items, Pairs};
use crate::waypoint::{Waypoint, WaypointName};
use vstd::prelude::*;
use vstd::std_specs::iter::IteratorSpec;

verus! {

/// A token of a route, with what is known of it before it is resolved.
#[derive(Debug)]
pub struct Candidate {
    /// The token as the user wrote it.
    pub token: String,
    /// The airport that a lookup of the token by identifier gave, if any.
    pub airport: Option<Airport>,
    /// What reading the token as a coordinate pair gave.
    pub position: Result<Coords, ParseCoordsError>,
}

impl Candidate {
    /// Whether the token names a waypoint: an airport was found for it, or it
    /// reads as a coordinate pair.
    pub open spec fn resolves(self) -> bool {
        self.airport is Some || self.position is Ok
    }

    /// The waypoint that the token names. An airport found for the token comes
    /// before its reading as a coordinate pair.
    pub open spec fn waypoint(self) -> Waypoint {
        match self.airport {
            Some(airport) => Waypoint::Airport(airport),
            None => Waypoint::Coords(self.position->Ok_0),
        }
    }

    /// Resolves the token to a waypoint, or fails with the token that names
    /// nothing.
    pub fn resolve(self) -> (resolved: Result<Waypoint, Error>)
        ensures
            self.resolves() ==> resolved == Ok::<Waypoint, Error>(self.waypoint()),
            !self.resolves() ==> (resolved matches Err(Error::UnknownIdentifier(name)) && name@
                == self.token@),
    {
        let Candidate { token, airport, position } = self;
        match airport {
            Some(airport) => Ok(Waypoint::from(airport)),
            None => match position {
                Ok(coordinates) => Ok(Waypoint::from(coordinates)),
                Err(_) => Err(Error::from_identifier(token.as_str())),
            },
        }
    }
}

/// Whether every token of a route names a waypoint.
pub open spec fn all_resolve(candidates: Seq<Candidate>) -> bool {
    forall|i: int| 0 <= i < candidates.len() ==> (#[trigger] candidates[i]).resolves()
}

/// Whether the token at `position` is the first of a route that names nothing.
pub open spec fn first_unresolved(candidates: Seq<Candidate>, position: int) -> bool {
    &&& 0 <= position < candidates.len()
    &&& !candidates[position].resolves()
    &&& forall|i: int| 0 <= i < position ==> (#[trigger] candidates[i]).resolves()
}

/// Resolves the tokens of a route in order, origin first. The route is given
/// only if every token names a waypoint; otherwise the first token that names
/// nothing is reported and no part of the route is given.
pub fn resolve_route(candidates: Vec<Candidate>) -> (resolved: Result<Vec<Waypoint>, Error>)
    ensures
        all_resolve(candidates@) ==> (resolved matches Ok(route) && route@
            == candidates@.map_values(|candidate: Candidate| candidate.waypoint())),
        !all_resolve(candidates@) ==> (resolved matches Err(Error::UnknownIdentifier(name))
            && exists|position: int|
            first_unresolved(candidates@, position) && name@
                == (#[trigger] candidates@[position]).token@),
{
    let ghost all = candidates@;
    let mut route: Vec<Waypoint> = Vec::new();
    for candidate in rest: candidates
        invariant
            rest.seq() == all,
            route@.len() == rest.index(),
            forall|i: int| 0 <= i < rest.index() ==> (#[trigger] all[i]).resolves(),
            forall|i: int| 0 <= i < rest.index() ==> route@[i] == (#[trigger] all[i]).waypoint(),
    {
        let ghost position = rest.index();
        match candidate.resolve() {
            Ok(waypoint) => {
                route.push(waypoint);
            },
            Err(error) => {
                proof {
                    assert(first_unresolved(all, position));
                }
                return Err(error);
            },
        }
    }
    proof {
        assert(route@ =~= all.map_values(|candidate: Candidate| candidate.waypoint()));
    }
    Ok(route)
}

/// The legs of a route: each waypoint but the last, paired with the one that
/// follows it.
pub fn legs<'a>(route: &'a Vec<Waypoint>) -> (legs: Vec<(&'a Waypoint, &'a Waypoint)>)
    ensures
        legs@ == adjacent_pairs(route@.as_ref()),
{
    let mut pairs = route.iter().pairs();
    let mut legs: Vec<(&'a Waypoint, &'a Waypoint)> = Vec::new();
    loop
        invariant
            pairs.source.obeys_prophetic_iter_laws(),
            pairs.source.decrease() is Some,
            legs@ + adjacent_pairs(pending_items(pairs.left, pairs.source.remaining()))
                == adjacent_pairs(route@.as_ref()),
        ensures
            legs@ == adjacent_pairs(route@.as_ref()),
        decreases pairs.source.decrease()->0,
    {
        match pairs.next() {
            Some(leg) => {
                legs.push(leg);
            },
            None => {
                break ;
            },
        }
    }
    legs
}

/// The width of the widest of `texts`, in characters; zero where there is
/// none.
pub open spec fn widest(texts: Seq<Seq<char>>) -> nat
    decreases texts.len(),
{
    if texts.len() == 0 {
        0
    } else if texts.last().len() > widest(texts.drop_last()) {
        texts.last().len()
    } else {
        widest(texts.drop_last())
    }
}

/// No text is wider than the widest, and where there is a text, one of them is
/// as wide.
pub proof fn law_widest_is_the_greatest(texts: Seq<Seq<char>>)
    ensures
        forall|i: int| 0 <= i < texts.len() ==> (#[trigger] texts[i]).len() <= widest(texts),
        texts.len() > 0 ==> exists|i: int|
            0 <= i < texts.len() && (#[trigger] texts[i]).len() == widest(texts),
    decreases texts.len(),
{
    if texts.len() > 0 {
        let earlier = texts.drop_last();
        law_widest_is_the_greatest(earlier);
        assert forall|i: int| 0 <= i < texts.len() implies (#[trigger] texts[i]).len() <= widest(
            texts,
        ) by {
            if i < earlier.len() {
                assert(texts[i] == earlier[i]);
            }
        }
        if texts.last().len() > widest(earlier) || earlier.len() == 0 {
            assert(texts[texts.len() - 1].len() == widest(texts));
        } else {
            let i = choose|i: int|
                0 <= i < earlier.len() && (#[trigger] earlier[i]).len() == widest(earlier);
            assert(texts[i] == earlier[i]);
        }
    }
}

/// One row of a route's table: the two ends of a leg and its length as it is
/// printed.
#[derive(Clone, Debug)]
pub struct LegRecord<'a> {
    pub origin: WaypointName<'a>,
    pub destination: WaypointName<'a>,
    pub distance: String,
}

/// The printed lengths of the rows of a table, in order.
pub open spec fn distance_texts<'a>(records: Seq<LegRecord<'a>>) -> Seq<Seq<char>> {
    records.map_values(|record: LegRecord<'a>| record.distance@)
}

/// The rows of a route's table, with the width that the column of lengths
/// needs.
pub struct RouteTable<'a> {
    records: Vec<LegRecord<'a>>,
    distance_width: usize,
}

impl<'a> RouteTable<'a> {
    /// The rows, in the order in which they were added.
    pub closed spec fn rows(self) -> Seq<LegRecord<'a>> {
        self.records@
    }

    /// The width of the column of lengths.
    pub closed spec fn width(self) -> nat {
        self.distance_width as nat
    }

    /// The width that is kept is that of the widest length among the rows.
    pub closed spec fn well_formed(self) -> bool {
        self.distance_width == widest(distance_texts(self.records@))
    }

    /// A table without rows.
    pub fn new() -> (table: Self)
        ensures
            table.well_formed(),
            table.rows() == Seq::<LegRecord<'a>>::empty(),
            table.width() == 0,
    {
        let records: Vec<LegRecord<'a>> = Vec::new();
        assert(distance_texts(records@) =~= Seq::<Seq<char>>::empty());
        RouteTable { records, distance_width: 0 }
    }

    /// Adds the row of a leg. `distance` is the length of the leg as it is to
    /// be printed.
    pub fn add_leg(&mut self, origin: &'a Waypoint, destination: &'a Waypoint, distance: String)
        requires
            old(self).well_formed(),
        ensures
            final(self).well_formed(),
            final(self).rows().len() == old(self).rows().len() + 1,
            final(self).rows().drop_last() == old(self).rows(),
            final(self).rows().last().origin.waypoint() == *origin,
            final(self).rows().last().destination.waypoint() == *destination,
            final(self).rows().last().distance == distance,
            final(self).width() == if distance@.len() > old(self).width() {
                distance@.len()
            } else {
                old(self).width()
            },
    {
        let width = distance.as_str().unicode_len();
        let record = LegRecord { origin: origin.name(), destination: destination.name(), distance };
        proof {
            assert(distance_texts(self.records@.push(record)) =~= distance_texts(
                self.records@,
            ).push(record.distance@));
            assert(distance_texts(self.records@).push(record.distance@).drop_last()
                =~= distance_texts(self.records@));
        }
        self.records.push(record);
        if width > self.distance_width {
            self.distance_width = width;
        }
        proof {
            assert(self.records@.drop_last() =~= old(self).records@);
        }
    }

    /// The rows, in the order in which they were added.
    pub fn records(&self) -> (records: &Vec<LegRecord<'a>>)
        ensures
            records@ == self.rows(),
    {
        &self.records
    }

    /// The width that the column of lengths needs: that of the widest length
    /// among the rows.
    pub fn distance_width(&self) -> (width: usize)
        requires
            self.well_formed(),
        ensures
            width == self.width(),
            width == widest(distance_texts(self.rows())),
    {
        self.distance_width
    }
}

} // verus!
