//! The points of a route.

use crate::model::{Airport, Coords};
use vstd::prelude::*;
use vstd::std_specs::convert::FromSpecImpl;

verus! {

/// A resolved point of a route: an airport of the dataset, or a bare position.
/// Nearly every waypoint is an airport.
#[derive(Clone, Debug, PartialEq, Eq)]
pub enum Waypoint {
    Airport(Airport),
    Coords(Coords),
}

impl From<Airport> for Waypoint {
    fn from(value: Airport) -> (waypoint: Self) {
        Waypoint::Airport(value)
    }
}

impl FromSpecImpl<Airport> for Waypoint {
    open spec fn obeys_from_spec() -> bool {
        true
    }

    open spec fn from_spec(value: Airport) -> Self {
        Waypoint::Airport(value)
    }
}

impl From<Coords> for Waypoint {
    fn from(value: Coords) -> (waypoint: Self) {
        Waypoint::Coords(value)
    }
}

impl FromSpecImpl<Coords> for Waypoint {
    open spec fn obeys_from_spec() -> bool {
        true
    }

    open spec fn from_spec(value: Coords) -> Self {
        Waypoint::Coords(value)
    }
}

impl Waypoint {
    /// Where the waypoint lies: the position of its airport, or the bare
    /// position itself.
    pub open spec fn position(self) -> Coords {
        match self {
            Waypoint::Airport(airport) => airport.coordinates,
            Waypoint::Coords(coordinates) => coordinates,
        }
    }

    /// The name under which the waypoint is shown.
    pub fn name(&self) -> (name: WaypointName<'_>)
        ensures
            name.waypoint() == *self,
    {
        WaypointName { waypoint: self }
    }

    /// Where the waypoint lies.
    pub fn coordinates(&self) -> (coordinates: Coords)
        ensures
            coordinates == self.position(),
    {
        match self {
            Waypoint::Airport(airport) => airport.coordinates,
            Waypoint::Coords(coordinates) => *coordinates,
        }
    }
}

/// The name of a waypoint, as a route shows it.
#[derive(Clone, Copy, Debug)]
pub struct WaypointName<'a> {
    waypoint: &'a Waypoint,
}

impl<'a> WaypointName<'a> {
    /// The waypoint that is named.
    pub closed spec fn waypoint(self) -> Waypoint {
        *self.waypoint
    }

    /// The identifier that names the waypoint, where an airport backs it. A
    /// bare position has no name of its own and is shown by its coordinates.
    pub fn identifier(&self) -> (ident: Option<String>)
        ensures
            match self.waypoint() {
                Waypoint::Airport(airport) => ident matches Some(text) && text@ == airport.ident@,
                Waypoint::Coords(_) => ident is None,
            },
    {
        match self.waypoint {
            Waypoint::Airport(airport) => Some(airport.ident.clone()),
            Waypoint::Coords(_) => None,
        }
    }

    /// The position that stands for the name of the waypoint, where no airport
    /// backs it.
    pub fn coordinates(&self) -> (coordinates: Option<Coords>)
        ensures
            match self.waypoint() {
                Waypoint::Airport(_) => coordinates is None,
                Waypoint::Coords(position) => coordinates == Some(position),
            },
    {
        match self.waypoint {
            Waypoint::Airport(_) => None,
            Waypoint::Coords(position) => Some(*position),
        }
    }
}

} // verus!
