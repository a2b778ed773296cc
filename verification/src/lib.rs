//! A reference library over a dataset of airports and their runways.
//!
//! The library holds the records of the dataset, composes the documents under
//! which a full-text store finds them, turns the matches of the store back
//! into airports, and resolves the tokens of a route into waypoints and legs.
//! It touches neither the store nor the file system, and it computes no
//! distance: a program around it reads the dataset, runs the store and
//! measures the legs.

pub mod database;
pub mod error;
pub mod model;
pub mod pairs;
pub mod render;
pub mod route;
pub mod search;
pub mod waypoint;
