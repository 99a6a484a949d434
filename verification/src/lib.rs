//! Decision logic of a map-navigation and task-automation library for an
//! open-world game: waypoint and action codes, parameter parsing, grid
//! partitioning of map features, party status rules, fishing rules and the
//! small pieces of arithmetic the automation relies on.

pub mod geom;
pub mod navigate;
pub mod task;
pub mod text;
pub mod utils;
