//! Route navigation: route files, waypoint actions and map features.

pub mod action;
pub mod bv;
pub mod error;
pub mod executor;
pub mod locate;
pub mod map;
pub mod movement;
pub mod orient;
pub mod path;
pub mod pointer;
pub mod route;
pub mod scene;
pub mod tp;
