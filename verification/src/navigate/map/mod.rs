//! Map features: the feature cache of each floor and the grid it is split into.

pub mod cache;
pub mod splits;
