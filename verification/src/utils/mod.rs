//! Helpers shared by the tasks.

pub mod sort;
