//! Game tasks: fishing, dialogue options, common chores.

pub mod chores;
pub mod choose_talk_option;
pub mod common_jobs;
pub mod fishing;
pub mod fishing_steps;
