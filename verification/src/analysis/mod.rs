//! Analyses of the history of a run.

pub mod reset_chance;
