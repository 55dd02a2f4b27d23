//! The reset chance of a speedrun: of the attempts that reached the current
//! split, how many were given up before its end. The crate counts those
//! attempts in the history of a run, keeps the counts while the timer stays
//! in the same phase on the same split, and renders the chance as a key and
//! a value for a layout.
//!
//! - [`run`] and [`timing`] hold what is read: the history of a run and the
//!   timer at one moment.
//! - [`analysis`] counts the attempts.
//! - [`binary64`], [`chance`] and [`decimal`] turn the counts into the text
//!   of a percentage.
//! - [`component`] is the component itself, with its settings.
//! - [`settings`] holds the values of settings and their description.
//! - [`layout`] reads the settings from the elements of a layout file.

pub mod analysis;
pub mod binary64;
pub mod chance;
pub mod component;
pub mod decimal;
pub mod layout;
pub mod run;
pub mod settings;
pub mod timing;
