//! The components of a layout.

pub mod key_value;
pub mod reset_chance;
