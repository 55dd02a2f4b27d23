//! Layouts: components and their settings, as layout files hold them.

pub mod parser;
