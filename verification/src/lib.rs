//! Recovery logic for a BABE epoch that was announced with an empty authority set.

pub mod pattern;
pub mod patch;
pub mod cli;
pub mod layout;
pub mod laws;
