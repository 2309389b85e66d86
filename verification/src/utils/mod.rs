//! Helpers.

pub mod sm;
pub mod text;
