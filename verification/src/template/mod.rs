//! Work on CPU templates.

pub mod verify;
