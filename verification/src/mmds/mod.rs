//! The metadata service.

pub mod guest;
pub mod json;
pub mod requests;
