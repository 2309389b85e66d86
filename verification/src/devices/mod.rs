//! Device models.

pub mod virtio;
