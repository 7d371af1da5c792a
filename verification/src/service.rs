//! The merged view of each device and the registry that owns all of them.

pub mod device;
pub mod state;
