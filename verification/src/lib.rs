//! Device bridge core: a registry that merges what the LAN, the cloud API and
//! the companion API know about each device, the staleness policy that decides
//! when a cloud refresh is due, and the normalisation of a device's work-mode
//! capability into sliders and presets.

pub mod commands;
pub mod hass_mqtt;
pub mod json;
pub mod platform_api;
pub mod service;
pub mod text;
