//! Normalised control models for generic home-automation tooling.

pub mod value_range;
pub mod work_mode;
pub mod work_mode_laws;
pub mod work_mode_model;
