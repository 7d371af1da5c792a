//! What the bridge does when it is run.

pub mod serve;
