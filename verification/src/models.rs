//! Application entries shown by the dock.

pub mod app;
pub mod apps;
pub mod laws;
