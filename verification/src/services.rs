//! Services the dock talks to.

pub mod niri;
