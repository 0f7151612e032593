//! What the dock's widgets show and do, as plain decisions.

pub mod app_icon;
pub mod dock_view;
