//! Verified core of NeoDock, an application dock for the niri compositor.
//!
//! The dock's decisions live here as plain data and functions with contracts:
//! the mirror of niri's windows and workspaces and how each compositor event
//! changes it, the user configuration and how a reload is merged, how windows
//! are grouped into application entries and ordered, and what each dock icon
//! shows and does.

pub mod constants;
pub mod services;
pub mod text;
pub mod maps;
pub mod config;
pub mod order;
pub mod models;
pub mod widgets;
