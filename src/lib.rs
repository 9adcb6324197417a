//! Theme selection and reconciliation engine: theme names, subsystem modes,
//! presets, and the decisions that project a chosen theme onto live config.
use vstd::prelude::*;

pub mod apply;
pub mod config;
pub mod defaults;
pub mod modes;
pub mod omarchy;
pub mod order;
pub mod paths;
pub mod picker;
pub mod presets;
pub mod preview;
pub mod reconcile;
pub mod subsystems;
pub mod text;
