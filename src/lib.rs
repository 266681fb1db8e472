//! The core of a retained-mode UI toolkit: widget identities reconciled across
//! frames, a two-pass constraint layout solver, and input resolution against
//! the previous frame's hit rectangles.

pub mod widget_config;
pub mod layout;
pub mod hierarchy;
pub mod viewport;
pub mod input;
pub mod widgets;
pub mod system;
pub mod state_box;
pub mod style;
pub mod reconcile;
pub mod ui;
pub mod widget_store;
