//! Keyboard and mouse state and the per-tick input history.

pub mod keyboard;
pub mod history;
pub mod keys;
pub mod mouse;
pub mod settings;
