//! The terminal user interface: its state, and what every key, click and paste does to it.
pub mod events;
pub mod keys;
pub mod layout;
pub mod mouse;
pub mod screen;
pub mod search;
pub mod state;
pub mod usage;
