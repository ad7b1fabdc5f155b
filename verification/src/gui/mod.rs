//! The desktop user interface: the state of its three windows.
pub mod launcher;
pub mod library;
pub mod add_device;
