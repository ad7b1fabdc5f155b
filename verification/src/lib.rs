//! Verified core of a client for digital paper devices: the domain types, the
//! pairing protocol, the request programs of every device operation, and the
//! state of the user interfaces built on top of them.
//!
//! Nothing here talks to a device. What takes several requests is a function of
//! the replies so far, which tells what to send next; what a user interface does
//! is a function of its state and an event. A program around the library sends
//! the requests, draws the screens and keeps the files.
pub mod bytes;
pub mod cli;
pub mod crypto;
pub mod device;
pub mod discovery;
pub mod domain;
pub mod entries;
pub mod errors;
pub mod gui;
pub mod http;
pub mod json;
pub mod listing;
pub mod numbers;
pub mod order;
pub mod pairing;
pub mod paths;
pub mod peer;
pub mod programs;
pub mod provider;
pub mod requests;
pub mod session;
pub mod text;
pub mod tree;
pub mod tui;
