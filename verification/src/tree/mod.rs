//! A device's library as a tree of folders, as the user interfaces show it.
pub mod collections;
pub mod rows;
