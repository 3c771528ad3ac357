//! The settings screen: its state, how it answers keys, and what it shows.

pub mod app;
pub mod view;
