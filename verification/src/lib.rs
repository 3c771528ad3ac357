//! stick: keeps Hangul file names in Unicode NFC form.
//!
//! The library holds the rules of the tool: which names need renaming and to
//! what, which paths are left alone, in which order a tree is processed, how
//! the configuration is laid out, and how the settings screen reacts to keys.
//! Reading the disk, renaming, talking to the service manager and drawing the
//! terminal happen around it.

pub mod text;
pub mod cli;
pub mod path;
pub mod config;
pub mod scanner;
pub mod tui;
pub mod notifier;
pub mod logger;
pub mod watcher;
pub mod daemon;

