//! Session persistence for Hyprland: the windows of a session, with the commands behind them, are
//! recorded and signed, and opened again from a record whose signature matches.
//!
//! The library decides; what has to be done outside it asks for, as [`outside`] describes.

pub mod atomic;
pub mod auth;
pub mod client;
pub mod crypto;
pub mod error;
pub mod files;
pub mod format;
pub mod load;
pub mod outside;
pub mod passphrase;
pub mod process;
pub mod program;
pub mod save;
pub mod setup;
pub mod shell;
pub mod text;
