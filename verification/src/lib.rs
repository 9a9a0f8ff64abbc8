//! Saves the windows of a running Niri compositor and brings them back at the next start.

pub mod color;
pub mod command;
pub mod config;
pub mod daemon;
pub mod launch;
pub mod logger;
pub mod niri;
pub mod order;
pub mod paths;
pub mod restore;
pub mod save;
pub mod session;
pub mod styles;
pub mod text;
pub mod verbosity;
