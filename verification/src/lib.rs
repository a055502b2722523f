//! Verified core of a game-save sharing and versioning service.

pub mod text;
pub mod game;
pub mod paths;
pub mod access;
pub mod time;
pub mod saves;
pub mod versions;
pub mod loader;
pub mod server;
pub mod ui;
pub mod toast;
pub mod archive;
pub mod client;
