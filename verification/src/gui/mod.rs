//! The graphical front end: clipboard, shortcuts, focus, sessions and text.

pub mod clipboard;
pub mod config;
pub mod connection;
pub mod focus;
pub mod input;
pub mod session;
pub mod shortcut;
pub mod text;
pub mod wayland;
