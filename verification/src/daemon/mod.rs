//! The daemon: its configuration, its socket protocol, its recording loop and its models.

pub mod audio;
pub mod config;
pub mod event_loop;
pub mod paths;
pub mod socket;
pub mod transcriber;
