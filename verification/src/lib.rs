//! Telora: the decision core of a local speech-to-text suite.
//!
//! A daemon records and transcribes, a front end types or copies what was said, a control
//! client toggles recordings, and a model manager looks after the model cache. This library
//! holds what they decide; the programs around it read, write, sleep and call.

pub mod cache;
pub mod ctl;
pub mod daemon;
pub mod env;
pub mod gui;
pub mod models;
pub mod paths;
pub mod secrets;
pub mod socket_bind;
pub mod strings;
pub mod unix_path;
