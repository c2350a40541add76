//! Verified core of a desktop workbench for compose-defined container
//! scenes: watcher registries, status and log watcher state machines, log
//! line parsing and scene manifest logic.
pub mod text;
pub mod timestamp;
pub mod status;
pub mod registry;
pub mod log_line;
pub mod containers;
pub mod status_watch;
pub mod log_watch;
pub mod compose;
pub mod scenes;
pub mod model;
pub mod cli;
