//! The message bus: the command line, hook configuration, cross-topic correlation, do-not-
//! disturb decisions, the message store's checks and surface dispatch.
pub mod audit;
pub mod cli;
pub mod config;
pub mod correlate;
pub mod dnd;
pub mod persist;
pub mod surface;
