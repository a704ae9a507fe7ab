//! The root daemon: configuration, control loop and request handling.

pub mod band;
pub mod calendar;
pub mod client;
pub mod conduct;
pub mod config;
pub mod control;
pub mod install;
pub mod laws;
pub mod legs;
pub mod logging;
pub mod power;
pub mod server;
pub mod startup;
pub mod state;
