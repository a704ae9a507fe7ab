//! Battery charge limiter for Macs that stay plugged in.

pub mod daemon;
pub mod menubar;
pub mod paths;
pub mod proto;
pub mod smc;
pub mod text;
