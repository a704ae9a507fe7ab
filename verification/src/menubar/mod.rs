//! The menu-bar app: labels, menu, update check and the state behind them.

pub mod appearance;
pub mod client;
pub mod fake;
pub mod launch_agent;
pub mod menu;
pub mod releases;
pub mod session;
pub mod state;
pub mod ui;
pub mod update;
pub mod version;
