//! Core of Shepherdr, a service supervisor.

pub mod config;
pub mod logging;
pub mod logs;
pub mod monitor;
pub mod names;
pub mod paths;
pub mod procinfo;
pub mod reload;
pub mod spawn;
pub mod state;
pub mod stop;
pub mod supervisor;
pub mod text;
pub mod time;
pub mod toolbar;
pub mod tray;
