//! Decision logic of a multi-monitor screen dimmer: which monitor the cursor is on,
//! which monitors to dim or restore, how the tray menu and window messages are read,
//! how the configuration file is written and how directory change records are scanned.

pub mod config;
pub mod controller;
pub mod messages;
pub mod monitors;
pub mod notify;
pub mod text;
pub mod tray;
