//! The logic of a screen capture tool: geometry, pixels, file names, the library
//! of captures, and the decisions of its capture, recording and command paths.

pub mod branding;
pub mod capture;
pub mod clipboard;
pub mod clock;
pub mod commands;
pub mod config;
pub mod history;
pub mod keys;
pub mod log;
pub mod naming;
pub mod order;
pub mod overlay;
pub mod pin;
pub mod record;
pub mod shortcuts;
pub mod text;
pub mod tray;
