//! Carrier: the decisions behind a small desktop client for a web messenger.
//!
//! The client shows the messenger in a web view, hands every other link to the
//! browser, saves downloads, raises notifications and lives in the tray. What it
//! does at each of these turns is decided here, on plain values; windows, files
//! and events are left to the shell around this library.

pub mod text;
pub mod number;
pub mod encoding;
pub mod platform;
pub mod filename;
pub mod link;
pub mod download;
pub mod settings;
pub mod theme;
pub mod resolved;
pub mod location;
pub mod window;
pub mod menu;
pub mod script;
pub mod apply;
pub mod notify;
pub mod update;
pub mod outcomes;
