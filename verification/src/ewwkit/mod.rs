//! Status-bar daemon logic: system and desktop state, popups, IPC messages,
//! and the parsers for the tools that feed the bar.

pub mod domain;

pub mod popup;
pub mod ipc;
pub mod application;
pub mod niri;
pub mod devices;
pub mod controls;
pub mod icon_resolver;
pub mod report;
