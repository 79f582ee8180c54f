//! Verified core logic for a small family of desktop and publishing tools:
//! status-bar state (`ewwkit`), a Matrix listener, and a social-media
//! scheduler (`postkit`).

pub mod ewwkit;
pub mod lines;
pub mod matrix;
pub mod postkit;
pub mod sorting;
pub mod text;
pub mod unicode;
