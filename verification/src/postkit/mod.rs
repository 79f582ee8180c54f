//! Social-media publishing: platform-agnostic posts, per-platform plans,
//! the job queue and the scheduling rules.

pub mod clock;
pub mod model;
pub mod compose;
pub mod providers;
pub mod richtext;
pub mod thread;
pub mod bluesky;
pub mod oauth;
pub mod setup;
pub mod queue;
pub mod store;
pub mod publish;
pub mod session;
pub mod cli;
pub mod daemon;
pub mod verify;
