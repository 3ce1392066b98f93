//! The decisions of `mentisdbd`, the headless MentisDB daemon.

pub mod args;
pub mod daemon;
pub mod exit;
pub mod json;
pub mod limits;
pub mod migrate;
pub mod proxy;
pub mod report;
pub mod rpc;
pub mod settings;
pub mod stdio;
pub mod telemetry;
pub mod text;
pub mod update;
pub mod version;
