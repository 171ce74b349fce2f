//! Session orchestration for a single streaming-audio playback run.

pub mod command;
pub mod error;
pub mod item;
pub mod orchestrator;
pub mod trace;
