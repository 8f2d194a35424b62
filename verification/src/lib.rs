//! Verified core of a basketball video-analysis tool: the tagging model,
//! playlist editing, tag filtering and game statistics.

pub mod clock;
pub mod commands;
pub mod ids;
pub mod models;
pub mod text;
