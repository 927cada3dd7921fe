//! Verified core of the rk9 Discord bot: how session lengths are written
//! out, how typed prompts are compared, how logged sessions are ordered and
//! summed for the statistics, and the texts the bot answers with.

pub mod text;
pub mod duration;
pub mod edit_distance;
pub mod config;
pub mod db;
pub mod commands;
pub mod stats;
