//! The bot's settings, as read from `rk9.toml`.
use vstd::prelude::*;

verus! {

/// Settings the bot starts with.
pub struct Config {
    /// Token the bot logs in to Discord with.
    pub discord_token: String,
    /// Path of the SQLite database file.
    pub database_path: String,
    /// Colour of the embeds the bot posts, as `0xRRGGBB`.
    pub accent_colour: u32,
}

} // verus!
