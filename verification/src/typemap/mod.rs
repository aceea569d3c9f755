//! The keys under which the bot's shared maps are stored in its client's data.

pub mod config;
pub mod guild_data;
pub mod playing;
