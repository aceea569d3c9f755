//! The bot's data: links, settings, help text and the values they are made of.

pub mod autoleave;
pub mod command;
pub mod config;
pub mod declare;
pub mod guild;
pub mod help;
pub mod metadata;
pub mod playing;
pub mod playlist;
pub mod playlist_item;
pub mod queue_item;
pub mod toggle;
pub mod url;
pub mod url_type;
pub mod volume;
