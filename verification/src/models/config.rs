//! The bot's configuration, with the value each setting takes when a config file leaves
//! it out.

use vstd::prelude::*;

verus! {

/// How the yt-dlp sidecar is run.
#[derive(Debug)]
pub struct YtdlpConfig {
    /// Track yt-dlp's nightly builds rather than its releases.
    pub use_nightly: bool,
    pub use_system_bun: bool,
    pub use_system_uv: bool,
    /// A cookies file handed to every extraction.
    pub cookies_path: Option<String>,
    /// The cap on the sidecar's simultaneous extractions and downloads.
    pub max_concurrency: u32,
}

impl Default for YtdlpConfig {
    fn default() -> (r: Self)
        ensures
            !r.use_nightly,
            !r.use_system_bun,
            !r.use_system_uv,
            r.cookies_path is None,
            r.max_concurrency == 8,
    {
        YtdlpConfig {
            use_nightly: false,
            use_system_bun: false,
            use_system_uv: false,
            cookies_path: None,
            max_concurrency: 8,
        }
    }
}

/// The bot's configuration.
#[derive(Debug)]
pub struct TurtoConfig {
    pub allow_seek: bool,
    pub allow_backward_seek: bool,
    /// The furthest a seek may jump, in seconds.
    pub seek_limit: u64,
    /// Seconds a user waits between two commands.
    pub command_delay: u64,
    /// The Discord user id of the bot's owner.
    pub owner: Option<u64>,
    pub auto_save: bool,
    /// Seconds between two saves of the guilds' data.
    pub auto_save_interval: u64,
    pub ytdlp: YtdlpConfig,
}

impl Default for TurtoConfig {
    fn default() -> (r: Self)
        ensures
            r.allow_seek,
            !r.allow_backward_seek,
            r.seek_limit == 600,
            r.command_delay == 1,
            r.owner is None,
            r.auto_save,
            r.auto_save_interval == 3600,
            !r.ytdlp.use_nightly && !r.ytdlp.use_system_bun && !r.ytdlp.use_system_uv,
            r.ytdlp.cookies_path is None && r.ytdlp.max_concurrency == 8,
    {
        TurtoConfig {
            allow_seek: true,
            allow_backward_seek: false,
            seek_limit: 600,
            command_delay: 1,
            owner: None,
            auto_save: true,
            auto_save_interval: 3600,
            ytdlp: YtdlpConfig::default(),
        }
    }
}

impl TurtoConfig {
    /// Whether `user` is the bot's owner; no one is when no owner is set.
    pub fn is_owner(&self, user: u64) -> (r: bool)
        ensures
            r == (self.owner == Some(user)),
    {
        match self.owner {
            Some(owner) => owner == user,
            None => false,
        }
    }
}

} // verus!
