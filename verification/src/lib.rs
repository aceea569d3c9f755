//! The verified core of turto, a Discord music bot: link parsing, message templates,
//! help resolution, and the decision logic behind its byte-fetching paths.

pub mod models;
pub mod typemap;
pub mod utils;
pub mod ytdl;
