//! Per-guild settings.

pub mod volume;
