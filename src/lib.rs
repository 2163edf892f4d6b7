//! Size-based file retention policies: a validated map from inclusive
//! byte-size ranges to the time a file in that range is kept.
pub mod config;
pub mod duration;
pub mod laws;
pub mod loader;
pub mod nesting;
