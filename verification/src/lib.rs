//! Keyword sentiment tracking: per-keyword running tallies of message
//! sentiment, a one-second tick tracker, and the history of averages that a
//! renderer draws.

pub mod client;
pub mod keywords;
pub mod message;
pub mod plot;
pub mod score;
pub mod server;
pub mod settings;
pub mod tick;
