//! Usage statistics for a chat bot: events are tallied in memory, and the
//! tallies of each reporting window are handed out as one payload for the
//! remote collector.

pub mod analytics;
pub mod counters;
pub mod data;
pub mod guilds;
pub mod laws;
pub mod payload;
pub mod report;
pub mod store;
pub mod tally;
