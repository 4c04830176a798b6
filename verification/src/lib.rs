//! Consistency core of a guild chat backend: a bounded read-through cache for
//! channel objects, and the ordered multi-step procedures that keep guilds,
//! channels, members, invites and bans coherent on a document store that has
//! no transaction across collections.
//!
//! Nothing here performs I/O. A cache read that misses, and every step of a
//! cascade, is handed to the caller as a request; the caller performs it and
//! hands the reply back.

pub mod cache;
pub mod cascade;
pub mod channel;
pub mod guild;
pub mod model;
