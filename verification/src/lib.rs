//! A Discord bot that puts questions to a language model.
//!
//! The library decides: what is asked, what is kept, what is shown, and how the
//! settings come together. It leaves the asking and sending to its caller,
//! which performs each action that the library names and hands back what came
//! of it.

use vstd::prelude::*;

pub mod button;
pub mod chat;
pub mod completion;
pub mod db;
pub mod discord;
pub mod events;
pub mod extensions;
pub mod fields;
pub mod headers;
pub mod laws;
pub mod logging;
pub mod source;
pub mod stats;
pub mod text;
pub mod types;

verus! {

/// What the keys of cached values begin with.
pub const CACHE_KEY_PREFIX: &'static str = "REPLYBOT";

/// The number of bytes above which a reply is shortened, and the number of
/// characters that a shortened reply keeps.
pub const BUTTON_THRESHOLD: usize = 1000;

/// The number of characters that a message may have.
pub const MAX_DISCORD_MESSAGE_LEN: usize = 2000;

/// How long a cached value lives, in seconds.
pub const REDIS_KEY_TTL: u64 = 86400;

} // verus!
