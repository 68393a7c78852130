//! Reproducible passwords from a seed.
//!
//! A request names a seed, a length, a repetition count and a worker count.
//! The password is cut from the concatenation of independently hashed chunks,
//! so that the same request gives the same text however the chunks are
//! shared out among workers.
//!
//! - `hashing_arguments`: requests, and `autohash`, the way in for callers
//! - `chunk`: how many chunks a password takes and what each chunk gives
//! - `plan`, `task`, `gather`: sharing the chunks out and gathering them
//! - `digest`, `encoding`: the hash and the text encoder that are relied on
//! - `decimal`, `number`: numerals written and read
//! - `command_line`: what a command line asks for
//! - `laws`: what holds of every password
pub mod chunk;
pub mod command_line;
pub mod decimal;
pub mod digest;
pub mod encoding;
pub mod error;
pub mod gather;
pub mod hashing_arguments;
pub mod laws;
pub mod number;
pub mod plan;
pub mod task;
