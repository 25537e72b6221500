//! Conduit: streams files between an uploader and a downloader that meet
//! under a session name, with optional token protection.
//!
//! This crate holds the verified core: bounded strings for session names and
//! tokens, token rules, rate limiting, the session registry and the retry
//! schedule.  The HTTP server around it lives in `app/`.
use vstd::prelude::*;

pub mod bridge;
pub mod db;
pub mod error;
pub mod rate_limit;
pub mod retry;
pub mod session;
pub mod small_string;
pub mod token;

verus! {

/// The result type of Conduit's operations.
pub type Result<T> = std::result::Result<T, error::Error>;

/// Session names hold between 10 and 30 bytes.
pub type SessionName = small_string::SmallString<10, 30>;

/// Tokens hold between 8 and 30 bytes.
pub type Token = small_string::SmallString<8, 30>;

} // verus!
