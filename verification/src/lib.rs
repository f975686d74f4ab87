//! Access-control core for a social-posting service.
//!
//! The crate decides, for every mutating request, whether the caller is who
//! they claim to be (signed time-limited tokens), whether they are currently
//! permitted to act (a time-bounded ban ledger), and whether they are acting
//! too fast (a weighted sliding-window rate limiter). Password hashing for
//! login and signup rounds out the set. Persistence and HTTP transport live
//! outside this crate; the core works on plain values handed to it.

use vstd::prelude::*;

pub mod b64;
pub mod ban;
pub mod creds;
pub mod digits;
pub mod errors;
pub mod gate;
pub mod payload;
pub mod rate;
pub mod token;
pub mod types;

verus! {

/// Seconds a freshly issued token stays valid: ten days.
pub const TOKEN_LIFETIME_SECS: u64 = 864000;

/// Length of the rate limiter's trailing window, in seconds.
pub const RATE_WINDOW_SECS: u64 = 60;

/// Most weighted activity a subject may accumulate inside one window
/// before further actions are refused.
pub const RATE_THRESHOLD: u64 = 50;

/// Weight charged for creating a post.
pub const WEIGHT_POST: u32 = 5;

/// Weight charged for commenting.
pub const WEIGHT_COMMENT: u32 = 3;

/// Weight charged for a reaction, a profile change or attaching an image.
pub const WEIGHT_LIGHT: u32 = 1;

/// Weight charged for uploading an image.
pub const WEIGHT_IMAGE_UPLOAD: u32 = 10;

/// Relies on `std::time::SystemTime::now`: seconds since the Unix epoch
/// by the machine's clock, or nothing for a clock standing before the
/// epoch. Nothing can be promised of a clock reading.
#[verifier::external_body]
fn system_clock_unix_secs() -> Option<u64> {
    match std::time::SystemTime::now().duration_since(std::time::SystemTime::UNIX_EPOCH) {
        Ok(n) => Some(n.as_secs()),
        Err(_) => None,
    }
}

/// The current time in seconds since the Unix epoch; a clock standing
/// before the epoch reads as zero.
pub fn get_sys_time_in_secs() -> u64 {
    match system_clock_unix_secs() {
        Some(n) => n,
        None => 0,
    }
}

} // verus!
