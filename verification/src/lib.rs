//! Per-peer traffic accounting: a sliding-window rate counter that tracks
//! the bytes and the number of transfers seen over the trailing minute,
//! together with the error taxonomy for account-identifier validation.

pub mod errors;
pub mod rate_counter;
