//! Settlement engine for a binary-outcome dynamic parimutuel market.
//!
//! Users stake value on one of two outcomes while a market is open; on
//! resolution the losing pool is redistributed to winners pro rata, with a
//! full refund on cancellation. All arithmetic is integer-only and
//! overflow-checked, and every boundary operation either fully applies or
//! leaves no observable change.

pub mod errors;
pub mod laws;
pub mod lifecycle;
pub mod market;
pub mod settle;
