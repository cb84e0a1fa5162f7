//! A brute-force maximization search over batches of random binary trials.
//!
//! Random 64-bit words encode 32 two-bit trial slots each; a trial counts as
//! a match exactly when its slot holds the pattern `00`. Eight words form a
//! trial group of which 231 slots are live, a fixed number of groups forms a
//! batch, and the search reports the best per-group match count seen over
//! many batches, split across independent workers.

pub mod driver;
pub mod rng;
pub mod score;
