//! Decision core of an order-book market simulator.
//!
//! The simulator random-walks a mid price inside an anchor-relative band, posts
//! passive bids below the mid and asks above it, fires a few marketable orders,
//! records the trade prints that come back from the matching engine, trims each
//! side back under a depth cap and renders best-first snapshots with prices on
//! a one-cent grid.
//!
//! The matching engine itself lives outside this crate: the functions here
//! decide what to send to it and fold what it answers back into the state.

pub mod chance;
pub mod text;
pub mod engine;
pub mod depth;
pub mod trim;
pub mod quote;
pub mod laws;
