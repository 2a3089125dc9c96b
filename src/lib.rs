//! Usage statistics of a pointing device: a classifier from raw input events
//! to counter buckets, and a store that accumulates the counters and decides
//! when they are written out.
pub mod codec;
pub mod counters;
pub mod event;
pub mod store;
