//! Incremental blog-archive replay: scrape a remote blog through one of
//! several publishing platforms, queue the posts durably, and materialize
//! them one at a time into a bounded Atom feed.
//!
//! The crate holds the verified core of the pipeline: feed-key derivation,
//! retry classification and backoff, the per-platform pagination state
//! machines, the durable pending-queue semantics, and the feed
//! materializer. Network and file transport drive these state machines
//! from outside, handing in plain values.

pub mod blogger;
pub mod config;
pub mod errors;
pub mod keys;
pub mod materialize;
pub mod model;
pub mod retry;
pub mod source;
pub mod store;
pub mod substack;
pub mod time;
pub mod wordpress;
