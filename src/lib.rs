//! Incremental synchronizer of newly registered domains: classification of
//! domain names, the publishable records built from them, the checkpoint
//! codec, chunked delivery with deferred retries, and the decisions of the
//! synchronization cycle.
pub mod domain_length;
pub mod last_update;
pub mod models;
pub mod transform;
pub mod publisher;
pub mod environment;
pub mod sync;
