//! Derivative resolution and caching for an image delivery tier that sits in
//! front of a remote object store.

pub mod auth;
pub mod codec;
pub mod error;
pub mod get;
pub mod hex;
pub mod host;
pub mod inflight;
pub mod laws;
pub mod origin;
pub mod persist;
pub mod record;
pub mod text;
pub mod transfer;
pub mod upload;
pub mod util;
