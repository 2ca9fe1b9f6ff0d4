//! Client-side logic for an object-storage service that authenticates every
//! request with an HMAC-SHA1 signature over a canonical form of the request.
//!
//! The crate holds what can be decided without touching the network or the
//! disk: how a request is put into canonical form and signed, which request
//! each bucket or object operation sends, how a large file is cut into parts,
//! and how a multipart upload moves from its first request to its last.
//! Callers perform the requests and feed the answers back.

pub mod cli;
pub mod credentials;
pub mod digest;
pub mod listing;
pub mod manifest;
pub mod multipart;
pub mod operations;
pub mod parts;
pub mod path;
pub mod region;
pub mod request;
pub mod response;
pub mod setup;
pub mod signing;
pub mod text;
pub mod upload;
