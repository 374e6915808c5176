//! A client for the registry HTTP API, version 2, written without I/O.
//!
//! Every operation is split in two: a function that says which request to
//! send, and a function that takes the response and says what it means.

use vstd::prelude::*;

pub mod base64;
pub mod digest;
pub mod errors;
pub mod http;
pub mod json;
pub mod text;
pub mod v2;

verus! {

/// The `User-Agent` that requests carry where none is configured.
pub const USER_AGENT: &'static str = "docker-registry-client/0.1";

} // verus!
