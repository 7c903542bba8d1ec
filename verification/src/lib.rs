//! A minimal JSON-RPC request/response core: envelopes, a method registry,
//! and a dispatcher, each with a verified contract.

use vstd::prelude::*;

pub mod client;
pub mod codec;
pub mod dispatch;
pub mod envelope;
pub mod json;
pub mod registry;
pub mod text;

verus! {

/// JSON-RPC error code for a call to a method that is not registered.
pub const METHOD_NOT_FOUND_CODE: i64 = -32601;

/// JSON-RPC error code for a handler that failed while serving a call.
pub const INTERNAL_ERROR_CODE: i64 = -32603;

} // verus!
