//! The HTTP status codes the service answers with.

use vstd::prelude::*;

verus! {

/// The request was carried out.
pub const OK: u16 = 200;

/// A record was stored.
pub const CREATED: u16 = 201;

/// A record was removed and nothing is sent back.
pub const NO_CONTENT: u16 = 204;

/// No record is stored under the id.
pub const NOT_FOUND: u16 = 404;

/// A record is already stored under the id.
pub const CONFLICT: u16 = 409;

/// No lock is held under the key.
pub const GONE: u16 = 410;

} // verus!
