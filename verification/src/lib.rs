//! A verified core for a small e-mail/password authentication service:
//! field validation, password-hash discipline, an in-memory credential
//! store, inactivity-expiring sessions with a reaper, and the request
//! handlers that tie them together.

pub mod json;
pub mod laws;
pub mod password;
pub mod session;
pub mod store;
pub mod user;
pub mod users_handler;
pub mod validation;

use vstd::prelude::*;

verus! {

/// Upper bound on the clock values (seconds) the library accepts; keeps
/// every `last_activity + ttl` sum well inside `i64`.
pub const MAX_TIME: i64 = 0x3fff_ffff_ffff_ffff;

} // verus!
