//! Verified core of a credential and session service: password hashing and
//! verification, session-token minting and cache-style storage with expiry,
//! bearer-token identification, and role-gated authorization.

use vstd::prelude::*;

pub mod authn;
pub mod authz;
pub mod bearer;
pub mod models;
pub mod password;
pub mod session;
pub mod store;
pub mod util;

verus! {

/// Seconds a session stays valid after it is issued.
pub const SESSION_LIFE_TIME: u64 = 3 * 60 * 60;

/// Length, in characters, of a session token.
pub const SESSION_ID_LENGTH: usize = 128;

} // verus!
