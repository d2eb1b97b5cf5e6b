//! A request guard for a metrics endpoint: a request whose path holds
//! `/metrics` goes on to the next service only when its first
//! `Authorization` value, once six leading bytes are dropped and the rest is
//! trimmed, equals a configured credential; any other request goes on
//! untouched.

use vstd::prelude::*;

pub mod guard;
pub mod headers;
pub mod path;
pub mod token;

pub use guard::{Authentification, AuthentificationMiddleware, Decision};

verus! {

} // verus!
