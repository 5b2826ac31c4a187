//! The authentication and authorization core of a document-management api:
//! a permission algebra, credential primitives, api key issuance and
//! verification over a blind signature index, short-lived token claims,
//! caller resolution, and the external login state machine.

use vstd::prelude::*;

pub mod authn;
pub mod cli;
pub mod context;
pub mod encoding;
pub mod login;
pub mod mapper;
pub mod model;
pub mod permissions;
pub mod rfd;
pub mod search;
pub mod store;
pub mod trusted;

pub use permissions::ApiPermission;
pub use permissions::Caller;
pub use permissions::Permissions;

verus! {

/// The permission set type used throughout the api.
pub type ApiPermissions = permissions::Permissions;

/// The caller type used throughout the api.
pub type ApiCaller = permissions::Caller;

/// An identity record as used throughout the api.
pub type User = model::ApiUser;

/// A stored api key record as used throughout the api.
pub type UserToken = model::ApiKey;

} // verus!
