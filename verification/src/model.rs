//! Record types held by the store: identities (api users), stored api keys,
//! issued access tokens, login attempts, and the rfd tables.
//!
//! Identifiers are 128-bit values; timestamps are unix seconds. A record is
//! soft-deleted by setting its `deleted_at` field; it is never removed.

use vstd::prelude::*;

use crate::permissions::Permissions;

verus! {

/// A principal: owns api keys and provider links, and carries the ceiling
/// permission set that every credential for it is narrowed against.
#[derive(Clone, Debug)]
pub struct ApiUser {
    pub id: u128,
    pub permissions: Permissions,
    pub created_at: i64,
    pub updated_at: i64,
    pub deleted_at: Option<i64>,
}

impl ApiUser {
    /// An owned copy: same fields, same permission set.
    pub fn duplicate(&self) -> (r: ApiUser)
        ensures
            r.id == self.id,
            r.permissions@ == self.permissions@,
            r.permissions.spec_items() == self.permissions.spec_items(),
            r.created_at == self.created_at,
            r.updated_at == self.updated_at,
            r.deleted_at == self.deleted_at,
    {
        ApiUser {
            id: self.id,
            permissions: self.permissions.duplicate(),
            created_at: self.created_at,
            updated_at: self.updated_at,
            deleted_at: self.deleted_at.clone(),
        }
    }
}

/// The data a caller supplies when creating or updating an identity.
#[derive(Clone, Debug)]
pub struct NewApiUser {
    pub id: u128,
    pub permissions: Permissions,
}

/// A stored api key record. `key` holds the hex signature of the presented
/// key string: a blind index, never the secret itself.
#[derive(Clone, Debug)]
pub struct ApiKey {
    pub id: u128,
    pub api_user_id: u128,
    pub key: String,
    pub permissions: Permissions,
    pub expires_at: i64,
    pub created_at: i64,
    pub updated_at: i64,
    pub deleted_at: Option<i64>,
}

impl ApiKey {
    /// An owned copy: same fields, same permission set.
    pub fn duplicate(&self) -> (r: ApiKey)
        ensures
            r.id == self.id,
            r.api_user_id == self.api_user_id,
            r.key@ == self.key@,
            r.permissions@ == self.permissions@,
            r.permissions.spec_items() == self.permissions.spec_items(),
            r.expires_at == self.expires_at,
            r.created_at == self.created_at,
            r.updated_at == self.updated_at,
            r.deleted_at == self.deleted_at,
    {
        ApiKey {
            id: self.id,
            api_user_id: self.api_user_id,
            key: self.key.clone(),
            permissions: self.permissions.duplicate(),
            expires_at: self.expires_at,
            created_at: self.created_at,
            updated_at: self.updated_at,
            deleted_at: self.deleted_at.clone(),
        }
    }
}

/// The data a caller supplies when persisting a new api key.
#[derive(Clone, Debug)]
pub struct NewApiKey {
    pub id: u128,
    pub api_user_id: u128,
    pub key: String,
    pub permissions: Permissions,
    pub expires_at: i64,
}

/// A persisted record of an issued token, so that a single token can later
/// be revoked independent of its signature staying valid.
#[derive(Clone, Debug)]
pub struct AccessToken {
    pub id: u128,
    pub api_user_id: u128,
    pub revoked_at: Option<i64>,
    pub created_at: i64,
    pub updated_at: i64,
}

impl AccessToken {
    /// An owned copy of the row.
    pub fn duplicate(&self) -> (r: AccessToken)
        ensures
            r == *self,
    {
        AccessToken {
            id: self.id,
            api_user_id: self.api_user_id,
            revoked_at: self.revoked_at.clone(),
            created_at: self.created_at,
            updated_at: self.updated_at,
        }
    }
}

/// The data a caller supplies when persisting an issued token.
#[derive(Clone, Debug)]
pub struct NewAccessToken {
    pub id: u128,
    pub api_user_id: u128,
    pub revoked_at: Option<i64>,
}

/// The states of the external login state machine.
#[derive(Clone, Copy, Debug, PartialEq, Eq, Structural)]
pub enum LoginAttemptState {
    Created,
    RemoteAuthenticated,
    Complete,
    Failed,
}

/// One client-initiated login correlated with a remote provider round trip.
#[derive(Clone, Debug)]
pub struct LoginAttempt {
    pub id: u128,
    pub attempt_state: LoginAttemptState,
    pub client_id: String,
    pub redirect_uri: String,
    pub state: Option<String>,
    pub pkce_challenge: Option<String>,
    pub pkce_challenge_method: Option<String>,
    pub authz_code: Option<String>,
    pub expires_at: i64,
    pub provider: String,
    pub provider_pkce_verifier: Option<String>,
    pub provider_authz_code: Option<String>,
    pub created_at: i64,
    pub updated_at: i64,
}

/// The data a caller supplies when writing a login attempt.
#[derive(Clone, Debug)]
pub struct NewLoginAttempt {
    pub id: u128,
    pub attempt_state: LoginAttemptState,
    pub client_id: String,
    pub redirect_uri: String,
    pub state: Option<String>,
    pub pkce_challenge: Option<String>,
    pub pkce_challenge_method: Option<String>,
    pub authz_code: Option<String>,
    pub expires_at: i64,
    pub provider: String,
    pub provider_pkce_verifier: Option<String>,
    pub provider_authz_code: Option<String>,
}

impl LoginAttempt {
    /// An owned copy of the row.
    pub fn duplicate(&self) -> (r: LoginAttempt)
        ensures
            r == *self,
    {
        LoginAttempt {
            id: self.id,
            attempt_state: self.attempt_state,
            client_id: self.client_id.clone(),
            redirect_uri: self.redirect_uri.clone(),
            state: self.state.clone(),
            pkce_challenge: self.pkce_challenge.clone(),
            pkce_challenge_method: self.pkce_challenge_method.clone(),
            authz_code: self.authz_code.clone(),
            expires_at: self.expires_at,
            provider: self.provider.clone(),
            provider_pkce_verifier: self.provider_pkce_verifier.clone(),
            provider_authz_code: self.provider_authz_code.clone(),
            created_at: self.created_at,
            updated_at: self.updated_at,
        }
    }

    /// The writable image of an existing attempt, used to apply a transition.
    pub fn to_new(&self) -> (r: NewLoginAttempt)
        ensures
            r.id == self.id,
            r.attempt_state == self.attempt_state,
            r.client_id@ == self.client_id@,
            r.redirect_uri@ == self.redirect_uri@,
            r.state == self.state,
            r.pkce_challenge == self.pkce_challenge,
            r.pkce_challenge_method == self.pkce_challenge_method,
            r.authz_code == self.authz_code,
            r.expires_at == self.expires_at,
            r.provider@ == self.provider@,
            r.provider_pkce_verifier == self.provider_pkce_verifier,
            r.provider_authz_code == self.provider_authz_code,
    {
        NewLoginAttempt {
            id: self.id,
            attempt_state: self.attempt_state,
            client_id: self.client_id.clone(),
            redirect_uri: self.redirect_uri.clone(),
            state: self.state.clone(),
            pkce_challenge: self.pkce_challenge.clone(),
            pkce_challenge_method: self.pkce_challenge_method.clone(),
            authz_code: self.authz_code.clone(),
            expires_at: self.expires_at,
            provider: self.provider.clone(),
            provider_pkce_verifier: self.provider_pkce_verifier.clone(),
            provider_authz_code: self.provider_authz_code.clone(),
        }
    }
}

/// A link from an identity to one remote provider account: provider name,
/// the provider's stable id for the account, and its verified emails.
#[derive(Clone, Debug)]
pub struct ApiUserProvider {
    pub id: u128,
    pub api_user_id: u128,
    pub provider: String,
    pub provider_id: String,
    pub emails: Vec<String>,
    pub created_at: i64,
    pub updated_at: i64,
    pub deleted_at: Option<i64>,
}

impl ApiUserProvider {
    /// An owned copy of the row.
    pub fn duplicate(&self) -> (r: ApiUserProvider)
        ensures
            r.id == self.id,
            r.api_user_id == self.api_user_id,
            r.provider@ == self.provider@,
            r.provider_id@ == self.provider_id@,
            r.emails@ == self.emails@,
            r.created_at == self.created_at,
            r.updated_at == self.updated_at,
            r.deleted_at == self.deleted_at,
    {
        let emails = self.emails.clone();
        proof {
            assert forall|i: int| 0 <= i < emails@.len() implies emails@[i] == self.emails@[i] by {
                assert(vstd::pervasive::cloned::<String>(self.emails@[i], emails@[i]));
            }
            assert(emails@ =~= self.emails@);
        }
        ApiUserProvider {
            id: self.id,
            api_user_id: self.api_user_id,
            provider: self.provider.clone(),
            provider_id: self.provider_id.clone(),
            emails,
            created_at: self.created_at,
            updated_at: self.updated_at,
            deleted_at: self.deleted_at.clone(),
        }
    }
}

/// The data a caller supplies when linking a provider account.
#[derive(Clone, Debug)]
pub struct NewApiUserProvider {
    pub id: u128,
    pub api_user_id: u128,
    pub provider: String,
    pub provider_id: String,
    pub emails: Vec<String>,
}

/// Whether an rfd is readable without an explicit grant.
#[derive(Clone, Copy, Debug, PartialEq, Eq, Structural)]
pub enum Visibility {
    Public,
    Private,
}

/// One rfd document.
#[derive(Clone, Debug)]
pub struct Rfd {
    pub id: u128,
    pub rfd_number: i32,
    pub link: Option<String>,
    pub visibility: Visibility,
    pub created_at: i64,
    pub updated_at: i64,
    pub deleted_at: Option<i64>,
}

/// The data a caller supplies when writing an rfd row.
#[derive(Clone, Debug)]
pub struct NewRfd {
    pub id: u128,
    pub rfd_number: i32,
    pub link: Option<String>,
    pub visibility: Visibility,
}

/// The source format of a revision's content.
#[derive(Clone, Copy, Debug, PartialEq, Eq, Structural)]
pub enum ContentFormat {
    Asciidoc,
    Markdown,
}

/// One committed revision of an rfd's content.
#[derive(Clone, Debug)]
pub struct RfdRevision {
    pub id: u128,
    pub rfd_id: u128,
    pub title: String,
    pub state: Option<String>,
    pub discussion: Option<String>,
    pub authors: Option<String>,
    pub content: String,
    pub content_format: ContentFormat,
    pub sha: String,
    pub commit_sha: String,
    pub committed_at: i64,
    pub created_at: i64,
    pub updated_at: i64,
    pub deleted_at: Option<i64>,
}

/// A rendered pdf attached to a revision.
#[derive(Clone, Debug)]
pub struct RfdPdf {
    pub id: u128,
    pub rfd_revision_id: u128,
    pub source: String,
    pub link: String,
}

/// A named group that identities can be mapped into.
#[derive(Clone, Debug)]
pub struct Group {
    pub id: u128,
    pub name: String,
}

} // verus!
