//! A verified in-memory store presenting the narrow row-level operations
//! the core relies on: get, list-by-filter, upsert, and soft delete, each
//! atomic at the row level. It stands in for the storage collaborator,
//! carrying the interface contracts the core is verified against.

use vstd::prelude::*;
use vstd::pervasive::VecAdditionalExecFns;

use crate::model::AccessToken;
use crate::model::ApiKey;
use crate::model::ApiUser;
use crate::model::ApiUserProvider;
use crate::model::NewApiUserProvider;
use crate::model::LoginAttempt;
use crate::model::LoginAttemptState;
use crate::model::NewAccessToken;
use crate::model::NewApiKey;
use crate::model::NewApiUser;
use crate::model::NewLoginAttempt;
use crate::model::NewRfd;
use crate::model::Rfd;
use crate::model::RfdPdf;
use crate::model::RfdRevision;
use crate::encoding::str_eq;
use crate::permissions::covered_by;
use crate::permissions::Permissions;

verus! {

broadcast use vstd::seq_lib::group_seq_properties;

/// A stored key matches a lookup by signature at `now` when its signature
/// equals the probe, it has not expired, and it is not soft-deleted.
pub open spec fn key_matches_signature(k: ApiKey, sig: Seq<char>, now: i64) -> bool {
    k.key@ == sig && k.expires_at > now && k.deleted_at is None
}

/// A login attempt matches a lookup by local authorization code exactly
/// when it holds that code and stands in the remote-authenticated state.
pub open spec fn attempt_matches_code(a: LoginAttempt, code: Seq<char>) -> bool {
    &&& a.attempt_state == LoginAttemptState::RemoteAuthenticated
    &&& a.authz_code matches Some(c) && c@ == code
}

/// The image of an existing login attempt after an upsert: only the state
/// tag, the local code, the expiry, and the provider's code are writable;
/// everything else keeps the stored value.
pub open spec fn attempt_merged(orig: LoginAttempt, a: NewLoginAttempt, now: i64) -> LoginAttempt {
    LoginAttempt {
        attempt_state: a.attempt_state,
        authz_code: a.authz_code,
        expires_at: a.expires_at,
        provider_authz_code: a.provider_authz_code,
        updated_at: now,
        ..orig
    }
}

/// The stored record for a fresh login attempt.
pub open spec fn attempt_created(a: NewLoginAttempt, now: i64) -> LoginAttempt {
    LoginAttempt {
        id: a.id,
        attempt_state: a.attempt_state,
        client_id: a.client_id,
        redirect_uri: a.redirect_uri,
        state: a.state,
        pkce_challenge: a.pkce_challenge,
        pkce_challenge_method: a.pkce_challenge_method,
        authz_code: a.authz_code,
        expires_at: a.expires_at,
        provider: a.provider,
        provider_pkce_verifier: a.provider_pkce_verifier,
        provider_authz_code: a.provider_authz_code,
        created_at: now,
        updated_at: now,
    }
}

/// After an identity upsert: row `k` of `cur` carries the new ceiling, a
/// fresh row was appended only when no row held the id, every other row is
/// untouched, and `r` reports row `k`.
pub open spec fn user_upsert_post(
    prev: Seq<ApiUser>,
    cur: Seq<ApiUser>,
    user: NewApiUser,
    now: i64,
    r: ApiUser,
    k: int,
) -> bool {
    &&& 0 <= k < cur.len()
    &&& prev.len() <= cur.len() <= prev.len() + 1
    &&& forall|j: int|
        0 <= j < cur.len() && j != k ==> j < prev.len() && cur[j] == prev[j]
    &&& forall|j: int| 0 <= j < prev.len() && j != k ==> #[trigger] prev[j].id != user.id
    &&& cur[k].id == user.id
    &&& cur[k].permissions@ == user.permissions@
    &&& cur[k].updated_at == now
    &&& k < prev.len() ==> {
        &&& prev[k].id == user.id
        &&& cur[k].created_at == prev[k].created_at
        &&& cur[k].deleted_at == prev[k].deleted_at
        &&& cur.len() == prev.len()
    }
    &&& k >= prev.len() ==> {
        &&& cur.len() == prev.len() + 1
        &&& cur[k].created_at == now
        &&& cur[k].deleted_at is None
    }
    &&& r.created_at == cur[k].created_at
    &&& r.deleted_at == cur[k].deleted_at
}

/// A provider link matches a remote account exactly when provider name and
/// provider-side id agree and the link is not soft-deleted.
pub open spec fn provider_matches(p: ApiUserProvider, name: Seq<char>, ext: Seq<char>) -> bool {
    p.provider@ == name && p.provider_id@ == ext && p.deleted_at is None
}

/// The in-memory store: one vector per table, rows unique by id.
pub struct MemoryStore {
    users: Vec<ApiUser>,
    keys: Vec<ApiKey>,
    tokens: Vec<AccessToken>,
    attempts: Vec<LoginAttempt>,
    providers: Vec<ApiUserProvider>,
    rfds: Vec<Rfd>,
    revisions: Vec<RfdRevision>,
    pdfs: Vec<RfdPdf>,
}

impl MemoryStore {
    pub closed spec fn spec_users(&self) -> Seq<ApiUser> {
        self.users@
    }

    pub closed spec fn spec_keys(&self) -> Seq<ApiKey> {
        self.keys@
    }

    pub closed spec fn spec_tokens(&self) -> Seq<AccessToken> {
        self.tokens@
    }

    pub closed spec fn spec_attempts(&self) -> Seq<LoginAttempt> {
        self.attempts@
    }

    pub closed spec fn spec_providers(&self) -> Seq<ApiUserProvider> {
        self.providers@
    }

    pub closed spec fn spec_rfds(&self) -> Seq<Rfd> {
        self.rfds@
    }

    pub closed spec fn spec_revisions(&self) -> Seq<RfdRevision> {
        self.revisions@
    }

    pub closed spec fn spec_pdfs(&self) -> Seq<RfdPdf> {
        self.pdfs@
    }

    /// Rows are unique by id in every table.
    pub open spec fn wf(&self) -> bool {
        &&& forall|i: int, j: int|
            #![trigger self.spec_users()[i], self.spec_users()[j]]
            0 <= i < j < self.spec_users().len() ==> self.spec_users()[i].id
                != self.spec_users()[j].id
        &&& forall|i: int, j: int|
            #![trigger self.spec_keys()[i], self.spec_keys()[j]]
            0 <= i < j < self.spec_keys().len() ==> self.spec_keys()[i].id
                != self.spec_keys()[j].id
        &&& forall|i: int, j: int|
            #![trigger self.spec_tokens()[i], self.spec_tokens()[j]]
            0 <= i < j < self.spec_tokens().len() ==> self.spec_tokens()[i].id
                != self.spec_tokens()[j].id
        &&& forall|i: int, j: int|
            #![trigger self.spec_attempts()[i], self.spec_attempts()[j]]
            0 <= i < j < self.spec_attempts().len() ==> self.spec_attempts()[i].id
                != self.spec_attempts()[j].id
        &&& forall|i: int, j: int|
            #![trigger self.spec_rfds()[i], self.spec_rfds()[j]]
            0 <= i < j < self.spec_rfds().len() ==> self.spec_rfds()[i].id
                != self.spec_rfds()[j].id
    }

    pub fn new() -> (r: MemoryStore)
        ensures
            r.wf(),
            r.spec_users().len() == 0,
            r.spec_keys().len() == 0,
            r.spec_tokens().len() == 0,
            r.spec_attempts().len() == 0,
            r.spec_providers().len() == 0,
            r.spec_rfds().len() == 0,
            r.spec_revisions().len() == 0,
            r.spec_pdfs().len() == 0,
    {
        MemoryStore {
            users: Vec::new(),
            keys: Vec::new(),
            tokens: Vec::new(),
            attempts: Vec::new(),
            providers: Vec::new(),
            rfds: Vec::new(),
            revisions: Vec::new(),
            pdfs: Vec::new(),
        }
    }

    /// The identity with the given id, honoring soft deletion unless
    /// `deleted` asks for tombstoned rows as well.
    pub fn get_api_user(&self, id: u128, deleted: bool) -> (r: Option<&ApiUser>)
        ensures
            r matches Some(u) ==> self.spec_users().contains(*u) && u.id == id && (deleted
                || u.deleted_at is None),
            r is None ==> forall|k: int|
                0 <= k < self.spec_users().len() ==> !(#[trigger] self.spec_users()[k].id == id && (
                deleted || self.spec_users()[k].deleted_at is None)),
    {
        let mut i: usize = 0;
        while i < self.users.len()
            invariant
                i <= self.users.len(),
                forall|k: int|
                    0 <= k < i ==> !(#[trigger] self.users@[k].id == id && (deleted
                        || self.users@[k].deleted_at is None)),
            decreases self.users.len() - i,
        {
            if self.users[i].id == id && (deleted || self.users[i].deleted_at.is_none()) {
                assert(self.users@.contains(self.users@[i as int]));
                return Some(&self.users[i]);
            }
            i += 1;
        }
        None
    }

    /// True when no identity row exists at all, tombstoned rows included.
    pub fn no_users(&self) -> (r: bool)
        ensures
            r == (self.spec_users().len() == 0),
    {
        self.users.len() == 0
    }

    /// True when no api key row exists at all, tombstoned rows included.
    pub fn no_keys(&self) -> (r: bool)
        ensures
            r == (self.spec_keys().len() == 0),
    {
        self.keys.len() == 0
    }

    /// Soft-deletes an identity: the row keeps everything but gains a
    /// tombstone, after which it must be treated as absent for
    /// authentication.
    pub fn delete_api_user(&mut self, id: u128, now: i64) -> (r: Option<ApiUser>)
        requires
            old(self).wf(),
        ensures
            final(self).wf(),
            final(self).spec_keys() == old(self).spec_keys(),
            final(self).spec_tokens() == old(self).spec_tokens(),
            final(self).spec_attempts() == old(self).spec_attempts(),
            final(self).spec_providers() == old(self).spec_providers(),
            final(self).spec_rfds() == old(self).spec_rfds(),
            final(self).spec_revisions() == old(self).spec_revisions(),
            final(self).spec_pdfs() == old(self).spec_pdfs(),
            r matches Some(u) ==> exists|i: int|
                {
                    &&& 0 <= i < old(self).spec_users().len()
                    &&& old(self).spec_users()[i].id == id
                    &&& final(self).spec_users().len() == old(self).spec_users().len()
                    &&& forall|j: int|
                        0 <= j < old(self).spec_users().len() && j != i ==> final(self).spec_users()[j] == old(self).spec_users()[j]
                    &&& final(self).spec_users()[i].id == old(self).spec_users()[i].id
                    &&& final(self).spec_users()[i].permissions@ == old(self).spec_users()[i].permissions@
                    &&& final(self).spec_users()[i].created_at == old(self).spec_users()[i].created_at
                    &&& final(self).spec_users()[i].updated_at == now
                    &&& final(self).spec_users()[i].deleted_at == Some(now)
                    &&& u.id == id
                    &&& u.deleted_at == Some(now)
                },
            r is None ==> final(self).spec_users() == old(self).spec_users() && forall|k: int|
                0 <= k < old(self).spec_users().len() ==> #[trigger] old(self).spec_users()[k].id
                    != id,
    {
        let ghost prev = *self;
        let mut i: usize = 0;
        while i < self.users.len()
            invariant
                *self == *old(self),
                prev == *old(self),
                prev.wf(),
                i <= self.users.len(),
                forall|k: int| 0 <= k < i ==> #[trigger] self.users@[k].id != id,
            decreases self.users.len() - i,
        {
            if self.users[i].id == id {
                let tombstoned = ApiUser {
                    id: self.users[i].id,
                    permissions: self.users[i].permissions.duplicate(),
                    created_at: self.users[i].created_at,
                    updated_at: now,
                    deleted_at: Some(now),
                };
                let result = tombstoned.duplicate();
                self.users.set(i, tombstoned);
                proof {
                    assert(self.spec_users() == prev.spec_users().update(
                        i as int,
                        self.spec_users()[i as int],
                    ));
                    assert forall|a: int, b: int|
                        0 <= a < b < self.spec_users().len() implies self.spec_users()[a].id
                        != self.spec_users()[b].id by {
                        assert(prev.spec_users()[a].id != prev.spec_users()[b].id);
                        assert(self.spec_users()[i as int].id == prev.spec_users()[i as int].id);
                    }
                }
                return Some(result);
            }
            i += 1;
        }
        None
    }

    /// Creates the identity or replaces its permission ceiling; both happen
    /// in one row-level write.
    pub fn upsert_api_user(&mut self, user: NewApiUser, now: i64) -> (r: ApiUser)
        requires
            old(self).wf(),
        ensures
            final(self).wf(),
            final(self).spec_keys() == old(self).spec_keys(),
            final(self).spec_tokens() == old(self).spec_tokens(),
            final(self).spec_attempts() == old(self).spec_attempts(),
            final(self).spec_providers() == old(self).spec_providers(),
            final(self).spec_rfds() == old(self).spec_rfds(),
            final(self).spec_revisions() == old(self).spec_revisions(),
            final(self).spec_pdfs() == old(self).spec_pdfs(),
            r.id == user.id,
            r.permissions@ == user.permissions@,
            r.updated_at == now,
            exists|k: int|
                user_upsert_post(
                    old(self).spec_users(),
                    final(self).spec_users(),
                    user,
                    now,
                    r,
                    k,
                ),
    {
        let ghost prev = *self;
        let mut i: usize = 0;
        while i < self.users.len()
            invariant
                *self == *old(self),
                prev == *old(self),
                prev.wf(),
                i <= self.users.len(),
                forall|k: int| 0 <= k < i ==> #[trigger] self.users@[k].id != user.id,
            decreases self.users.len() - i,
        {
            if self.users[i].id == user.id {
                let updated = ApiUser {
                    id: self.users[i].id,
                    permissions: user.permissions,
                    created_at: self.users[i].created_at,
                    updated_at: now,
                    deleted_at: self.users[i].deleted_at.clone(),
                };
                let result = updated.duplicate();
                self.users.set(i, updated);
                proof {
                    assert(prev.wf());
                    assert(self.spec_users() == prev.spec_users().update(
                        i as int,
                        self.spec_users()[i as int],
                    ));
                    assert forall|j: int|
                        0 <= j < prev.spec_users().len() && j != i as int implies #[trigger] prev.spec_users()[j].id
                        != user.id by {
                        assert(prev.spec_users()[i as int].id == user.id);
                        if j < i as int {
                            assert(prev.spec_users()[j].id != prev.spec_users()[i as int].id);
                        } else {
                            assert(prev.spec_users()[i as int].id != prev.spec_users()[j].id);
                        }
                    }
                    assert(user_upsert_post(
                        prev.spec_users(),
                        self.spec_users(),
                        user,
                        now,
                        result,
                        i as int,
                    ));
                    assert forall|a: int, b: int|
                        0 <= a < b < self.spec_users().len() implies self.spec_users()[a].id
                        != self.spec_users()[b].id by {
                        assert(prev.spec_users()[a].id != prev.spec_users()[b].id);
                        assert(self.spec_users()[i as int].id == prev.spec_users()[i as int].id);
                    }
                }
                return result;
            }
            i += 1;
        }
        let created = ApiUser {
            id: user.id,
            permissions: user.permissions,
            created_at: now,
            updated_at: now,
            deleted_at: None,
        };
        let result = created.duplicate();
        self.users.push(created);
        proof {
            assert(prev.wf());
            assert(self.spec_users() == prev.spec_users().push(self.spec_users().last()));
            assert(user_upsert_post(
                prev.spec_users(),
                self.spec_users(),
                user,
                now,
                result,
                self.spec_users().len() - 1,
            ));
            assert forall|a: int, b: int|
                0 <= a < b < self.spec_users().len() implies self.spec_users()[a].id
                != self.spec_users()[b].id by {
                if b < self.spec_users().len() - 1 {
                    assert(prev.spec_users()[a].id != prev.spec_users()[b].id);
                } else {
                    assert(self.spec_users()[b].id == user.id);
                    assert(prev.spec_users()[a].id != user.id);
                }
            }
        }
        result
    }

    /// Persists a new api key after narrowing its requested permission set
    /// to what the owning identity's ceiling covers: tags outside the
    /// ceiling are silently dropped.
    pub fn upsert_api_key(&mut self, key: NewApiKey, owner: &ApiUser, now: i64) -> (r: ApiKey)
        requires
            old(self).wf(),
            forall|k: int|
                0 <= k < old(self).spec_keys().len() ==> #[trigger] old(self).spec_keys()[k].id
                    != key.id,
        ensures
            final(self).wf(),
            final(self).spec_users() == old(self).spec_users(),
            final(self).spec_tokens() == old(self).spec_tokens(),
            final(self).spec_attempts() == old(self).spec_attempts(),
            final(self).spec_providers() == old(self).spec_providers(),
            final(self).spec_rfds() == old(self).spec_rfds(),
            final(self).spec_revisions() == old(self).spec_revisions(),
            final(self).spec_pdfs() == old(self).spec_pdfs(),
            final(self).spec_keys().len() == old(self).spec_keys().len() + 1,
            forall|j: int|
                0 <= j < old(self).spec_keys().len() ==> final(self).spec_keys()[j] == old(self).spec_keys()[j],
            final(self).spec_keys().last().id == key.id,
            final(self).spec_keys().last().api_user_id == key.api_user_id,
            final(self).spec_keys().last().key@ == key.key@,
            final(self).spec_keys().last().expires_at == key.expires_at,
            final(self).spec_keys().last().created_at == now,
            final(self).spec_keys().last().deleted_at is None,
            final(self).spec_keys().last().permissions@ == r.permissions@,
            r.id == key.id,
            r.api_user_id == key.api_user_id,
            r.key@ == key.key@,
            r.expires_at == key.expires_at,
            r.created_at == now,
            r.deleted_at is None,
            forall|p: crate::permissions::ApiPermission|
                r.permissions@.contains(p) == (key.permissions@.contains(p) && covered_by(
                    owner.permissions@,
                    p,
                )),
    {
        let ghost prev = *self;
        let requested = key.permissions.inner();
        let mut kept: Permissions = Permissions::new();
        let mut i: usize = 0;
        while i < requested.len()
            invariant
                *self == *old(self),
                prev == *old(self),
                prev.wf(),
                i <= requested.len(),
                requested@ == key.permissions.spec_items(),
                forall|p: crate::permissions::ApiPermission|
                    kept@.contains(p) ==> (key.permissions@.contains(p) && covered_by(
                        owner.permissions@,
                        p,
                    )),
                forall|k: int|
                    0 <= k < i && covered_by(owner.permissions@, requested@[k])
                        ==> kept@.contains(requested@[k]),
            decreases requested.len() - i,
        {
            if owner.permissions.can(&requested[i]) {
                proof {
                    key.permissions.lemma_items_view();
                    assert(requested@.contains(requested@[i as int]));
                }
                kept.insert(requested[i]);
            }
            i += 1;
        }
        proof {
            key.permissions.lemma_items_view();
            assert forall|p: crate::permissions::ApiPermission|
                key.permissions@.contains(p) && covered_by(owner.permissions@, p) implies
                kept@.contains(p) by {
                let k = choose|k: int| 0 <= k < requested@.len() && requested@[k] == p;
            }
        }
        let stored = ApiKey {
            id: key.id,
            api_user_id: key.api_user_id,
            key: key.key,
            permissions: kept,
            expires_at: key.expires_at,
            created_at: now,
            updated_at: now,
            deleted_at: None,
        };
        let result = stored.duplicate();
        self.keys.push(stored);
        result
    }

    /// No key row holds this id yet.
    pub fn key_id_is_free(&self, id: u128) -> (r: bool)
        ensures
            r == forall|k: int|
                0 <= k < self.spec_keys().len() ==> #[trigger] self.spec_keys()[k].id != id,
    {
        let mut i: usize = 0;
        while i < self.keys.len()
            invariant
                i <= self.keys.len(),
                forall|k: int| 0 <= k < i ==> #[trigger] self.keys@[k].id != id,
            decreases self.keys.len() - i,
        {
            if self.keys[i].id == id {
                return false;
            }
            i += 1;
        }
        true
    }

    /// The key with the given id, honoring soft deletion unless asked not
    /// to.
    pub fn get_api_key(&self, id: u128, deleted: bool) -> (r: Option<&ApiKey>)
        ensures
            r matches Some(k) ==> self.spec_keys().contains(*k) && k.id == id && (deleted
                || k.deleted_at is None),
            r is None ==> forall|k: int|
                0 <= k < self.spec_keys().len() ==> !(#[trigger] self.spec_keys()[k].id == id && (
                deleted || self.spec_keys()[k].deleted_at is None)),
    {
        let mut i: usize = 0;
        while i < self.keys.len()
            invariant
                i <= self.keys.len(),
                forall|k: int|
                    0 <= k < i ==> !(#[trigger] self.keys@[k].id == id && (deleted
                        || self.keys@[k].deleted_at is None)),
            decreases self.keys.len() - i,
        {
            if self.keys[i].id == id && (deleted || self.keys[i].deleted_at.is_none()) {
                assert(self.keys@.contains(self.keys@[i as int]));
                return Some(&self.keys[i]);
            }
            i += 1;
        }
        None
    }

    /// The blind-index lookup: a live, unexpired key whose stored signature
    /// equals the probe. Finds one exactly when one exists.
    pub fn find_key_by_signature(&self, signature: &str, now: i64) -> (r: Option<&ApiKey>)
        ensures
            r matches Some(k) ==> self.spec_keys().contains(*k) && key_matches_signature(
                *k,
                signature@,
                now,
            ),
            r is None ==> forall|k: int|
                0 <= k < self.spec_keys().len() ==> !key_matches_signature(
                    #[trigger] self.spec_keys()[k],
                    signature@,
                    now,
                ),
    {
        let mut i: usize = 0;
        while i < self.keys.len()
            invariant
                i <= self.keys.len(),
                forall|k: int|
                    0 <= k < i ==> !key_matches_signature(
                        #[trigger] self.keys@[k],
                        signature@,
                        now,
                    ),
            decreases self.keys.len() - i,
        {
            let k = &self.keys[i];
            if str_eq(k.key.as_str(), signature) && k.expires_at > now && k.deleted_at.is_none() {
                assert(self.keys@.contains(self.keys@[i as int]));
                return Some(&self.keys[i]);
            }
            i += 1;
        }
        None
    }

    /// The key rows owned by one identity, expired rows included,
    /// tombstoned rows excluded, in stored order.
    pub fn keys_for_user(&self, api_user_id: u128) -> (r: Vec<&ApiKey>)
        ensures
            forall|j: int|
                0 <= j < r@.len() ==> self.spec_keys().contains(*#[trigger] r@[j])
                    && r@[j].api_user_id == api_user_id && r@[j].deleted_at is None,
            forall|k: int|
                0 <= k < self.spec_keys().len() && #[trigger] self.spec_keys()[k].api_user_id
                    == api_user_id && self.spec_keys()[k].deleted_at is None ==> exists|j: int|
                    0 <= j < r@.len() && *#[trigger] r@[j] == self.spec_keys()[k],
    {
        let mut out: Vec<&ApiKey> = Vec::new();
        let mut i: usize = 0;
        while i < self.keys.len()
            invariant
                i <= self.keys.len(),
                forall|j: int|
                    0 <= j < out@.len() ==> self.spec_keys().contains(*#[trigger] out@[j])
                        && out@[j].api_user_id == api_user_id && out@[j].deleted_at is None,
                forall|k: int|
                    0 <= k < i && #[trigger] self.keys@[k].api_user_id == api_user_id
                        && self.keys@[k].deleted_at is None ==> exists|j: int|
                        0 <= j < out@.len() && *#[trigger] out@[j] == self.keys@[k],
            decreases self.keys.len() - i,
        {
            if self.keys[i].api_user_id == api_user_id && self.keys[i].deleted_at.is_none() {
                let ghost before = out@;
                proof {
                    assert(self.keys@.contains(self.keys@[i as int]));
                }
                out.push(&self.keys[i]);
                proof {
                    assert(*out@.last() == self.keys@[i as int]);
                    assert forall|k: int|
                        0 <= k < i + 1 && #[trigger] self.keys@[k].api_user_id == api_user_id
                            && self.keys@[k].deleted_at is None implies exists|j: int|
                        0 <= j < out@.len() && *#[trigger] out@[j] == self.keys@[k] by {
                        if k < i as int {
                            let j0 = choose|j: int|
                                0 <= j < before.len() && *#[trigger] before[j] == self.keys@[k];
                            assert(out@[j0] == before[j0]);
                        } else {
                            assert(*out@[out@.len() - 1] == self.keys@[k]);
                        }
                    }
                }
            }
            i += 1;
        }
        out
    }

    /// Soft-deletes a key: its row keeps everything but gains a tombstone.
    pub fn delete_api_key(&mut self, id: u128, now: i64) -> (r: Option<ApiKey>)
        requires
            old(self).wf(),
        ensures
            final(self).wf(),
            final(self).spec_users() == old(self).spec_users(),
            final(self).spec_tokens() == old(self).spec_tokens(),
            final(self).spec_attempts() == old(self).spec_attempts(),
            final(self).spec_providers() == old(self).spec_providers(),
            final(self).spec_rfds() == old(self).spec_rfds(),
            final(self).spec_revisions() == old(self).spec_revisions(),
            final(self).spec_pdfs() == old(self).spec_pdfs(),
            r matches Some(k) ==> exists|i: int|
                {
                    &&& 0 <= i < old(self).spec_keys().len()
                    &&& old(self).spec_keys()[i].id == id
                    &&& final(self).spec_keys().len() == old(self).spec_keys().len()
                    &&& forall|j: int|
                        0 <= j < old(self).spec_keys().len() && j != i ==> final(self).spec_keys()[j] == old(self).spec_keys()[j]
                    &&& final(self).spec_keys()[i].id == old(self).spec_keys()[i].id
                    &&& final(self).spec_keys()[i].api_user_id == old(self).spec_keys()[i].api_user_id
                    &&& final(self).spec_keys()[i].key@ == old(self).spec_keys()[i].key@
                    &&& final(self).spec_keys()[i].permissions@ == old(self).spec_keys()[i].permissions@
                    &&& final(self).spec_keys()[i].expires_at == old(self).spec_keys()[i].expires_at
                    &&& final(self).spec_keys()[i].created_at == old(self).spec_keys()[i].created_at
                    &&& final(self).spec_keys()[i].updated_at == now
                    &&& final(self).spec_keys()[i].deleted_at == Some(now)
                    &&& k.id == id
                    &&& k.api_user_id == old(self).spec_keys()[i].api_user_id
                    &&& k.deleted_at == Some(now)
                },
            r is None ==> final(self).spec_keys() == old(self).spec_keys() && forall|k: int|
                0 <= k < old(self).spec_keys().len() ==> #[trigger] old(self).spec_keys()[k].id
                    != id,
    {
        let ghost prev = *self;
        let mut i: usize = 0;
        while i < self.keys.len()
            invariant
                *self == *old(self),
                prev == *old(self),
                prev.wf(),
                i <= self.keys.len(),
                forall|k: int| 0 <= k < i ==> #[trigger] self.keys@[k].id != id,
            decreases self.keys.len() - i,
        {
            if self.keys[i].id == id {
                let tombstoned = ApiKey {
                    id: self.keys[i].id,
                    api_user_id: self.keys[i].api_user_id,
                    key: self.keys[i].key.clone(),
                    permissions: self.keys[i].permissions.duplicate(),
                    expires_at: self.keys[i].expires_at,
                    created_at: self.keys[i].created_at,
                    updated_at: now,
                    deleted_at: Some(now),
                };
                let result = tombstoned.duplicate();
                self.keys.set(i, tombstoned);
                proof {
                    assert(prev.wf());
                    assert(self.spec_keys() == prev.spec_keys().update(
                        i as int,
                        self.spec_keys()[i as int],
                    ));
                    assert forall|a: int, b: int|
                        0 <= a < b < self.spec_keys().len() implies self.spec_keys()[a].id
                        != self.spec_keys()[b].id by {
                        assert(prev.spec_keys()[a].id != prev.spec_keys()[b].id);
                        assert(self.spec_keys()[i as int].id == prev.spec_keys()[i as int].id);
                    }
                }
                return Some(result);
            }
            i += 1;
        }
        None
    }

    /// Records an issued token, or updates the revocation slot of an
    /// existing row with the same id.
    pub fn upsert_access_token(&mut self, token: NewAccessToken, now: i64) -> (r: AccessToken)
        requires
            old(self).wf(),
        ensures
            final(self).wf(),
            final(self).spec_users() == old(self).spec_users(),
            final(self).spec_keys() == old(self).spec_keys(),
            final(self).spec_attempts() == old(self).spec_attempts(),
            final(self).spec_providers() == old(self).spec_providers(),
            final(self).spec_rfds() == old(self).spec_rfds(),
            final(self).spec_revisions() == old(self).spec_revisions(),
            final(self).spec_pdfs() == old(self).spec_pdfs(),
            r.id == token.id,
            r.revoked_at == token.revoked_at,
            final(self).spec_tokens().contains(r),
            (forall|k: int|
                0 <= k < old(self).spec_tokens().len() ==> #[trigger] old(self).spec_tokens()[k].id != token.id) ==> final(self).spec_tokens() == old(self).spec_tokens().push(r) && r.api_user_id == token.api_user_id,
    {
        let ghost prev = *self;
        let mut i: usize = 0;
        while i < self.tokens.len()
            invariant
                *self == *old(self),
                prev == *old(self),
                prev.wf(),
                i <= self.tokens.len(),
                forall|k: int| 0 <= k < i ==> #[trigger] self.tokens@[k].id != token.id,
            decreases self.tokens.len() - i,
        {
            if self.tokens[i].id == token.id {
                let updated = AccessToken {
                    id: self.tokens[i].id,
                    api_user_id: self.tokens[i].api_user_id,
                    revoked_at: token.revoked_at,
                    created_at: self.tokens[i].created_at,
                    updated_at: now,
                };
                let result = updated.duplicate();
                self.tokens.set(i, updated);
                proof {
                    assert(prev.wf());
                    assert(self.tokens@.contains(self.tokens@[i as int]));
                    assert(self.spec_tokens() == prev.spec_tokens().update(
                        i as int,
                        self.spec_tokens()[i as int],
                    ));
                    assert forall|a: int, b: int|
                        0 <= a < b < self.spec_tokens().len() implies self.spec_tokens()[a].id
                        != self.spec_tokens()[b].id by {
                        assert(prev.spec_tokens()[a].id != prev.spec_tokens()[b].id);
                        assert(self.spec_tokens()[i as int].id == prev.spec_tokens()[i as int].id);
                    }
                }
                return result;
            }
            i += 1;
        }
        let created = AccessToken {
            id: token.id,
            api_user_id: token.api_user_id,
            revoked_at: token.revoked_at,
            created_at: now,
            updated_at: now,
        };
        let result = created.duplicate();
        self.tokens.push(created);
        proof {
            assert(prev.wf());
            assert(self.tokens@.contains(self.tokens@[self.tokens@.len() - 1]));
            assert(self.spec_tokens() == prev.spec_tokens().push(self.spec_tokens().last()));
            assert forall|a: int, b: int|
                0 <= a < b < self.spec_tokens().len() implies self.spec_tokens()[a].id
                != self.spec_tokens()[b].id by {
                if b < self.spec_tokens().len() - 1 {
                    assert(prev.spec_tokens()[a].id != prev.spec_tokens()[b].id);
                } else {
                    assert(self.spec_tokens()[b].id == token.id);
                    assert(prev.spec_tokens()[a].id != token.id);
                }
            }
        }
        result
    }

    /// The login attempt with the given id, whatever its state.
    pub fn get_login_attempt(&self, id: u128) -> (r: Option<&LoginAttempt>)
        ensures
            r matches Some(a) ==> self.spec_attempts().contains(*a) && a.id == id,
            r is None ==> forall|k: int|
                0 <= k < self.spec_attempts().len() ==> #[trigger] self.spec_attempts()[k].id
                    != id,
    {
        let mut i: usize = 0;
        while i < self.attempts.len()
            invariant
                i <= self.attempts.len(),
                forall|k: int| 0 <= k < i ==> #[trigger] self.attempts@[k].id != id,
            decreases self.attempts.len() - i,
        {
            if self.attempts[i].id == id {
                assert(self.attempts@.contains(self.attempts@[i as int]));
                return Some(&self.attempts[i]);
            }
            i += 1;
        }
        None
    }

    /// Writes a login attempt. A fresh id inserts the whole record; an
    /// existing id updates only the state tag, the local code, the expiry,
    /// and the provider's code, leaving the rest as first written.
    pub fn upsert_login_attempt(&mut self, attempt: NewLoginAttempt, now: i64) -> (r: LoginAttempt)
        requires
            old(self).wf(),
        ensures
            final(self).wf(),
            final(self).spec_users() == old(self).spec_users(),
            final(self).spec_keys() == old(self).spec_keys(),
            final(self).spec_tokens() == old(self).spec_tokens(),
            final(self).spec_providers() == old(self).spec_providers(),
            final(self).spec_rfds() == old(self).spec_rfds(),
            final(self).spec_revisions() == old(self).spec_revisions(),
            final(self).spec_pdfs() == old(self).spec_pdfs(),
            final(self).spec_attempts().contains(r),
            r.id == attempt.id,
            r.attempt_state == attempt.attempt_state,
            r.authz_code == attempt.authz_code,
            r.expires_at == attempt.expires_at,
            r.provider_authz_code == attempt.provider_authz_code,
            (exists|k: int|
                0 <= k < old(self).spec_attempts().len() && old(self).spec_attempts()[k].id
                    == attempt.id) ==> exists|k: int|
                {
                    &&& 0 <= k < old(self).spec_attempts().len()
                    &&& old(self).spec_attempts()[k].id == attempt.id
                    &&& r == attempt_merged(old(self).spec_attempts()[k], attempt, now)
                    &&& final(self).spec_attempts() == old(self).spec_attempts().update(k, r)
                },
            (forall|k: int|
                0 <= k < old(self).spec_attempts().len() ==> #[trigger] old(self).spec_attempts()[k].id != attempt.id) ==> final(self).spec_attempts() == old(self).spec_attempts().push(r) && r == attempt_created(attempt, now),
    {
        let ghost prev = *self;
        let mut i: usize = 0;
        while i < self.attempts.len()
            invariant
                *self == *old(self),
                prev == *old(self),
                prev.wf(),
                i <= self.attempts.len(),
                forall|k: int| 0 <= k < i ==> #[trigger] self.attempts@[k].id != attempt.id,
            decreases self.attempts.len() - i,
        {
            if self.attempts[i].id == attempt.id {
                let orig = &self.attempts[i];
                let merged = LoginAttempt {
                    id: orig.id,
                    attempt_state: attempt.attempt_state,
                    client_id: orig.client_id.clone(),
                    redirect_uri: orig.redirect_uri.clone(),
                    state: orig.state.clone(),
                    pkce_challenge: orig.pkce_challenge.clone(),
                    pkce_challenge_method: orig.pkce_challenge_method.clone(),
                    authz_code: attempt.authz_code,
                    expires_at: attempt.expires_at,
                    provider: orig.provider.clone(),
                    provider_pkce_verifier: orig.provider_pkce_verifier.clone(),
                    provider_authz_code: attempt.provider_authz_code,
                    created_at: orig.created_at,
                    updated_at: now,
                };
                let result = merged.duplicate();
                self.attempts.set(i, merged);
                proof {
                    assert(prev.wf());
                    assert(self.attempts@.contains(self.attempts@[i as int]));
                    assert(self.spec_attempts() == prev.spec_attempts().update(
                        i as int,
                        self.spec_attempts()[i as int],
                    ));
                    assert forall|a: int, b: int|
                        0 <= a < b < self.spec_attempts().len() implies self.spec_attempts()[a].id
                        != self.spec_attempts()[b].id by {
                        assert(prev.spec_attempts()[a].id != prev.spec_attempts()[b].id);
                        assert(self.spec_attempts()[i as int].id == prev.spec_attempts()[i as int].id);
                    }
                }
                return result;
            }
            i += 1;
        }
        let created = LoginAttempt {
            id: attempt.id,
            attempt_state: attempt.attempt_state,
            client_id: attempt.client_id,
            redirect_uri: attempt.redirect_uri,
            state: attempt.state,
            pkce_challenge: attempt.pkce_challenge,
            pkce_challenge_method: attempt.pkce_challenge_method,
            authz_code: attempt.authz_code,
            expires_at: attempt.expires_at,
            provider: attempt.provider,
            provider_pkce_verifier: attempt.provider_pkce_verifier,
            provider_authz_code: attempt.provider_authz_code,
            created_at: now,
            updated_at: now,
        };
        let result = created.duplicate();
        self.attempts.push(created);
        proof {
            assert(prev.wf());
            assert(self.attempts@.contains(self.attempts@[self.attempts@.len() - 1]));
            assert(self.spec_attempts() == prev.spec_attempts().push(self.spec_attempts().last()));
            assert forall|a: int, b: int|
                0 <= a < b < self.spec_attempts().len() implies self.spec_attempts()[a].id
                != self.spec_attempts()[b].id by {
                if b < self.spec_attempts().len() - 1 {
                    assert(prev.spec_attempts()[a].id != prev.spec_attempts()[b].id);
                } else {
                    assert(self.spec_attempts()[b].id == attempt.id);
                    assert(prev.spec_attempts()[a].id != attempt.id);
                }
            }
        }
        result
    }

    /// The provider links resolving one remote account: none, exactly the
    /// one returned, or several (a data-integrity violation the caller must
    /// surface, never resolve silently).
    pub fn find_provider_by_external_id(&self, provider: &str, provider_id: &str) -> (r: (
        Option<&ApiUserProvider>,
        bool,
    ))
        ensures
            r.1 == exists|k1: int, k2: int|
                0 <= k1 < k2 < self.spec_providers().len() && provider_matches(
                    #[trigger] self.spec_providers()[k1],
                    provider@,
                    provider_id@,
                ) && provider_matches(
                    #[trigger] self.spec_providers()[k2],
                    provider@,
                    provider_id@,
                ),
            r.0 matches Some(p) ==> self.spec_providers().contains(*p) && provider_matches(
                *p,
                provider@,
                provider_id@,
            ),
            r.0 is None ==> forall|k: int|
                0 <= k < self.spec_providers().len() ==> !provider_matches(
                    #[trigger] self.spec_providers()[k],
                    provider@,
                    provider_id@,
                ),
    {
        let mut found: Option<usize> = None;
        let mut i: usize = 0;
        while i < self.providers.len()
            invariant
                i <= self.providers.len(),
                found matches Some(f) ==> f < i && provider_matches(
                    self.providers@[f as int],
                    provider@,
                    provider_id@,
                ) && forall|k: int|
                    0 <= k < i && k != f ==> !provider_matches(
                        #[trigger] self.providers@[k],
                        provider@,
                        provider_id@,
                    ),
                found is None ==> forall|k: int|
                    0 <= k < i ==> !provider_matches(
                        #[trigger] self.providers@[k],
                        provider@,
                        provider_id@,
                    ),
            decreases self.providers.len() - i,
        {
            let p = &self.providers[i];
            if str_eq(p.provider.as_str(), provider) && str_eq(p.provider_id.as_str(), provider_id)
                && p.deleted_at.is_none() {
                match found {
                    Some(f) => {
                        proof {
                            assert(provider_matches(
                                self.spec_providers()[f as int],
                                provider@,
                                provider_id@,
                            ));
                            assert(provider_matches(
                                self.spec_providers()[i as int],
                                provider@,
                                provider_id@,
                            ));
                        }
                        return (Some(&self.providers[f]), true);
                    },
                    None => {
                        found = Some(i);
                    },
                }
            }
            i += 1;
        }
        proof {
            if found is Some {
                let f = found.unwrap() as int;
                assert(self.providers@.contains(self.providers@[f]));
            }
        }
        match found {
            Some(f) => (Some(&self.providers[f]), false),
            None => (None, false),
        }
    }

    /// Links a provider account, or repoints an existing link (same id) at
    /// another identity; only the owning identity is writable on conflict.
    pub fn upsert_api_user_provider(&mut self, provider: NewApiUserProvider, now: i64) -> (r:
        ApiUserProvider)
        requires
            old(self).wf(),
        ensures
            final(self).wf(),
            final(self).spec_users() == old(self).spec_users(),
            final(self).spec_keys() == old(self).spec_keys(),
            final(self).spec_tokens() == old(self).spec_tokens(),
            final(self).spec_attempts() == old(self).spec_attempts(),
            final(self).spec_rfds() == old(self).spec_rfds(),
            final(self).spec_revisions() == old(self).spec_revisions(),
            final(self).spec_pdfs() == old(self).spec_pdfs(),
            r.id == provider.id,
            r.api_user_id == provider.api_user_id,
            (forall|k: int|
                0 <= k < old(self).spec_providers().len() ==> #[trigger] old(self).spec_providers()[k].id != provider.id) ==> {
                &&& final(self).spec_providers().len() == old(self).spec_providers().len() + 1
                &&& forall|j: int|
                    0 <= j < old(self).spec_providers().len() ==> final(self).spec_providers()[j] == old(self).spec_providers()[j]
                &&& final(self).spec_providers().last().id == provider.id
                &&& final(self).spec_providers().last().api_user_id == provider.api_user_id
                &&& final(self).spec_providers().last().provider@ == provider.provider@
                &&& final(self).spec_providers().last().provider_id@ == provider.provider_id@
                &&& final(self).spec_providers().last().emails@ == provider.emails@
                &&& final(self).spec_providers().last().deleted_at is None
            },
    {
        let ghost prev = *self;
        let mut i: usize = 0;
        while i < self.providers.len()
            invariant
                *self == *old(self),
                prev == *old(self),
                prev.wf(),
                i <= self.providers.len(),
                forall|k: int| 0 <= k < i ==> #[trigger] self.providers@[k].id != provider.id,
            decreases self.providers.len() - i,
        {
            if self.providers[i].id == provider.id {
                let orig = &self.providers[i];
                let updated = ApiUserProvider {
                    id: orig.id,
                    api_user_id: provider.api_user_id,
                    provider: orig.provider.clone(),
                    provider_id: orig.provider_id.clone(),
                    emails: provider.emails,
                    created_at: orig.created_at,
                    updated_at: now,
                    deleted_at: orig.deleted_at.clone(),
                };
                let result = updated.duplicate();
                self.providers.set(i, updated);
                proof {
                    assert(self.spec_providers() == prev.spec_providers().update(
                        i as int,
                        self.spec_providers()[i as int],
                    ));
                }
                return result;
            }
            i += 1;
        }
        let created = ApiUserProvider {
            id: provider.id,
            api_user_id: provider.api_user_id,
            provider: provider.provider,
            provider_id: provider.provider_id,
            emails: provider.emails,
            created_at: now,
            updated_at: now,
            deleted_at: None,
        };
        let result = created.duplicate();
        self.providers.push(created);
        proof {
            assert(self.spec_providers() == prev.spec_providers().push(
                self.spec_providers().last(),
            ));
        }
        result
    }

    /// The rfd table, oldest row first.
    pub fn rfds(&self) -> (r: &Vec<Rfd>)
        ensures
            r@ == self.spec_rfds(),
    {
        &self.rfds
    }

    /// The revision table, oldest row first.
    pub fn revisions(&self) -> (r: &Vec<RfdRevision>)
        ensures
            r@ == self.spec_revisions(),
    {
        &self.revisions
    }

    /// The pdf table, oldest row first.
    pub fn pdfs(&self) -> (r: &Vec<RfdPdf>)
        ensures
            r@ == self.spec_pdfs(),
    {
        &self.pdfs
    }

    /// Writes an rfd row: a fresh id appends the whole record, an
    /// existing id updates the number, link and visibility in place.
    pub fn upsert_rfd(&mut self, rfd: NewRfd, now: i64)
        requires
            old(self).wf(),
        ensures
            final(self).wf(),
            final(self).spec_users() == old(self).spec_users(),
            final(self).spec_keys() == old(self).spec_keys(),
            final(self).spec_tokens() == old(self).spec_tokens(),
            final(self).spec_attempts() == old(self).spec_attempts(),
            final(self).spec_providers() == old(self).spec_providers(),
            final(self).spec_revisions() == old(self).spec_revisions(),
            final(self).spec_pdfs() == old(self).spec_pdfs(),
            (forall|k: int|
                0 <= k < old(self).spec_rfds().len() ==> #[trigger] old(self).spec_rfds()[k].id
                    != rfd.id) ==> {
                &&& final(self).spec_rfds().len() == old(self).spec_rfds().len() + 1
                &&& forall|j: int|
                    0 <= j < old(self).spec_rfds().len() ==> final(self).spec_rfds()[j] == old(self).spec_rfds()[j]
                &&& final(self).spec_rfds().last().id == rfd.id
                &&& final(self).spec_rfds().last().rfd_number == rfd.rfd_number
                &&& final(self).spec_rfds().last().link == rfd.link
                &&& final(self).spec_rfds().last().visibility == rfd.visibility
                &&& final(self).spec_rfds().last().deleted_at is None
            },
            (exists|k: int|
                0 <= k < old(self).spec_rfds().len() && old(self).spec_rfds()[k].id
                    == rfd.id) ==> exists|k: int|
                {
                    &&& 0 <= k < old(self).spec_rfds().len()
                    &&& old(self).spec_rfds()[k].id == rfd.id
                    &&& final(self).spec_rfds().len() == old(self).spec_rfds().len()
                    &&& forall|j: int|
                        0 <= j < old(self).spec_rfds().len() && j != k ==> final(self).spec_rfds()[j] == old(self).spec_rfds()[j]
                    &&& final(self).spec_rfds()[k].id == rfd.id
                    &&& final(self).spec_rfds()[k].rfd_number == rfd.rfd_number
                    &&& final(self).spec_rfds()[k].link == rfd.link
                    &&& final(self).spec_rfds()[k].visibility == rfd.visibility
                    &&& final(self).spec_rfds()[k].deleted_at == old(self).spec_rfds()[k].deleted_at
                },
    {
        let ghost prev = *self;
        let mut i: usize = 0;
        while i < self.rfds.len()
            invariant
                *self == *old(self),
                prev == *old(self),
                prev.wf(),
                i <= self.rfds.len(),
                forall|k: int| 0 <= k < i ==> #[trigger] self.rfds@[k].id != rfd.id,
            decreases self.rfds.len() - i,
        {
            if self.rfds[i].id == rfd.id {
                let updated = Rfd {
                    id: self.rfds[i].id,
                    rfd_number: rfd.rfd_number,
                    link: rfd.link,
                    visibility: rfd.visibility,
                    created_at: self.rfds[i].created_at,
                    updated_at: now,
                    deleted_at: self.rfds[i].deleted_at.clone(),
                };
                self.rfds.set(i, updated);
                proof {
                    assert(self.spec_rfds() == prev.spec_rfds().update(
                        i as int,
                        self.spec_rfds()[i as int],
                    ));
                    assert forall|a: int, b: int|
                        0 <= a < b < self.spec_rfds().len() implies self.spec_rfds()[a].id
                        != self.spec_rfds()[b].id by {
                        assert(prev.spec_rfds()[a].id != prev.spec_rfds()[b].id);
                        assert(self.spec_rfds()[i as int].id == prev.spec_rfds()[i as int].id);
                    }
                }
                return ;
            }
            i += 1;
        }
        self.rfds.push(
            Rfd {
                id: rfd.id,
                rfd_number: rfd.rfd_number,
                link: rfd.link,
                visibility: rfd.visibility,
                created_at: now,
                updated_at: now,
                deleted_at: None,
            },
        );
        proof {
            assert(self.spec_rfds() == prev.spec_rfds().push(self.spec_rfds().last()));
            assert forall|a: int, b: int|
                0 <= a < b < self.spec_rfds().len() implies self.spec_rfds()[a].id
                != self.spec_rfds()[b].id by {
                if b < self.spec_rfds().len() - 1 {
                    assert(prev.spec_rfds()[a].id != prev.spec_rfds()[b].id);
                } else {
                    assert(self.spec_rfds()[b].id == rfd.id);
                    assert(prev.spec_rfds()[a].id != rfd.id);
                }
            }
        }
    }

    /// Appends a revision row.
    pub fn add_rfd_revision(&mut self, revision: RfdRevision)
        requires
            old(self).wf(),
        ensures
            final(self).wf(),
            final(self).spec_users() == old(self).spec_users(),
            final(self).spec_keys() == old(self).spec_keys(),
            final(self).spec_tokens() == old(self).spec_tokens(),
            final(self).spec_attempts() == old(self).spec_attempts(),
            final(self).spec_providers() == old(self).spec_providers(),
            final(self).spec_rfds() == old(self).spec_rfds(),
            final(self).spec_pdfs() == old(self).spec_pdfs(),
            final(self).spec_revisions() == old(self).spec_revisions().push(revision),
    {
        self.revisions.push(revision);
    }

    /// Appends a pdf row.
    pub fn add_rfd_pdf(&mut self, pdf: RfdPdf)
        requires
            old(self).wf(),
        ensures
            final(self).wf(),
            final(self).spec_users() == old(self).spec_users(),
            final(self).spec_keys() == old(self).spec_keys(),
            final(self).spec_tokens() == old(self).spec_tokens(),
            final(self).spec_attempts() == old(self).spec_attempts(),
            final(self).spec_providers() == old(self).spec_providers(),
            final(self).spec_rfds() == old(self).spec_rfds(),
            final(self).spec_revisions() == old(self).spec_revisions(),
            final(self).spec_pdfs() == old(self).spec_pdfs().push(pdf),
    {
        self.pdfs.push(pdf);
    }

    /// The lookup by local authorization code: matches only attempts in the
    /// remote-authenticated state holding exactly this code; attempts still
    /// waiting, failed, or completed never match.
    pub fn get_login_attempt_for_code(&self, code: &str) -> (r: Option<&LoginAttempt>)
        ensures
            r matches Some(a) ==> self.spec_attempts().contains(*a) && attempt_matches_code(
                *a,
                code@,
            ),
            r is None ==> forall|k: int|
                0 <= k < self.spec_attempts().len() ==> !attempt_matches_code(
                    #[trigger] self.spec_attempts()[k],
                    code@,
                ),
    {
        let mut i: usize = 0;
        while i < self.attempts.len()
            invariant
                i <= self.attempts.len(),
                forall|k: int|
                    0 <= k < i ==> !attempt_matches_code(#[trigger] self.attempts@[k], code@),
            decreases self.attempts.len() - i,
        {
            let a = &self.attempts[i];
            let state_matches = matches!(a.attempt_state, LoginAttemptState::RemoteAuthenticated);
            let code_matches = match &a.authz_code {
                Some(c) => str_eq(c.as_str(), code),
                None => false,
            };
            if state_matches && code_matches {
                assert(self.attempts@.contains(self.attempts@[i as int]));
                return Some(&self.attempts[i]);
            }
            i += 1;
        }
        None
    }
}

} // verus!
