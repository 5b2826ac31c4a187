//! The api context: process-wide immutable configuration (signing keys,
//! expiry policy, default permissions, registered providers) around the
//! store, and the operations the endpoint layer calls — most importantly
//! caller resolution, token issuance, and the login state machine steps.

use vstd::prelude::*;

use crate::authn::jwt::claims_bytes;
use crate::authn::jwt::Claims;
use crate::authn::key::parse_of;
use crate::authn::key::presentable_of;
use crate::authn::key::RawApiKey;
use crate::authn::EncryptorError;
use crate::authn::KeyEncryptor;
use crate::authn::Signer;
use crate::authn::SigningKeyError;
use crate::encoding::hex_of;
use crate::login::ConfiguredProvider;
use crate::login::OAuthProviderError;
use crate::login::OAuthProviderName;
use crate::login::RegisteredProvider;
use crate::login::UserInfo;
use crate::model::AccessToken;
use crate::model::ApiKey;
use crate::model::ApiUser;
use crate::model::ApiUserProvider;
use crate::model::LoginAttempt;
use crate::model::LoginAttemptState;
use crate::model::NewAccessToken;
use crate::model::NewApiKey;
use crate::model::NewApiUser;
use crate::model::NewApiUserProvider;
use crate::model::NewLoginAttempt;
use crate::permissions::expansion_of;
use crate::permissions::intersection_of;
use crate::permissions::ApiPermission;
use crate::permissions::Caller;
use crate::permissions::Permissions;
use crate::store::key_matches_signature;
use crate::store::MemoryStore;
use vstd::pervasive::VecAdditionalExecFns;
use crate::trusted::hex_encode;
use crate::trusted::now_timestamp;
use crate::trusted::random_csrf_token;
use crate::trusted::uuid_new_v4;

verus! {

broadcast use vstd::seq_lib::group_seq_properties;

/// The default permission set granted to a newly provisioned identity.
pub struct PermissionsContext {
    pub default: Permissions,
}

/// Token policy and signing key material; the first key is the default
/// signer.
pub struct JwtContext<S> {
    pub default_expiration: i64,
    pub max_expiration: i64,
    pub keys: Vec<S>,
}

/// The key material behind the api key blind index, and the encryptor
/// protecting opaque secondary secrets at rest.
pub struct ApiKeyContext<S, E> {
    pub signer: S,
    pub encryptor: E,
}

/// An issued token: the persisted record, the signed text handed to the
/// user, and when it expires.
pub struct RegisteredAccessToken {
    pub access_token: AccessToken,
    pub signed_token: String,
    pub expires_at: i64,
}

/// Resolution failure: deliberately uninformative to the outside.
#[derive(Clone, Copy, Debug, PartialEq, Eq, Structural)]
pub enum CallerError {
    FailedToAuthenticate,
}

/// A storage-layer fault surfaced by the core.
#[derive(Clone, Copy, Debug, PartialEq, Eq, Structural)]
pub enum StoreError {
    /// A stored invariant does not hold: a data-integrity bug upstream,
    /// surfaced, never silently resolved.
    InvariantFailed,
    /// A row with the same id already exists where a fresh row was
    /// demanded.
    Conflict,
}

/// A login-flow fault the user can correct.
#[derive(Clone, Copy, Debug, PartialEq, Eq, Structural)]
pub enum LoginError {
    ExcessTokenExpiration,
}

/// The faults the api operations surface.
#[derive(Clone, Copy, Debug, PartialEq, Eq, Structural)]
pub enum ApiError {
    Login(LoginError),
    Signing(SigningKeyError),
    Storage(StoreError),
}

/// Why a login attempt could not be written.
#[derive(Clone, Copy, Debug, PartialEq, Eq, Structural)]
pub enum LoginAttemptError {
    Storage(StoreError),
}

/// A presented credential: a bearer api key string, or claims already
/// cryptographically verified by the boundary that decoded them.
pub enum AuthToken {
    ApiKey(String),
    Jwt(Claims),
}

/// `caller` is the correct resolution of credential permissions `granted`
/// for identity `id` against the store: the identity is present and not
/// soft-deleted, and the effective set is the credential set narrowed to
/// the identity's ceiling and then expanded against the identity.
pub open spec fn resolved_ok(
    store: MemoryStore,
    id: u128,
    granted: Set<ApiPermission>,
    caller: Caller,
) -> bool {
    exists|k: int|
        {
            &&& 0 <= k < store.spec_users().len()
            &&& #[trigger] store.spec_users()[k].id == id
            &&& store.spec_users()[k].deleted_at is None
            &&& caller.id == id
            &&& caller.permissions@ == expansion_of(
                intersection_of(store.spec_users()[k].permissions@, granted),
                id,
                store.spec_users()[k].permissions@,
            )
        }
}

/// No identity with this id is present and live: absent, or soft-deleted
/// and therefore treated as absent for authentication.
pub open spec fn no_live_user(store: MemoryStore, id: u128) -> bool {
    forall|k: int|
        0 <= k < store.spec_users().len() ==> !(#[trigger] store.spec_users()[k].id == id
            && store.spec_users()[k].deleted_at is None)
}

/// Row `k` of the user table holds a live identity with this id.
pub open spec fn live_user_at(store: MemoryStore, k: int, id: u128) -> bool {
    0 <= k < store.spec_users().len() && store.spec_users()[k].id == id
        && store.spec_users()[k].deleted_at is None
}

/// Row `k` of the provider table is a live link resolving this remote
/// account.
pub open spec fn link_matches_at(store: MemoryStore, name: Seq<char>, ext: Seq<char>, k: int) -> bool {
    0 <= k < store.spec_providers().len() && crate::store::provider_matches(
        store.spec_providers()[k],
        name,
        ext,
    )
}

/// More than one live link resolves this remote account: the
/// data-integrity violation provisioning must surface.
pub open spec fn multiple_links(store: MemoryStore, name: Seq<char>, ext: Seq<char>) -> bool {
    exists|k1: int, k2: int|
        k1 < k2 && #[trigger] link_matches_at(store, name, ext, k1) && #[trigger] link_matches_at(
            store,
            name,
            ext,
            k2,
        )
}

/// The process-wide context handed to every request.
pub struct ApiContext<S, E> {
    pub public_url: String,
    pub storage: MemoryStore,
    pub permissions: PermissionsContext,
    pub jwt: JwtContext<S>,
    pub api_key: ApiKeyContext<S, E>,
    pub oauth_providers: Vec<RegisteredProvider>,
}

impl<S: Signer, E: KeyEncryptor> ApiContext<S, E> {
    /// The context is usable: the store invariant holds, at least one
    /// signing key is configured, and the expiry policy is nonnegative.
    pub open spec fn wf(&self) -> bool {
        &&& self.storage.wf()
        &&& self.jwt.keys@.len() > 0
        &&& 0 <= self.jwt.default_expiration
        &&& 0 <= self.jwt.max_expiration
    }

    /// Assembles the context. Fails exactly when no signing key or a
    /// negative expiry bound is configured: key-material faults are fatal
    /// at process start, not retried per call.
    pub fn new(
        public_url: String,
        storage: MemoryStore,
        default_permissions: Permissions,
        default_expiration: i64,
        max_expiration: i64,
        keys: Vec<S>,
        api_key_signer: S,
        encryptor: E,
    ) -> (r: Result<ApiContext<S, E>, SigningKeyError>)
        requires
            storage.wf(),
        ensures
            (r is Ok) == (keys@.len() > 0 && 0 <= default_expiration && 0 <= max_expiration),
            r matches Ok(ctx) ==> {
                &&& ctx.wf()
                &&& ctx.storage == storage
                &&& ctx.public_url@ == public_url@
                &&& ctx.permissions.default@ == default_permissions@
                &&& ctx.jwt.default_expiration == default_expiration
                &&& ctx.jwt.max_expiration == max_expiration
                &&& ctx.jwt.keys == keys
                &&& ctx.api_key.signer == api_key_signer
                &&& ctx.api_key.encryptor == encryptor
                &&& ctx.oauth_providers@.len() == 0
            },
    {
        if keys.len() == 0 || default_expiration < 0 || max_expiration < 0 {
            return Err(SigningKeyError);
        }
        Ok(
            ApiContext {
                public_url,
                storage,
                permissions: PermissionsContext { default: default_permissions },
                jwt: JwtContext { default_expiration, max_expiration, keys },
                api_key: ApiKeyContext { signer: api_key_signer, encryptor },
                oauth_providers: Vec::new(),
            },
        )
    }

    pub fn default_jwt_expiration(&self) -> (r: i64)
        ensures
            r == self.jwt.default_expiration,
    {
        self.jwt.default_expiration
    }

    pub fn max_jwt_expiration(&self) -> (r: i64)
        ensures
            r == self.jwt.max_expiration,
    {
        self.jwt.max_expiration
    }

    /// The published verification-key set: one descriptor per configured
    /// signing key, in key order.
    pub fn jwks(&self) -> (r: Vec<Vec<u8>>)
        ensures
            r@.len() == self.jwt.keys@.len(),
            forall|i: int| 0 <= i < r@.len() ==> r@[i]@ == self.jwt.keys@[i].verifying_key_of(),
    {
        let mut out: Vec<Vec<u8>> = Vec::new();
        let mut i: usize = 0;
        while i < self.jwt.keys.len()
            invariant
                i <= self.jwt.keys.len(),
                out@.len() == i,
                forall|j: int| 0 <= j < i ==> out@[j]@ == self.jwt.keys@[j].verifying_key_of(),
            decreases self.jwt.keys.len() - i,
        {
            out.push(self.jwt.keys[i].verifying_key());
            i += 1;
        }
        out
    }

    /// Signs the canonical bytes of the claims with the default (first)
    /// signing key; the signature is handed out hex-encoded.
    pub fn sign(&self, claims: &Claims) -> (r: Result<String, SigningKeyError>)
        requires
            self.wf(),
        ensures
            (r is Ok) == self.jwt.keys@[0].key_ok(),
            r matches Ok(s) ==> s@ == hex_of(
                self.jwt.keys@[0].sig_of(
                    claims_bytes(
                        claims.aud,
                        claims.exp,
                        claims.nbf,
                        claims.jti,
                        claims.prm.spec_items(),
                    ),
                ),
            ),
    {
        let bytes = claims.encode();
        match self.jwt.keys[0].sign(bytes.as_slice()) {
            Ok(sig) => Ok(hex_encode(sig.as_slice())),
            Err(e) => Err(e),
        }
    }

    /// Protects an opaque secondary secret with the configured encryptor.
    pub fn encrypt(&self, value: &[u8]) -> (r: Result<Vec<u8>, EncryptorError>)
        ensures
            (r is Ok) == self.api_key.encryptor.enc_ok(),
            r matches Ok(c) ==> c@ == self.api_key.encryptor.enc_of(value@),
    {
        self.api_key.encryptor.encrypt(value)
    }

    /// Resolves a presented credential against the store as it stands at
    /// `now`. An api key is parsed, re-signed with the configured key, and
    /// looked up by its signature among live, unexpired key rows; verified
    /// claims are taken at their word. Either way the owning identity must
    /// be present and not soft-deleted, and the caller's effective set is
    /// the credential set narrowed to the identity's ceiling, then
    /// expanded. Every failure is the same uninformative error.
    pub fn get_caller_at(&self, auth: &AuthToken, now: i64) -> (r: Result<Caller, CallerError>)
        requires
            self.wf(),
        ensures
            r matches Err(e) ==> e == CallerError::FailedToAuthenticate,
            auth matches AuthToken::Jwt(c) ==> match r {
                Result::Ok(caller) => resolved_ok(self.storage, c.aud, c.prm@, caller),
                Result::Err(_) => no_live_user(self.storage, c.aud),
            },
            auth matches AuthToken::ApiKey(s) ==> {
                &&& parse_of(s@) is None ==> r is Err
                &&& parse_of(s@) matches Some(p) ==> self.api_key.signer.key_ok() ==> {
                    &&& (forall|j: int|
                        0 <= j < self.storage.spec_keys().len() ==> !key_matches_signature(
                            #[trigger] self.storage.spec_keys()[j],
                            self.spec_presented_signature(p.0, p.1),
                            now,
                        )) ==> r is Err
                    &&& ((exists|j: int|
                        0 <= j < self.storage.spec_keys().len() && key_matches_signature(
                            #[trigger] self.storage.spec_keys()[j],
                            self.spec_presented_signature(p.0, p.1),
                            now,
                        )) && (forall|j: int|
                        0 <= j < self.storage.spec_keys().len() && key_matches_signature(
                            #[trigger] self.storage.spec_keys()[j],
                            self.spec_presented_signature(p.0, p.1),
                            now,
                        ) ==> !no_live_user(
                            self.storage,
                            self.storage.spec_keys()[j].api_user_id,
                        ))) ==> r is Ok
                    &&& (r matches Ok(caller) ==> exists|j: int|
                        {
                            &&& 0 <= j < self.storage.spec_keys().len()
                            &&& key_matches_signature(
                                #[trigger] self.storage.spec_keys()[j],
                                self.spec_presented_signature(p.0, p.1),
                                now,
                            )
                            &&& resolved_ok(
                                self.storage,
                                self.storage.spec_keys()[j].api_user_id,
                                self.storage.spec_keys()[j].permissions@,
                                caller,
                            )
                        })
                }
            },
    {
        let (api_user_id, permissions): (u128, Permissions) = match auth {
            AuthToken::ApiKey(api_key) => {
                let raw = match RawApiKey::parse(api_key.as_str()) {
                    Ok(raw) => raw,
                    Err(_) => {
                        return Err(CallerError::FailedToAuthenticate);
                    },
                };
                let signed = match raw.sign(&self.api_key.signer) {
                    Ok(signed) => signed,
                    Err(_) => {
                        return Err(CallerError::FailedToAuthenticate);
                    },
                };
                match self.storage.find_key_by_signature(signed.signature(), now) {
                    Some(key) => (key.api_user_id, key.permissions.duplicate()),
                    None => {
                        return Err(CallerError::FailedToAuthenticate);
                    },
                }
            },
            AuthToken::Jwt(jwt) => (jwt.aud, jwt.prm.duplicate()),
        };
        match self.storage.get_api_user(api_user_id, false) {
            Some(user) => {
                let effective = user.permissions.intersect(&permissions).expand(user);
                Ok(Caller { id: api_user_id, permissions: effective })
            },
            None => Err(CallerError::FailedToAuthenticate),
        }
    }

    /// The hex signature under which a presented key with the given parts
    /// is stored and looked up.
    pub open spec fn spec_presented_signature(&self, id: u128, secret: Seq<char>) -> Seq<char> {
        hex_of(
            self.api_key.signer.sig_of(vstd::utf8::encode_utf8(presentable_of(id, secret))),
        )
    }

    /// Resolves a presented credential against the clock.
    pub fn get_caller(&self, auth: &AuthToken) -> (r: Result<Caller, CallerError>)
        requires
            self.wf(),
        ensures
            r matches Err(e) ==> e == CallerError::FailedToAuthenticate,
            auth matches AuthToken::Jwt(c) ==> match r {
                Result::Ok(caller) => resolved_ok(self.storage, c.aud, c.prm@, caller),
                Result::Err(_) => no_live_user(self.storage, c.aud),
            },
    {
        let now = now_timestamp();
        self.get_caller_at(auth, now)
    }

    /// True when nothing at all has been provisioned, tombstoned rows
    /// included.
    pub fn is_empty(&self) -> (r: bool)
        ensures
            r == (self.storage.spec_users().len() == 0 && self.storage.spec_keys().len() == 0),
    {
        self.storage.no_users() && self.storage.no_keys()
    }

    /// Registers a provider under its name; a provider already registered
    /// under that name is replaced.
    pub fn insert_oauth_provider(&mut self, name: OAuthProviderName, provider: ConfiguredProvider)
        ensures
            final(self).storage == old(self).storage,
            final(self).jwt == old(self).jwt,
            final(self).api_key == old(self).api_key,
            final(self).permissions == old(self).permissions,
            final(self).public_url == old(self).public_url,
            exists|k: int|
                {
                    &&& 0 <= k < final(self).oauth_providers@.len()
                    &&& #[trigger] final(self).oauth_providers@[k].name == name
                    &&& final(self).oauth_providers@[k].provider == provider
                },
    {
        let mut i: usize = 0;
        while i < self.oauth_providers.len()
            invariant
                *self == *old(self),
                i <= self.oauth_providers.len(),
            decreases self.oauth_providers.len() - i,
        {
            if self.oauth_providers[i].name == name {
                self.oauth_providers.set(i, RegisteredProvider { name, provider });
                proof {
                    assert(final(self).oauth_providers@[i as int].name == name);
                }
                return ;
            }
            i += 1;
        }
        self.oauth_providers.push(RegisteredProvider { name, provider });
        proof {
            assert(final(self).oauth_providers@.last().name == name);
        }
    }

    /// The provider registered under the given name; selecting a name
    /// nobody registered is the one failure.
    pub fn get_oauth_provider(&self, provider: &OAuthProviderName) -> (r: Result<
        &ConfiguredProvider,
        OAuthProviderError,
    >)
        ensures
            r matches Ok(p) ==> exists|k: int|
                0 <= k < self.oauth_providers@.len() && #[trigger] self.oauth_providers@[k].name
                    == *provider && self.oauth_providers@[k].provider == *p,
            r matches Err(e) ==> e == OAuthProviderError::FailToCreateInvalidProvider && forall|
                k: int,
            |
                0 <= k < self.oauth_providers@.len() ==> #[trigger] self.oauth_providers@[k].name
                    != *provider,
    {
        let mut i: usize = 0;
        while i < self.oauth_providers.len()
            invariant
                i <= self.oauth_providers.len(),
                forall|k: int|
                    0 <= k < i ==> #[trigger] self.oauth_providers@[k].name != *provider,
            decreases self.oauth_providers.len() - i,
        {
            if self.oauth_providers[i].name == *provider {
                return Ok(&self.oauth_providers[i].provider);
            }
            i += 1;
        }
        Err(OAuthProviderError::FailToCreateInvalidProvider)
    }

    // Login operations

    /// Provisions or finds the identity behind a verified external login.
    /// No provider link: a fresh identity with the default permission set
    /// is created and the link written. Exactly one link: that identity is
    /// ensured. Several links: a data-integrity violation, surfaced as an
    /// internal error and never silently resolved.
    pub fn register_api_user_at(
        &mut self,
        info: UserInfo,
        now: i64,
        new_user_id: u128,
        new_provider_id: u128,
    ) -> (r: Result<ApiUser, ApiError>)
        requires
            old(self).wf(),
        ensures
            final(self).wf(),
            final(self).jwt == old(self).jwt,
            final(self).api_key == old(self).api_key,
            final(self).permissions == old(self).permissions,
            (r is Err) == multiple_links(
                old(self).storage,
                info.external_id.provider.spec_name_chars(),
                info.external_id.id@,
            ),
            r matches Err(e) ==> e == ApiError::Storage(StoreError::InvariantFailed)
                && final(self).storage == old(self).storage,
            r matches Ok(u) ==> exists|k: int|
                0 <= k < final(self).storage.spec_users().len() && #[trigger] final(self).storage.spec_users()[k].id == u.id,
            ({
                let name = info.external_id.provider.spec_name_chars();
                let ext = info.external_id.id@;
                &&& ((exists|k: int| link_matches_at(old(self).storage, name, ext, k))
                    && !multiple_links(old(self).storage, name, ext)) ==> {
                    &&& final(self).storage.spec_providers() == old(self).storage.spec_providers()
                    &&& r matches Ok(u) ==> forall|k: int|
                        link_matches_at(old(self).storage, name, ext, k) ==> u.id == old(self).storage.spec_providers()[k].api_user_id
                }
                &&& (forall|k: int| !link_matches_at(old(self).storage, name, ext, k)) ==> {
                    &&& (forall|j: int|
                        0 <= j < old(self).storage.spec_users().len() ==> #[trigger] old(self).storage.spec_users()[j].id != new_user_id) ==> (r matches Ok(u) ==> {
                        &&& u.id == new_user_id
                        &&& u.permissions@ == old(self).permissions.default@
                        &&& u.deleted_at is None
                    })
                    &&& (forall|j: int|
                        0 <= j < old(self).storage.spec_providers().len()
                            ==> #[trigger] old(self).storage.spec_providers()[j].id
                            != new_provider_id) ==> (r matches Ok(u) ==> {
                        &&& final(self).storage.spec_providers().len() == old(self).storage.spec_providers().len() + 1
                        &&& forall|j: int|
                            0 <= j < old(self).storage.spec_providers().len() ==> final(self).storage.spec_providers()[j] == old(self).storage.spec_providers()[j]
                        &&& final(self).storage.spec_providers().last().id == new_provider_id
                        &&& final(self).storage.spec_providers().last().api_user_id == u.id
                        &&& final(self).storage.spec_providers().last().provider@ == name
                        &&& final(self).storage.spec_providers().last().provider_id@ == ext
                        &&& final(self).storage.spec_providers().last().emails@
                            == info.verified_emails@
                        &&& final(self).storage.spec_providers().last().deleted_at is None
                    })
                }
            }),
    {
        let ghost name_chars = info.external_id.provider.spec_name_chars();
        let ghost ext = info.external_id.id@;
        let name = info.external_id.provider.name_text();
        let (found, multiple) = self.storage.find_provider_by_external_id(
            name.as_str(),
            info.external_id.id.as_str(),
        );
        proof {
            if multiple {
                let (k1, k2) = choose|k1: int, k2: int|
                    0 <= k1 < k2 < self.storage.spec_providers().len()
                        && crate::store::provider_matches(
                        self.storage.spec_providers()[k1],
                        name_chars,
                        ext,
                    ) && crate::store::provider_matches(
                        self.storage.spec_providers()[k2],
                        name_chars,
                        ext,
                    );
                assert(link_matches_at(self.storage, name_chars, ext, k1));
                assert(link_matches_at(self.storage, name_chars, ext, k2));
                assert(multiple_links(self.storage, name_chars, ext));
            }
            if multiple_links(self.storage, name_chars, ext) {
                let (k1, k2) = choose|k1: int, k2: int|
                    k1 < k2 && #[trigger] link_matches_at(self.storage, name_chars, ext, k1)
                        && #[trigger] link_matches_at(self.storage, name_chars, ext, k2);
                assert(crate::store::provider_matches(
                    self.storage.spec_providers()[k1],
                    name_chars,
                    ext,
                ));
                assert(crate::store::provider_matches(
                    self.storage.spec_providers()[k2],
                    name_chars,
                    ext,
                ));
                assert(multiple);
            }
            assert(multiple == multiple_links(self.storage, name_chars, ext));
        }
        if multiple {
            return Err(ApiError::Storage(StoreError::InvariantFailed));
        }
        match found {
            Some(provider) => {
                let ghost matched = *provider;
                let api_user_id = provider.api_user_id;
                let r = self.ensure_api_user(api_user_id, now);
                proof {
                    let p = choose|p: int|
                        0 <= p < old(self).storage.spec_providers().len() && old(self).storage.spec_providers()[p] == matched;
                    assert(link_matches_at(old(self).storage, name_chars, ext, p));
                    assert forall|k: int|
                        link_matches_at(old(self).storage, name_chars, ext, k) implies old(self).storage.spec_providers()[k].api_user_id == matched.api_user_id by {
                        if k != p {
                            if k < p {
                                assert(multiple_links(old(self).storage, name_chars, ext));
                            } else {
                                assert(multiple_links(old(self).storage, name_chars, ext));
                            }
                        }
                    }
                }
                r
            },
            None => {
                let user = self.ensure_api_user(new_user_id, now)?;
                self.storage.upsert_api_user_provider(
                    NewApiUserProvider {
                        id: new_provider_id,
                        api_user_id: user.id,
                        provider: name,
                        provider_id: info.external_id.id,
                        emails: info.verified_emails,
                    },
                    now,
                );
                Ok(user)
            },
        }
    }

    /// Provisions or finds the identity behind a verified external login,
    /// against the clock and with fresh identifiers.
    pub fn register_api_user(&mut self, info: UserInfo) -> (r: Result<ApiUser, ApiError>)
        requires
            old(self).wf(),
        ensures
            final(self).wf(),
            final(self).jwt == old(self).jwt,
            final(self).api_key == old(self).api_key,
            (r is Err) == multiple_links(
                old(self).storage,
                info.external_id.provider.spec_name_chars(),
                info.external_id.id@,
            ),
            r matches Err(e) ==> e == ApiError::Storage(StoreError::InvariantFailed)
                && final(self).storage == old(self).storage,
            r matches Ok(u) ==> exists|k: int|
                0 <= k < final(self).storage.spec_users().len() && #[trigger] final(self).storage.spec_users()[k].id == u.id,
    {
        let now = now_timestamp();
        let new_user_id = uuid_new_v4();
        let new_provider_id = uuid_new_v4();
        self.register_api_user_at(info, now, new_user_id, new_provider_id)
    }

    /// The identity with this id, created with the default permission set
    /// where absent; an existing live identity is returned untouched.
    fn ensure_api_user(&mut self, api_user_id: u128, now: i64) -> (r: Result<ApiUser, ApiError>)
        requires
            old(self).wf(),
        ensures
            final(self).wf(),
            final(self).jwt == old(self).jwt,
            final(self).api_key == old(self).api_key,
            final(self).permissions == old(self).permissions,
            final(self).storage.spec_providers() == old(self).storage.spec_providers(),
            final(self).storage.spec_keys() == old(self).storage.spec_keys(),
            final(self).storage.spec_tokens() == old(self).storage.spec_tokens(),
            final(self).storage.spec_attempts() == old(self).storage.spec_attempts(),
            r is Ok,
            r matches Ok(u) ==> u.id == api_user_id && exists|k: int|
                0 <= k < final(self).storage.spec_users().len() && #[trigger] final(self).storage.spec_users()[k].id == u.id,
            (exists|k: int| live_user_at(old(self).storage, k, api_user_id)) ==> {
                &&& final(self).storage == old(self).storage
                &&& r matches Ok(u) ==> u.deleted_at is None && exists|k: int|
                    #[trigger] live_user_at(old(self).storage, k, api_user_id) && u.permissions@
                        == old(self).storage.spec_users()[k].permissions@
            },
            (forall|k: int|
                0 <= k < old(self).storage.spec_users().len() ==> #[trigger] old(self).storage.spec_users()[k].id != api_user_id) ==> (r matches Ok(u) ==> {
                &&& u.permissions@ == old(self).permissions.default@
                &&& u.deleted_at is None
            }),
    {
        let existing = match self.storage.get_api_user(api_user_id, false) {
            Some(user) => {
                let ghost orig = *user;
                let dup = user.duplicate();
                proof {
                    assert(self.storage.spec_users().contains(orig));
                    let k = choose|k: int|
                        0 <= k < self.storage.spec_users().len() && self.storage.spec_users()[k]
                            == orig;
                    assert(self.storage.spec_users()[k].id == dup.id);
                    assert(live_user_at(self.storage, k, api_user_id));
                }
                Some(dup)
            },
            None => None,
        };
        match existing {
            Some(user) => Ok(user),
            None => {
                let user = self.storage.upsert_api_user(
                    NewApiUser {
                        id: api_user_id,
                        permissions: self.permissions.default.duplicate(),
                    },
                    now,
                );
                Ok(user)
            },
        }
    }

    /// Issues a signed token for the identity at `now`. The expiry is the
    /// requested instant, or now plus the default lifetime when none is
    /// requested; an expiry past now plus the maximum lifetime is refused.
    /// The embedded permission set is the requested set narrowed to the
    /// identity's ceiling, never wider. A revocable token record is
    /// persisted under the fresh token id.
    pub fn register_access_token_at(
        &mut self,
        api_user: &ApiUser,
        requested_permissions: &Permissions,
        expires_at: Option<i64>,
        now: i64,
        token_id: u128,
    ) -> (r: Result<RegisteredAccessToken, ApiError>)
        requires
            old(self).wf(),
            now + old(self).jwt.default_expiration <= i64::MAX,
            now + old(self).jwt.max_expiration <= i64::MAX,
        ensures
            final(self).wf(),
            final(self).jwt == old(self).jwt,
            final(self).api_key == old(self).api_key,
            final(self).storage.spec_users() == old(self).storage.spec_users(),
            final(self).storage.spec_keys() == old(self).storage.spec_keys(),
            final(self).storage.spec_attempts() == old(self).storage.spec_attempts(),
            final(self).storage.spec_providers() == old(self).storage.spec_providers(),
            ({
                let exp: int = match expires_at {
                    Option::Some(e) => e as int,
                    Option::None => now + old(self).jwt.default_expiration,
                };
                &&& (exp > now + old(self).jwt.max_expiration) <==> r == Err::<
                    RegisteredAccessToken,
                    ApiError,
                >(ApiError::Login(LoginError::ExcessTokenExpiration))
                &&& (exp > now + old(self).jwt.max_expiration) ==> final(self).storage == old(self).storage
                &&& (exp <= now + old(self).jwt.max_expiration && !old(self).jwt.keys@[0].key_ok())
                    ==> (r matches Err(e) && (e matches ApiError::Signing(_)))
                &&& (exp <= now + old(self).jwt.max_expiration) ==> {
                    &&& exists|k: int|
                        0 <= k < final(self).storage.spec_tokens().len() && #[trigger] final(self).storage.spec_tokens()[k].id == token_id && final(self).storage.spec_tokens()[k].revoked_at is None
                    &&& (forall|k: int|
                        0 <= k < old(self).storage.spec_tokens().len() ==> #[trigger] old(self).storage.spec_tokens()[k].id != token_id) ==> {
                        &&& final(self).storage.spec_tokens().len() == old(self).storage.spec_tokens().len() + 1
                        &&& forall|k: int|
                            0 <= k < old(self).storage.spec_tokens().len() ==> final(self).storage.spec_tokens()[k] == old(self).storage.spec_tokens()[k]
                        &&& final(self).storage.spec_tokens().last().id == token_id
                        &&& final(self).storage.spec_tokens().last().api_user_id == api_user.id
                        &&& final(self).storage.spec_tokens().last().revoked_at is None
                    }
                }
                &&& (exp <= now + old(self).jwt.max_expiration && old(self).jwt.keys@[0].key_ok())
                    ==> (r matches Ok(t) && {
                    &&& t.expires_at == exp
                    &&& t.access_token.id == token_id
                    &&& t.access_token.revoked_at is None
                    &&& (forall|k: int|
                        0 <= k < old(self).storage.spec_tokens().len() ==> #[trigger] old(self).storage.spec_tokens()[k].id != token_id) ==> t.access_token.api_user_id
                        == api_user.id
                    &&& exists|ps: Seq<ApiPermission>|
                        ps.to_set() == intersection_of(
                            requested_permissions@,
                            api_user.permissions@,
                        ) && t.signed_token@ == hex_of(
                            old(self).jwt.keys@[0].sig_of(
                                claims_bytes(api_user.id, exp as i64, now, token_id, ps),
                            ),
                        )
                })
            }),
    {
        let expires_at: i64 = match expires_at {
            Some(e) => e,
            None => now + self.jwt.default_expiration,
        };
        if expires_at > now + self.jwt.max_expiration {
            return Err(ApiError::Login(LoginError::ExcessTokenExpiration));
        }
        let permissions = requested_permissions.intersect(&api_user.permissions);
        proof {
            permissions.lemma_items_view();
        }
        let claims = Claims {
            aud: api_user.id,
            prm: permissions,
            exp: expires_at,
            nbf: now,
            jti: token_id,
        };
        let token = self.storage.upsert_access_token(
            NewAccessToken { id: claims.jti, api_user_id: api_user.id, revoked_at: None },
            now,
        );
        let signed = match self.sign(&claims) {
            Ok(signed) => signed,
            Err(e) => {
                return Err(ApiError::Signing(e));
            },
        };
        Ok(RegisteredAccessToken { access_token: token, signed_token: signed, expires_at })
    }

    /// Issues a signed token against the clock, under a fresh token id.
    pub fn register_access_token(
        &mut self,
        api_user: &ApiUser,
        requested_permissions: &Permissions,
        expires_at: Option<i64>,
    ) -> (r: Result<RegisteredAccessToken, ApiError>)
        requires
            old(self).wf(),
        ensures
            final(self).wf(),
            r matches Ok(t) ==> t.access_token.revoked_at is None && exists|
                ps: Seq<ApiPermission>,
            |
                ps.to_set() == intersection_of(requested_permissions@, api_user.permissions@),
    {
        let now = now_timestamp();
        if now >= 0 && (self.jwt.default_expiration > i64::MAX - now
            || self.jwt.max_expiration > i64::MAX - now) {
            return Err(ApiError::Login(LoginError::ExcessTokenExpiration));
        }
        let token_id = uuid_new_v4();
        self.register_access_token_at(api_user, requested_permissions, expires_at, now, token_id)
    }

    // API user operations

    /// The live identity with this id; soft-deleted identities are absent.
    pub fn get_api_user(&self, id: u128) -> (r: Option<&ApiUser>)
        ensures
            r matches Some(u) ==> self.storage.spec_users().contains(*u) && u.id == id
                && u.deleted_at is None,
            r is None ==> no_live_user(self.storage, id),
    {
        self.storage.get_api_user(id, false)
    }

    /// The caller the boundary layer hands to anonymous requests: no
    /// identity of interest and no permissions at all. It is constructed
    /// here, never produced by credential resolution.
    pub fn get_unauthenticated_caller(&self) -> (r: Caller)
        ensures
            r.permissions@ == Set::<ApiPermission>::empty(),
    {
        Caller { id: 0, permissions: Permissions::new() }
    }

    /// Soft-deletes an identity; every credential for it stops
    /// authenticating, whatever its own validity.
    pub fn delete_api_user(&mut self, id: u128, now: i64) -> (r: Option<ApiUser>)
        requires
            old(self).wf(),
        ensures
            final(self).wf(),
            final(self).jwt == old(self).jwt,
            final(self).api_key == old(self).api_key,
            r matches Some(u) ==> u.id == id && u.deleted_at == Some(now) && no_live_user(
                final(self).storage,
                id,
            ),
    {
        let r = self.storage.delete_api_user(id, now);
        proof {
            if r is Some {
                let i = choose|i: int|
                    {
                        &&& 0 <= i < old(self).storage.spec_users().len()
                        &&& old(self).storage.spec_users()[i].id == id
                        &&& final(self).storage.spec_users().len() == old(self).storage.spec_users().len()
                        &&& forall|j: int|
                            0 <= j < old(self).storage.spec_users().len() && j != i ==> final(self).storage.spec_users()[j] == old(self).storage.spec_users()[j]
                        &&& final(self).storage.spec_users()[i].id == old(self).storage.spec_users()[i].id
                        &&& final(self).storage.spec_users()[i].permissions@ == old(self).storage.spec_users()[i].permissions@
                        &&& final(self).storage.spec_users()[i].deleted_at == Some(now)
                    };
                assert forall|k: int|
                    0 <= k < final(self).storage.spec_users().len() implies !(#[trigger] final(self).storage.spec_users()[k].id == id && final(self).storage.spec_users()[k].deleted_at
                    is None) by {
                    if k != i {
                        assert(old(self).storage.spec_users()[k].id != id);
                    }
                }
            }
        }
        r
    }

    /// Creates the identity or replaces its permission ceiling.
    pub fn update_api_user(&mut self, api_user: NewApiUser, now: i64) -> (r: ApiUser)
        requires
            old(self).wf(),
        ensures
            final(self).wf(),
            final(self).jwt == old(self).jwt,
            final(self).api_key == old(self).api_key,
            r.id == api_user.id,
            r.permissions@ == api_user.permissions@,
    {
        self.storage.upsert_api_user(api_user, now)
    }

    /// Persists a new api key for the identity, its requested permission
    /// set narrowed to the identity's ceiling: tags outside the ceiling
    /// are silently dropped, not an error. A key id already in use is
    /// refused.
    pub fn create_api_user_token(
        &mut self,
        token: NewApiKey,
        api_user: &ApiUser,
        now: i64,
    ) -> (r: Result<ApiKey, StoreError>)
        requires
            old(self).wf(),
        ensures
            final(self).wf(),
            final(self).jwt == old(self).jwt,
            final(self).api_key == old(self).api_key,
            (r is Err) == exists|k: int|
                0 <= k < old(self).storage.spec_keys().len() && #[trigger] old(self).storage.spec_keys()[k].id == token.id,
            r matches Err(e) ==> e == StoreError::Conflict,
            r matches Ok(k) ==> {
                &&& k.id == token.id
                &&& k.api_user_id == token.api_user_id
                &&& k.key@ == token.key@
                &&& k.expires_at == token.expires_at
                &&& k.deleted_at is None
                &&& forall|p: ApiPermission|
                    k.permissions@.contains(p) == (token.permissions@.contains(p)
                        && crate::permissions::covered_by(api_user.permissions@, p))
                &&& final(self).storage.spec_keys().len() == old(self).storage.spec_keys().len() + 1
            },
    {
        if !self.storage.key_id_is_free(token.id) {
            return Err(StoreError::Conflict);
        }
        Ok(self.storage.upsert_api_key(token, api_user, now))
    }

    /// The key row with this id, tombstoned rows excluded.
    pub fn get_api_user_token(&self, id: u128) -> (r: Option<&ApiKey>)
        ensures
            r matches Some(k) ==> self.storage.spec_keys().contains(*k) && k.id == id
                && k.deleted_at is None,
            r is None ==> forall|k: int|
                0 <= k < self.storage.spec_keys().len() ==> !(#[trigger] self.storage.spec_keys()[k].id
                    == id && self.storage.spec_keys()[k].deleted_at is None),
    {
        self.storage.get_api_key(id, false)
    }

    /// The key rows owned by one identity, expired rows included,
    /// tombstoned rows excluded.
    pub fn get_api_user_tokens(&self, api_user_id: u128) -> (r: Vec<&ApiKey>)
        ensures
            forall|j: int|
                0 <= j < r@.len() ==> self.storage.spec_keys().contains(*#[trigger] r@[j])
                    && r@[j].api_user_id == api_user_id && r@[j].deleted_at is None,
    {
        self.storage.keys_for_user(api_user_id)
    }

    /// Writes or repoints a provider link.
    pub fn update_api_user_provider(&mut self, provider: NewApiUserProvider, now: i64) -> (r:
        ApiUserProvider)
        requires
            old(self).wf(),
        ensures
            final(self).wf(),
            final(self).jwt == old(self).jwt,
            final(self).api_key == old(self).api_key,
            r.id == provider.id,
            r.api_user_id == provider.api_user_id,
    {
        self.storage.upsert_api_user_provider(provider, now)
    }

    /// Soft-deletes a key row; the tombstoned row is reported back.
    pub fn delete_api_user_token(&mut self, id: u128, now: i64) -> (r: Option<ApiKey>)
        requires
            old(self).wf(),
        ensures
            final(self).wf(),
            final(self).jwt == old(self).jwt,
            final(self).api_key == old(self).api_key,
            r matches Some(k) ==> k.id == id && k.deleted_at == Some(now),
            r is None ==> forall|k: int|
                0 <= k < old(self).storage.spec_keys().len() ==> #[trigger] old(self).storage.spec_keys()[k].id != id,
    {
        self.storage.delete_api_key(id, now)
    }

    /// Records an issued token row.
    pub fn create_access_token(&mut self, access_token: NewAccessToken, now: i64) -> (r:
        AccessToken)
        requires
            old(self).wf(),
        ensures
            final(self).wf(),
            final(self).jwt == old(self).jwt,
            final(self).api_key == old(self).api_key,
            r.id == access_token.id,
            r.revoked_at == access_token.revoked_at,
    {
        self.storage.upsert_access_token(access_token, now)
    }

    // Login attempt operations

    /// Writes a new login attempt in its given state.
    pub fn create_login_attempt(&mut self, attempt: NewLoginAttempt, now: i64) -> (r: Result<
        LoginAttempt,
        LoginAttemptError,
    >)
        requires
            old(self).wf(),
        ensures
            final(self).wf(),
            final(self).jwt == old(self).jwt,
            final(self).api_key == old(self).api_key,
            r is Ok,
            r matches Ok(a) ==> {
                &&& a.id == attempt.id
                &&& a.attempt_state == attempt.attempt_state
                &&& a.authz_code == attempt.authz_code
                &&& a.expires_at == attempt.expires_at
                &&& a.provider_authz_code == attempt.provider_authz_code
                &&& final(self).storage.spec_attempts().contains(a)
            },
    {
        Ok(self.storage.upsert_login_attempt(attempt, now))
    }

    /// The provider called back with its own authorization code: store
    /// that code verbatim, mint a fresh random local authorization code,
    /// and move the attempt to the remote-authenticated state. The local
    /// code, not the provider's, is what the client later exchanges. Only
    /// an attempt still waiting for the provider may take this step: an
    /// attempt already remote-authenticated never regenerates its code, so
    /// at most one live local code exists per attempt.
    pub fn set_login_provider_authz_code(
        &mut self,
        attempt: LoginAttempt,
        code: String,
        now: i64,
    ) -> (r: Result<LoginAttempt, StoreError>)
        requires
            old(self).wf(),
            attempt.attempt_state == LoginAttemptState::Created,
            forall|k: int|
                0 <= k < old(self).storage.spec_attempts().len() && #[trigger] old(self).storage.spec_attempts()[k].id == attempt.id ==> old(self).storage.spec_attempts()[k].attempt_state == LoginAttemptState::Created,
        ensures
            final(self).wf(),
            final(self).jwt == old(self).jwt,
            final(self).api_key == old(self).api_key,
            r is Ok,
            r matches Ok(a) ==> {
                &&& a.id == attempt.id
                &&& a.attempt_state == LoginAttemptState::RemoteAuthenticated
                &&& a.provider_authz_code matches Some(c) && c@ == code@
                &&& a.authz_code matches Some(local) && local@.len() == 22
                &&& crate::store::attempt_matches_code(a, a.authz_code.unwrap()@)
                &&& final(self).storage.spec_attempts().contains(a)
                &&& a.expires_at == attempt.expires_at
            },
            r matches Ok(a) ==> (forall|k: int|
                0 <= k < old(self).storage.spec_attempts().len() ==> #[trigger] old(self).storage.spec_attempts()[k].id != attempt.id) ==> {
                &&& a.client_id@ == attempt.client_id@
                &&& a.redirect_uri@ == attempt.redirect_uri@
                &&& a.state == attempt.state
                &&& a.pkce_challenge == attempt.pkce_challenge
                &&& a.pkce_challenge_method == attempt.pkce_challenge_method
                &&& a.provider@ == attempt.provider@
                &&& a.provider_pkce_verifier == attempt.provider_pkce_verifier
            },
            r matches Ok(a) ==> forall|k: int|
                0 <= k < old(self).storage.spec_attempts().len() && #[trigger] old(self).storage.spec_attempts()[k].id == attempt.id ==> {
                &&& a.client_id@ == old(self).storage.spec_attempts()[k].client_id@
                &&& a.redirect_uri@ == old(self).storage.spec_attempts()[k].redirect_uri@
                &&& a.state == old(self).storage.spec_attempts()[k].state
                &&& a.pkce_challenge == old(self).storage.spec_attempts()[k].pkce_challenge
                &&& a.pkce_challenge_method == old(self).storage.spec_attempts()[k].pkce_challenge_method
                &&& a.provider@ == old(self).storage.spec_attempts()[k].provider@
                &&& a.provider_pkce_verifier == old(self).storage.spec_attempts()[k].provider_pkce_verifier
            },
    {
        let mut next = attempt.to_new();
        next.provider_authz_code = Some(code);
        next.attempt_state = LoginAttemptState::RemoteAuthenticated;
        next.authz_code = Some(random_csrf_token());
        Ok(self.storage.upsert_login_attempt(next, now))
    }

    /// The attempt with this id, whatever its state.
    pub fn get_login_attempt(&self, id: u128) -> (r: Option<&LoginAttempt>)
        ensures
            r matches Some(a) ==> self.storage.spec_attempts().contains(*a) && a.id == id,
            r is None ==> forall|k: int|
                0 <= k < self.storage.spec_attempts().len() ==> #[trigger] self.storage.spec_attempts()[k].id
                    != id,
    {
        self.storage.get_login_attempt(id)
    }

    /// The attempt holding this local authorization code, and only while
    /// it stands in the remote-authenticated state: attempts still waiting
    /// for the provider, failed, or completed never match, whatever code
    /// value is presented.
    pub fn get_login_attempt_for_code(&self, code: &str) -> (r: Option<&LoginAttempt>)
        ensures
            r matches Some(a) ==> self.storage.spec_attempts().contains(*a)
                && crate::store::attempt_matches_code(*a, code@),
            r is None ==> forall|k: int|
                0 <= k < self.storage.spec_attempts().len() ==> !crate::store::attempt_matches_code(
                    #[trigger] self.storage.spec_attempts()[k],
                    code@,
                ),
    {
        self.storage.get_login_attempt_for_code(code)
    }

    /// Forces an attempt to the failed state, whatever state it stands in;
    /// once failed it is inert and never again matches a local-code
    /// lookup. Everything but the state tag and the update mark is kept,
    /// so re-applying the transition to the failed row writes the same
    /// row again.
    pub fn fail_login_attempt(&mut self, attempt: LoginAttempt, now: i64) -> (r: Result<
        LoginAttempt,
        StoreError,
    >)
        requires
            old(self).wf(),
        ensures
            final(self).wf(),
            final(self).jwt == old(self).jwt,
            final(self).api_key == old(self).api_key,
            r is Ok,
            r matches Ok(a) ==> {
                &&& a.id == attempt.id
                &&& a.attempt_state == LoginAttemptState::Failed
                &&& a.authz_code == attempt.authz_code
                &&& a.expires_at == attempt.expires_at
                &&& a.provider_authz_code == attempt.provider_authz_code
                &&& forall|c: Seq<char>| !crate::store::attempt_matches_code(a, c)
                &&& final(self).storage.spec_attempts().contains(a)
            },
            r matches Ok(a) ==> (forall|k: int|
                0 <= k < old(self).storage.spec_attempts().len() ==> #[trigger] old(self).storage.spec_attempts()[k].id != attempt.id) ==> {
                &&& a.client_id@ == attempt.client_id@
                &&& a.redirect_uri@ == attempt.redirect_uri@
                &&& a.state == attempt.state
                &&& a.pkce_challenge == attempt.pkce_challenge
                &&& a.pkce_challenge_method == attempt.pkce_challenge_method
                &&& a.provider@ == attempt.provider@
                &&& a.provider_pkce_verifier == attempt.provider_pkce_verifier
            },
            r matches Ok(a) ==> forall|k: int|
                0 <= k < old(self).storage.spec_attempts().len() && #[trigger] old(self).storage.spec_attempts()[k].id == attempt.id ==> {
                &&& a.client_id@ == old(self).storage.spec_attempts()[k].client_id@
                &&& a.redirect_uri@ == old(self).storage.spec_attempts()[k].redirect_uri@
                &&& a.state == old(self).storage.spec_attempts()[k].state
                &&& a.pkce_challenge == old(self).storage.spec_attempts()[k].pkce_challenge
                &&& a.pkce_challenge_method == old(self).storage.spec_attempts()[k].pkce_challenge_method
                &&& a.provider@ == old(self).storage.spec_attempts()[k].provider@
                &&& a.provider_pkce_verifier == old(self).storage.spec_attempts()[k].provider_pkce_verifier
            },
    {
        let mut next = attempt.to_new();
        next.attempt_state = LoginAttemptState::Failed;
        Ok(self.storage.upsert_login_attempt(next, now))
    }
}

} // verus!
