//! Caller resolution and token issuance against the in-memory store.

use rfd_api::authn::jwt::Claims;
use rfd_api::authn::key::RawApiKey;
use rfd_api::authn::StaticKeySigner;
use rfd_api::authn::XorEncryptor;
use rfd_api::context::ApiContext;
use rfd_api::context::ApiError;
use rfd_api::context::AuthToken;
use rfd_api::context::CallerError;
use rfd_api::context::LoginError;
use rfd_api::model::NewApiKey;
use rfd_api::model::NewApiUser;
use rfd_api::permissions::ApiPermission;
use rfd_api::permissions::Permissions;
use rfd_api::store::MemoryStore;

const NOW: i64 = 1_700_000_000;

fn ctx() -> ApiContext<StaticKeySigner, XorEncryptor> {
    ApiContext::new(
        "https://api.example".to_string(),
        MemoryStore::new(),
        Permissions::new(),
        3600,
        86400,
        vec![StaticKeySigner::new(vec![1, 2, 3, 4])],
        StaticKeySigner::new(vec![5, 6, 7, 8]),
        XorEncryptor::new(vec![9, 9]).unwrap(),
    )
    .unwrap()
}

fn provision_user(ctx: &mut ApiContext<StaticKeySigner, XorEncryptor>, id: u128, ceiling: Vec<ApiPermission>) {
    ctx.update_api_user(NewApiUser { id, permissions: Permissions::from_vec(ceiling) }, NOW);
}

fn issue_key(
    ctx: &mut ApiContext<StaticKeySigner, XorEncryptor>,
    key_id: u128,
    user_id: u128,
    requested: Vec<ApiPermission>,
) -> String {
    let raw = RawApiKey::generate::<8>(&user_id);
    let presented = raw.presentable();
    let signed = raw.sign(&ctx.api_key.signer).unwrap();
    let owner = ctx.get_api_user(user_id).unwrap().duplicate();
    ctx.create_api_user_token(
        NewApiKey {
            id: key_id,
            api_user_id: user_id,
            key: signed.signature().to_string(),
            permissions: Permissions::from_vec(requested),
            expires_at: NOW + 100_000,
        },
        &owner,
        NOW,
    )
    .unwrap();
    presented
}

#[test]
fn api_key_credential_resolves_to_caller() {
    let mut ctx = ctx();
    provision_user(&mut ctx, 10, vec![ApiPermission::GetRfdsAll, ApiPermission::SearchRfds]);
    let presented = issue_key(&mut ctx, 100, 10, vec![ApiPermission::GetRfdsAll]);

    let caller = ctx.get_caller_at(&AuthToken::ApiKey(presented), NOW).unwrap();
    assert_eq!(caller.id, 10);
    assert!(caller.can(&ApiPermission::GetRfd(1)));
    assert!(!caller.can(&ApiPermission::SearchRfds));
}

#[test]
fn unknown_signature_is_rejected() {
    let mut ctx = ctx();
    provision_user(&mut ctx, 10, vec![ApiPermission::GetRfdsAll]);

    let raw = RawApiKey::generate::<8>(&10);
    let presented = raw.presentable();
    let result = ctx.get_caller_at(&AuthToken::ApiKey(presented), NOW);
    assert!(matches!(result, Err(CallerError::FailedToAuthenticate)));
}

#[test]
fn expired_key_is_rejected() {
    let mut ctx = ctx();
    provision_user(&mut ctx, 10, vec![ApiPermission::GetRfdsAll]);
    let presented = issue_key(&mut ctx, 100, 10, vec![ApiPermission::GetRfdsAll]);

    let much_later = NOW + 1_000_000;
    let result = ctx.get_caller_at(&AuthToken::ApiKey(presented), much_later);
    assert!(matches!(result, Err(CallerError::FailedToAuthenticate)));
}

#[test]
fn soft_deleted_identity_never_authenticates() {
    let mut ctx = ctx();
    provision_user(&mut ctx, 10, vec![ApiPermission::GetRfdsAll]);
    let presented = issue_key(&mut ctx, 100, 10, vec![ApiPermission::GetRfdsAll]);

    let before = ctx.get_caller_at(&AuthToken::ApiKey(presented.clone()), NOW);
    assert!(before.is_ok());

    ctx.delete_api_user(10, NOW).unwrap();

    let after = ctx.get_caller_at(&AuthToken::ApiKey(presented), NOW);
    assert!(matches!(after, Err(CallerError::FailedToAuthenticate)));
}

#[test]
fn jwt_credential_narrows_to_identity_ceiling() {
    let mut ctx = ctx();
    provision_user(&mut ctx, 20, vec![ApiPermission::GetRfd(1), ApiPermission::GetRfd(2)]);

    let claims = Claims {
        aud: 20,
        prm: Permissions::from_vec(vec![ApiPermission::GetRfd(1), ApiPermission::SearchRfds]),
        exp: NOW + 600,
        nbf: NOW,
        jti: 900,
    };
    let caller = ctx.get_caller_at(&AuthToken::Jwt(claims), NOW).unwrap();
    assert_eq!(caller.id, 20);
    assert!(caller.can(&ApiPermission::GetRfd(1)));
    assert!(!caller.can(&ApiPermission::GetRfd(2)));
    assert!(!caller.can(&ApiPermission::SearchRfds));
}

#[test]
fn jwt_for_absent_identity_is_rejected() {
    let ctx = ctx();
    let claims = Claims {
        aud: 404,
        prm: Permissions::new(),
        exp: NOW + 600,
        nbf: NOW,
        jti: 900,
    };
    let result = ctx.get_caller_at(&AuthToken::Jwt(claims), NOW);
    assert!(matches!(result, Err(CallerError::FailedToAuthenticate)));
}

#[test]
fn token_expiry_at_policy_limit_is_accepted() {
    let mut ctx = ctx();
    provision_user(&mut ctx, 30, vec![ApiPermission::GetRfdsAll]);
    let user = ctx.get_api_user(30).unwrap().duplicate();

    let at_limit = ctx
        .register_access_token_at(
            &user,
            &Permissions::from_vec(vec![ApiPermission::GetRfdsAll]),
            Some(NOW + 86400),
            NOW,
            501,
        )
        .unwrap();
    assert_eq!(at_limit.expires_at, NOW + 86400);
    assert_eq!(at_limit.access_token.id, 501);
}

#[test]
fn token_expiry_one_second_past_limit_is_refused() {
    let mut ctx = ctx();
    provision_user(&mut ctx, 30, vec![ApiPermission::GetRfdsAll]);
    let user = ctx.get_api_user(30).unwrap().duplicate();

    let past_limit = ctx.register_access_token_at(
        &user,
        &Permissions::from_vec(vec![ApiPermission::GetRfdsAll]),
        Some(NOW + 86400 + 1),
        NOW,
        502,
    );
    assert!(matches!(past_limit, Err(ApiError::Login(LoginError::ExcessTokenExpiration))));
}

#[test]
fn default_expiry_is_applied_when_unspecified() {
    let mut ctx = ctx();
    provision_user(&mut ctx, 30, vec![ApiPermission::GetRfdsAll]);
    let user = ctx.get_api_user(30).unwrap().duplicate();

    let token = ctx
        .register_access_token_at(&user, &Permissions::new(), None, NOW, 503)
        .unwrap();
    assert_eq!(token.expires_at, NOW + 3600);
}

#[test]
fn issued_token_signature_is_deterministic() {
    let mut ctx = ctx();
    provision_user(&mut ctx, 30, vec![ApiPermission::GetRfdsAll]);
    let user = ctx.get_api_user(30).unwrap().duplicate();
    let requested = Permissions::from_vec(vec![ApiPermission::GetRfdsAll]);

    let t1 = ctx
        .register_access_token_at(&user, &requested, Some(NOW + 60), NOW, 700)
        .unwrap();
    let t2 = ctx
        .register_access_token_at(&user, &requested, Some(NOW + 60), NOW, 700)
        .unwrap();
    assert_eq!(t1.signed_token, t2.signed_token);
}

#[test]
fn stored_key_permissions_are_narrowed_to_ceiling() {
    let mut ctx = ctx();
    provision_user(&mut ctx, 40, vec![ApiPermission::GetRfdsAll]);
    let owner = ctx.get_api_user(40).unwrap().duplicate();

    let stored = ctx
        .create_api_user_token(
            NewApiKey {
                id: 600,
                api_user_id: 40,
                key: "some-signature".to_string(),
                permissions: Permissions::from_vec(vec![
                    ApiPermission::GetRfdsAll,
                    ApiPermission::CreateApiUser,
                ]),
                expires_at: NOW + 1000,
            },
            &owner,
            NOW,
        )
        .unwrap();

    assert!(stored.permissions.can(&ApiPermission::GetRfdsAll));
    assert!(!stored.permissions.can(&ApiPermission::CreateApiUser));
    assert_eq!(stored.permissions.inner().len(), 1);
}

#[test]
fn register_api_user_provisions_once_per_external_id() {
    let mut ctx = ctx();
    let info = || rfd_api::login::UserInfo {
        external_id: rfd_api::login::ExternalId {
            provider: rfd_api::login::OAuthProviderName::Google,
            id: "remote-1".to_string(),
        },
        verified_emails: vec!["a@example.com".to_string()],
    };

    let first = ctx.register_api_user_at(info(), NOW, 1000, 2000).unwrap();
    assert_eq!(first.id, 1000);

    let second = ctx.register_api_user_at(info(), NOW + 5, 1001, 2001).unwrap();
    assert_eq!(second.id, 1000);
}

#[test]
fn duplicate_provider_links_surface_an_invariant_violation() {
    let mut ctx = ctx();
    ctx.storage.upsert_api_user_provider(
        rfd_api::model::NewApiUserProvider {
            id: 1,
            api_user_id: 10,
            provider: "google".to_string(),
            provider_id: "remote-9".to_string(),
            emails: vec![],
        },
        NOW,
    );
    ctx.storage.upsert_api_user_provider(
        rfd_api::model::NewApiUserProvider {
            id: 2,
            api_user_id: 11,
            provider: "google".to_string(),
            provider_id: "remote-9".to_string(),
            emails: vec![],
        },
        NOW,
    );

    let info = rfd_api::login::UserInfo {
        external_id: rfd_api::login::ExternalId {
            provider: rfd_api::login::OAuthProviderName::Google,
            id: "remote-9".to_string(),
        },
        verified_emails: vec![],
    };
    let result = ctx.register_api_user_at(info, NOW, 1000, 2000);
    assert!(matches!(
        result,
        Err(ApiError::Storage(rfd_api::context::StoreError::InvariantFailed))
    ));
}

#[test]
fn is_empty_reflects_provisioning() {
    let mut ctx = ctx();
    assert!(ctx.is_empty());
    provision_user(&mut ctx, 50, vec![]);
    assert!(!ctx.is_empty());
}
