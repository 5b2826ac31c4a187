//! The external login state machine: creation, the provider callback
//! transition, local-code lookup, and failure.

use rfd_api::authn::StaticKeySigner;
use rfd_api::authn::XorEncryptor;
use rfd_api::context::ApiContext;
use rfd_api::model::LoginAttemptState;
use rfd_api::model::NewLoginAttempt;
use rfd_api::permissions::Permissions;
use rfd_api::store::MemoryStore;

const NOW: i64 = 1_700_000_000;

fn ctx() -> ApiContext<StaticKeySigner, XorEncryptor> {
    ApiContext::new(
        "https://api.example".to_string(),
        MemoryStore::new(),
        Permissions::new(),
        3600,
        86400,
        vec![StaticKeySigner::new(vec![1, 2, 3, 4])],
        StaticKeySigner::new(vec![5, 6, 7, 8]),
        XorEncryptor::new(vec![9, 9]).unwrap(),
    )
    .unwrap()
}

fn fresh_attempt(id: u128) -> NewLoginAttempt {
    NewLoginAttempt {
        id,
        attempt_state: LoginAttemptState::Created,
        client_id: "c1".to_string(),
        redirect_uri: "https://x/cb".to_string(),
        state: Some("client-state".to_string()),
        pkce_challenge: Some("abc".to_string()),
        pkce_challenge_method: Some("S256".to_string()),
        authz_code: None,
        expires_at: NOW + 600,
        provider: "google".to_string(),
        provider_pkce_verifier: Some("verifier".to_string()),
        provider_authz_code: None,
    }
}

#[test]
fn created_attempt_never_matches_code_lookup() {
    let mut ctx = ctx();
    let mut attempt = fresh_attempt(1);
    attempt.authz_code = Some("guessable".to_string());
    ctx.create_login_attempt(attempt, NOW).unwrap();

    assert!(ctx.get_login_attempt_for_code("guessable").is_none());
}

#[test]
fn remote_authenticated_attempt_matches_its_code() {
    let mut ctx = ctx();
    let created = ctx.create_login_attempt(fresh_attempt(2), NOW).unwrap();

    let authed = ctx
        .set_login_provider_authz_code(created, "prov-123".to_string(), NOW)
        .unwrap();
    let local = authed.authz_code.clone().unwrap();

    let found = ctx.get_login_attempt_for_code(&local).unwrap();
    assert_eq!(found.id, 2);
    assert!(matches!(found.attempt_state, LoginAttemptState::RemoteAuthenticated));
}

#[test]
fn failed_attempt_never_matches_even_with_correct_code() {
    let mut ctx = ctx();
    let created = ctx.create_login_attempt(fresh_attempt(3), NOW).unwrap();
    let authed = ctx
        .set_login_provider_authz_code(created, "prov-123".to_string(), NOW)
        .unwrap();
    let local = authed.authz_code.clone().unwrap();
    assert!(ctx.get_login_attempt_for_code(&local).is_some());

    let failed = ctx.fail_login_attempt(authed, NOW).unwrap();
    assert!(matches!(failed.attempt_state, LoginAttemptState::Failed));
    assert!(ctx.get_login_attempt_for_code(&local).is_none());
}

#[test]
fn provider_callback_round_trip() {
    let mut ctx = ctx();
    let created = ctx.create_login_attempt(fresh_attempt(4), NOW).unwrap();
    assert!(matches!(created.attempt_state, LoginAttemptState::Created));
    assert!(created.authz_code.is_none());

    let authed = ctx
        .set_login_provider_authz_code(created, "prov-987".to_string(), NOW)
        .unwrap();
    assert!(matches!(authed.attempt_state, LoginAttemptState::RemoteAuthenticated));
    assert_eq!(authed.provider_authz_code.as_deref(), Some("prov-987"));

    let local = authed.authz_code.clone().unwrap();
    assert_ne!(local, "prov-987");

    let found = ctx.get_login_attempt_for_code(&local).unwrap();
    assert_eq!(found.id, 4);
    assert_eq!(found.client_id, "c1");
    assert_eq!(found.redirect_uri, "https://x/cb");
    assert_eq!(found.pkce_challenge.as_deref(), Some("abc"));
    assert_eq!(found.provider_authz_code.as_deref(), Some("prov-987"));
}

#[test]
fn transition_keeps_original_client_binding() {
    let mut ctx = ctx();
    let created = ctx.create_login_attempt(fresh_attempt(5), NOW).unwrap();
    let authed = ctx
        .set_login_provider_authz_code(created, "prov-1".to_string(), NOW + 5)
        .unwrap();

    assert_eq!(authed.client_id, "c1");
    assert_eq!(authed.redirect_uri, "https://x/cb");
    assert_eq!(authed.state.as_deref(), Some("client-state"));
    assert_eq!(authed.provider, "google");
    assert_eq!(authed.created_at, NOW);
    assert_eq!(authed.updated_at, NOW + 5);
}

#[test]
fn failing_twice_is_idempotent() {
    let mut ctx = ctx();
    let created = ctx.create_login_attempt(fresh_attempt(8), NOW).unwrap();
    let failed_once = ctx.fail_login_attempt(created, NOW).unwrap();
    let failed_twice = ctx.fail_login_attempt(failed_once.clone(), NOW).unwrap();

    assert!(matches!(failed_twice.attempt_state, LoginAttemptState::Failed));
    assert_eq!(failed_twice.id, failed_once.id);
    assert_eq!(failed_twice.client_id, failed_once.client_id);
    assert_eq!(failed_twice.authz_code, failed_once.authz_code);
    assert_eq!(failed_twice.provider_authz_code, failed_once.provider_authz_code);
    assert_eq!(failed_twice.expires_at, failed_once.expires_at);
}

#[test]
fn get_login_attempt_finds_by_id() {
    let mut ctx = ctx();
    ctx.create_login_attempt(fresh_attempt(6), NOW).unwrap();
    assert!(ctx.get_login_attempt(6).is_some());
    assert!(ctx.get_login_attempt(7).is_none());
}
