//! Rfd visibility: via the global read tag, via a direct grant, and as
//! the unauthenticated caller.

use rfd_api::authn::StaticKeySigner;
use rfd_api::authn::XorEncryptor;
use rfd_api::context::ApiContext;
use rfd_api::model::ContentFormat;
use rfd_api::model::NewRfd;
use rfd_api::model::RfdRevision;
use rfd_api::model::Visibility;
use rfd_api::permissions::ApiPermission;
use rfd_api::permissions::Caller;
use rfd_api::permissions::Permissions;
use rfd_api::rfd::get_rfd_op;
use rfd_api::rfd::get_rfds_op;
use rfd_api::rfd::RfdError;
use rfd_api::store::MemoryStore;

const NOW: i64 = 1_700_000_000;

fn revision(id: u128, rfd_id: u128, title: &str, created_at: i64) -> RfdRevision {
    RfdRevision {
        id,
        rfd_id,
        title: title.to_string(),
        state: None,
        discussion: None,
        authors: None,
        content: String::new(),
        content_format: ContentFormat::Asciidoc,
        sha: String::new(),
        commit_sha: String::new(),
        committed_at: created_at,
        created_at,
        updated_at: created_at,
        deleted_at: None,
    }
}

fn ctx() -> ApiContext<StaticKeySigner, XorEncryptor> {
    let mut storage = MemoryStore::new();
    storage.upsert_rfd(
        NewRfd { id: 1, rfd_number: 123, link: None, visibility: Visibility::Private },
        NOW,
    );
    storage.upsert_rfd(
        NewRfd { id: 2, rfd_number: 456, link: None, visibility: Visibility::Public },
        NOW,
    );
    storage.upsert_rfd(
        NewRfd { id: 3, rfd_number: 789, link: None, visibility: Visibility::Private },
        NOW,
    );
    storage.add_rfd_revision(revision(11, 1, "Private Test RFD 1", NOW));
    storage.add_rfd_revision(revision(12, 2, "Public Test RFD", NOW));
    storage.add_rfd_revision(revision(13, 3, "Private Test RFD 2", NOW));

    ApiContext::new(
        "https://api.example".to_string(),
        storage,
        Permissions::new(),
        3600,
        86400,
        vec![StaticKeySigner::new(vec![1, 2, 3, 4])],
        StaticKeySigner::new(vec![5, 6, 7, 8]),
        XorEncryptor::new(vec![9, 9]).unwrap(),
    )
    .unwrap()
}

fn caller_with(permissions: Vec<ApiPermission>) -> Caller {
    Caller { id: 99, permissions: Permissions::from_vec(permissions) }
}

#[test]
fn list_rfds_via_all_permission() {
    let ctx = ctx();
    let caller = caller_with(vec![ApiPermission::GetRfdsAll]);

    let rfds = get_rfds_op(&ctx, &caller);
    assert_eq!(3, rfds.len());
    assert_eq!(789, rfds[0].rfd_number);
    assert_eq!(456, rfds[1].rfd_number);
    assert_eq!(123, rfds[2].rfd_number);
}

#[test]
fn get_rfd_via_all_permission() {
    let ctx = ctx();
    let caller = caller_with(vec![ApiPermission::GetRfdsAll]);

    let rfd = get_rfd_op(&ctx, &caller, "0123".to_string()).unwrap();
    assert_eq!(123, rfd.rfd_number);

    let rfd = get_rfd_op(&ctx, &caller, "0456".to_string()).unwrap();
    assert_eq!(456, rfd.rfd_number);
}

#[test]
fn list_rfds_with_direct_permission() {
    let ctx = ctx();
    let caller = caller_with(vec![ApiPermission::GetRfd(123)]);

    let rfds = get_rfds_op(&ctx, &caller);
    assert_eq!(2, rfds.len());
    assert_eq!(456, rfds[0].rfd_number);
    assert_eq!(123, rfds[1].rfd_number);
}

#[test]
fn get_rfd_with_direct_permission() {
    let ctx = ctx();
    let caller = caller_with(vec![ApiPermission::GetRfd(123)]);

    let rfd = get_rfd_op(&ctx, &caller, "0123".to_string()).unwrap();
    assert_eq!(123, rfd.rfd_number);

    let rfd = get_rfd_op(&ctx, &caller, "0456".to_string()).unwrap();
    assert_eq!(456, rfd.rfd_number);
}

#[test]
fn list_rfds_without_permission() {
    let ctx = ctx();
    let caller = caller_with(vec![]);

    let rfds = get_rfds_op(&ctx, &caller);
    assert_eq!(1, rfds.len());
    assert_eq!(456, rfds[0].rfd_number);
}

#[test]
fn get_rfd_without_permission() {
    let ctx = ctx();
    let caller = caller_with(vec![]);

    let result = get_rfd_op(&ctx, &caller, "0123".to_string());
    match result {
        Err(err) => assert!(matches!(err, RfdError::NotFound)),
        Ok(response) => panic!(
            "Expected a 404 error, but instead found an RFD {:?}",
            response
        ),
    }

    let rfd = get_rfd_op(&ctx, &caller, "0456".to_string()).unwrap();
    assert_eq!(456, rfd.rfd_number);
}

#[test]
fn list_rfds_as_unauthenticated() {
    let ctx = ctx();

    let rfds = get_rfds_op(&ctx, &ctx.get_unauthenticated_caller());
    assert_eq!(1, rfds.len());
    assert_eq!(456, rfds[0].rfd_number);
}

#[test]
fn get_rfd_as_unauthenticated() {
    let ctx = ctx();
    let caller = ctx.get_unauthenticated_caller();

    let result = get_rfd_op(&ctx, &caller, "0123".to_string());
    match result {
        Err(err) => assert!(matches!(err, RfdError::NotFound)),
        Ok(response) => panic!(
            "Expected a 404 error, but instead found an RFD {:?}",
            response
        ),
    }

    let rfd = get_rfd_op(&ctx, &caller, "0456".to_string()).unwrap();
    assert_eq!(456, rfd.rfd_number);
}

#[test]
fn malformed_rfd_number_is_refused() {
    let ctx = ctx();
    let caller = caller_with(vec![ApiPermission::GetRfdsAll]);

    let result = get_rfd_op(&ctx, &caller, "not-a-number".to_string());
    assert!(matches!(result, Err(RfdError::MalformedNumber)));
}

#[test]
fn upsert_rfd_updates_in_place() {
    let mut storage = MemoryStore::new();
    storage.upsert_rfd(
        NewRfd { id: 1, rfd_number: 7, link: None, visibility: Visibility::Private },
        NOW,
    );
    storage.upsert_rfd(
        NewRfd { id: 1, rfd_number: 7, link: None, visibility: Visibility::Public },
        NOW + 1,
    );
    storage.add_rfd_revision(revision(11, 1, "now public", NOW));
    let ctx = ApiContext::new(
        "https://api.example".to_string(),
        storage,
        Permissions::new(),
        3600,
        86400,
        vec![StaticKeySigner::new(vec![1])],
        StaticKeySigner::new(vec![2]),
        XorEncryptor::new(vec![3]).unwrap(),
    )
    .unwrap();

    let rfds = get_rfds_op(&ctx, &ctx.get_unauthenticated_caller());
    assert_eq!(1, rfds.len());
    assert_eq!(7, rfds[0].rfd_number);
}

#[test]
fn latest_revision_wins() {
    let mut storage = MemoryStore::new();
    storage.upsert_rfd(
        NewRfd { id: 1, rfd_number: 5, link: None, visibility: Visibility::Public },
        NOW,
    );
    storage.add_rfd_revision(revision(11, 1, "old title", NOW));
    storage.add_rfd_revision(revision(12, 1, "new title", NOW + 100));
    let ctx = ApiContext::new(
        "https://api.example".to_string(),
        storage,
        Permissions::new(),
        3600,
        86400,
        vec![StaticKeySigner::new(vec![1])],
        StaticKeySigner::new(vec![2]),
        XorEncryptor::new(vec![3]).unwrap(),
    )
    .unwrap();

    let rfd = get_rfd_op(&ctx, &ctx.get_unauthenticated_caller(), "5".to_string()).unwrap();
    assert_eq!(rfd.title, "new title");
}
