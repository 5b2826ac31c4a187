//! The permission algebra: coverage, intersection, and expansion.

use rfd_api::model::ApiUser;
use rfd_api::permissions::ApiPermission;
use rfd_api::permissions::Permissions;

fn as_sorted_debug(p: &Permissions) -> Vec<String> {
    let mut v: Vec<String> = p.inner().iter().map(|t| format!("{:?}", t)).collect();
    v.sort();
    v.dedup();
    v
}

fn same_set(a: &Permissions, b: &Permissions) -> bool {
    as_sorted_debug(a) == as_sorted_debug(b)
}

fn user_with(ceiling: Vec<ApiPermission>) -> ApiUser {
    ApiUser {
        id: 77,
        permissions: Permissions::from_vec(ceiling),
        created_at: 0,
        updated_at: 0,
        deleted_at: None,
    }
}

#[test]
fn covers_global_subsumes_scoped() {
    let set = Permissions::from_vec(vec![ApiPermission::GetRfdsAll]);
    assert!(set.can(&ApiPermission::GetRfd(123)));
    assert!(set.can(&ApiPermission::GetRfdsAll));
    assert!(!set.can(&ApiPermission::SearchRfds));
    assert!(!set.can(&ApiPermission::GetRfdsAssigned));
}

#[test]
fn intersect_is_commutative() {
    let a = Permissions::from_vec(vec![
        ApiPermission::GetRfdsAll,
        ApiPermission::SearchRfds,
        ApiPermission::GetApiUser(1),
    ]);
    let b = Permissions::from_vec(vec![
        ApiPermission::GetRfd(5),
        ApiPermission::SearchRfds,
        ApiPermission::GetApiUserAll,
    ]);

    assert!(same_set(&a.intersect(&b), &b.intersect(&a)));
}

#[test]
fn intersect_is_idempotent() {
    let a = Permissions::from_vec(vec![
        ApiPermission::GetRfdsAll,
        ApiPermission::SearchRfds,
        ApiPermission::CreateApiUserToken(9),
    ]);

    assert!(same_set(&a.intersect(&a), &a));
}

#[test]
fn intersect_keeps_most_specific_variant() {
    let a = Permissions::from_vec(vec![ApiPermission::GetRfdsAll]);
    let b = Permissions::from_vec(vec![ApiPermission::GetRfd(5)]);

    let meet = a.intersect(&b);
    assert!(meet.can(&ApiPermission::GetRfd(5)));
    assert!(!meet.can(&ApiPermission::GetRfd(6)));
    assert!(!meet.can(&ApiPermission::GetRfdsAll));
}

#[test]
fn intersect_of_different_scoped_variants_is_empty() {
    let a = Permissions::from_vec(vec![ApiPermission::GetRfd(1)]);
    let b = Permissions::from_vec(vec![ApiPermission::GetRfd(2)]);

    assert!(a.intersect(&b).is_empty());
}

#[test]
fn covers_on_intersection_agrees_with_both_operands() {
    let a = Permissions::from_vec(vec![ApiPermission::GetRfdsAll, ApiPermission::SearchRfds]);
    let b = Permissions::from_vec(vec![ApiPermission::GetRfd(1), ApiPermission::GetRfd(2)]);
    let meet = a.intersect(&b);

    let probes = [
        ApiPermission::GetRfd(1),
        ApiPermission::GetRfd(2),
        ApiPermission::GetRfd(3),
        ApiPermission::GetRfdsAll,
        ApiPermission::SearchRfds,
    ];
    for p in probes.iter() {
        assert_eq!(meet.can(p), a.can(p) && b.can(p));
    }
}

#[test]
fn expand_resolves_relative_variants() {
    let user = user_with(vec![ApiPermission::GetRfd(123), ApiPermission::GetRfd(456)]);
    let set = Permissions::from_vec(vec![
        ApiPermission::GetRfdsAssigned,
        ApiPermission::CreateApiUserTokenSelf,
        ApiPermission::SearchRfds,
    ]);

    let expanded = set.expand(&user);
    assert!(expanded.can(&ApiPermission::GetRfd(123)));
    assert!(expanded.can(&ApiPermission::GetRfd(456)));
    assert!(expanded.can(&ApiPermission::CreateApiUserToken(77)));
    assert!(expanded.can(&ApiPermission::SearchRfds));
    assert!(!expanded.can(&ApiPermission::GetRfdsAssigned));
    assert!(!expanded.can(&ApiPermission::GetRfd(789)));
}

#[test]
fn expand_is_idempotent() {
    let user = user_with(vec![ApiPermission::GetRfd(123), ApiPermission::GetRfd(456)]);
    let set = Permissions::from_vec(vec![
        ApiPermission::GetRfdsAssigned,
        ApiPermission::GetApiUserSelf,
        ApiPermission::SearchRfds,
    ]);

    let once = set.expand(&user);
    let twice = once.expand(&user);
    assert!(same_set(&once, &twice));
}

#[test]
fn display_labels_follow_the_wire_form() {
    assert_eq!(ApiPermission::GetRfdsAll.to_display_string(), "get-rfds-all");
    assert_eq!(ApiPermission::GetRfd(123).to_display_string(), "get-rfd:123");
    assert_eq!(ApiPermission::SearchRfds.to_display_string(), "search-rfds");
    assert_eq!(
        ApiPermission::CreateApiUserToken(0).to_display_string(),
        "create-token:00000000-0000-0000-0000-000000000000"
    );
}

#[test]
fn insert_collapses_duplicates() {
    let mut set = Permissions::new();
    set.insert(ApiPermission::SearchRfds);
    set.insert(ApiPermission::SearchRfds);
    assert_eq!(set.inner().len(), 1);
}
