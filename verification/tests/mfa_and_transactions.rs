use users_repo::errors::RepoError;
use users_repo::executor::{add_mfa_method_with_executor, create_user_with_executor};
use users_repo::records::Uuid;
use users_repo::store::StoreState;

#[test]
fn add_mfa_method_round_trips_through_listing() {
    let mut store = StoreState::new();
    let user = store.create_user("a@x.com").unwrap();
    let method = store.add_mfa_method(user.id, "totp", "S1").unwrap();
    assert!(method.id.value != 0);
    assert_eq!(method.user_id, user.id);
    assert_eq!(method.kind, "totp");
    assert_eq!(method.secret, "S1");
    assert_eq!(method.created_at, method.updated_at);
    let listed = store.list_mfa_methods(user.id).unwrap();
    assert_eq!(listed.len(), 1);
    assert_eq!(listed[0].id, method.id);
    assert_eq!(listed[0].user_id, method.user_id);
    assert_eq!(listed[0].kind, method.kind);
    assert_eq!(listed[0].secret, method.secret);
    assert_eq!(listed[0].created_at, method.created_at);
    assert_eq!(listed[0].updated_at, method.updated_at);
}

#[test]
fn add_mfa_method_with_dangling_user_id_is_a_constraint_violation() {
    let mut store = StoreState::new();
    let dangling = Uuid { value: 41 };
    let refused = store.add_mfa_method(dangling, "totp", "S1");
    assert!(matches!(refused, Err(RepoError::ConstraintViolation)));
}

#[test]
fn listing_is_sorted_by_created_at_and_scoped_to_the_user() {
    let mut store = StoreState::new();
    let alice = store.create_user("alice@x.com").unwrap();
    let bob = store.create_user("bob@x.com").unwrap();
    let first = store.add_mfa_method(alice.id, "totp", "S1").unwrap();
    store.add_mfa_method(bob.id, "webauthn", "S2").unwrap();
    let second = store.add_mfa_method(alice.id, "webauthn", "S3").unwrap();
    let third = store.add_mfa_method(alice.id, "totp", "S4").unwrap();
    let listed = store.list_mfa_methods(alice.id).unwrap();
    assert_eq!(listed.len(), 3);
    assert_eq!(listed[0].id, first.id);
    assert_eq!(listed[1].id, second.id);
    assert_eq!(listed[2].id, third.id);
    for window in listed.windows(2) {
        assert!(window[0].created_at.micros <= window[1].created_at.micros);
    }
    for entry in &listed {
        assert_eq!(entry.user_id, alice.id);
    }
}

#[test]
fn listing_for_a_user_without_methods_is_empty_not_an_error() {
    let mut store = StoreState::new();
    let user = store.create_user("a@x.com").unwrap();
    let listed = store.list_mfa_methods(user.id).unwrap();
    assert!(listed.is_empty());
    let unknown = store.list_mfa_methods(Uuid { value: 1234 }).unwrap();
    assert!(unknown.is_empty());
}

#[test]
fn deleting_the_same_mfa_id_twice_fails_the_second_time() {
    let mut store = StoreState::new();
    let user = store.create_user("a@x.com").unwrap();
    let method = store.add_mfa_method(user.id, "totp", "S1").unwrap();
    assert!(matches!(store.delete_mfa_method(method.id), Ok(())));
    assert!(matches!(store.delete_mfa_method(method.id), Err(RepoError::AffectedMismatch)));
    let listed = store.list_mfa_methods(user.id).unwrap();
    assert!(listed.is_empty());
}

#[test]
fn create_user_with_mfa_succeeds_end_to_end() {
    let mut store = StoreState::new();
    let (user, method) = store.create_user_with_mfa("a@x.com", "totp", "S1").unwrap();
    assert_eq!(user.email, "a@x.com");
    assert_eq!(method.kind, "totp");
    assert_eq!(method.secret, "S1");
    assert_eq!(method.user_id, user.id);
    assert!(user.id.value != 0);
    assert!(method.id.value != 0);
    assert!(user.id != method.id);
    let fetched = store.get_user_by_email("a@x.com").unwrap();
    assert_eq!(fetched.id, user.id);
    let listed = store.list_mfa_methods(user.id).unwrap();
    assert_eq!(listed.len(), 1);
    assert_eq!(listed[0].id, method.id);
}

#[test]
fn failed_composite_operation_leaves_no_partial_state() {
    let mut store = StoreState::new();
    let existing = store.create_user("a@x.com").unwrap();
    let refused = store.create_user_with_mfa("a@x.com", "totp", "S1");
    assert!(matches!(refused, Err(RepoError::ConstraintViolation)));
    // The only row with that email is still the original one, and no MFA row
    // appeared anywhere.
    let fetched = store.get_user_by_email("a@x.com").unwrap();
    assert_eq!(fetched.id, existing.id);
    assert_eq!(fetched.updated_at, existing.updated_at);
    assert!(store.list_mfa_methods(existing.id).unwrap().is_empty());
}

#[test]
fn executor_functions_run_standalone_against_the_store() {
    let mut store = StoreState::new();
    let user = create_user_with_executor(&mut store, "a@x.com").unwrap();
    let method = add_mfa_method_with_executor(&mut store, user.id, "totp", "S1").unwrap();
    assert_eq!(method.user_id, user.id);
    assert_eq!(store.get_user_by_email("a@x.com").unwrap().id, user.id);
}

#[test]
fn executor_functions_run_inside_a_transaction_and_commit_publishes() {
    let mut store = StoreState::new();
    let mut tx = store.begin();
    let user = create_user_with_executor(&mut tx, "a@x.com").unwrap();
    let method = add_mfa_method_with_executor(&mut tx, user.id, "totp", "S1").unwrap();
    // Before the commit the store still shows nothing.
    assert!(matches!(store.get_user_by_email("a@x.com"), Err(RepoError::NotFound)));
    store.commit(tx);
    assert_eq!(store.get_user_by_email("a@x.com").unwrap().id, user.id);
    assert_eq!(store.list_mfa_methods(user.id).unwrap()[0].id, method.id);
}

#[test]
fn dropping_a_transaction_rolls_it_back() {
    let mut store = StoreState::new();
    {
        let mut tx = store.begin();
        create_user_with_executor(&mut tx, "a@x.com").unwrap();
    }
    assert!(matches!(store.get_user_by_email("a@x.com"), Err(RepoError::NotFound)));
}
