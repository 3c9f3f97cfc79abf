use users_repo::errors::{ensure_affected, RepoError};
use users_repo::records::Uuid;
use users_repo::store::StoreState;

#[test]
fn create_then_get_by_email_round_trips() {
    let mut store = StoreState::new();
    let created = store.create_user("a@x.com").unwrap();
    assert_eq!(created.email, "a@x.com");
    assert_eq!(created.created_at, created.updated_at);
    let fetched = store.get_user_by_email("a@x.com").unwrap();
    assert_eq!(fetched.id, created.id);
    assert_eq!(fetched.email, created.email);
    assert_eq!(fetched.created_at, created.created_at);
    assert_eq!(fetched.updated_at, created.updated_at);
}

#[test]
fn create_then_get_by_id_round_trips() {
    let mut store = StoreState::new();
    let created = store.create_user("b@x.com").unwrap();
    assert!(created.id.value != 0);
    let fetched = store.get_user_by_id(created.id).unwrap();
    assert_eq!(fetched.id, created.id);
    assert_eq!(fetched.email, created.email);
    assert_eq!(fetched.created_at, created.created_at);
    assert_eq!(fetched.updated_at, created.updated_at);
}

#[test]
fn duplicate_email_is_a_constraint_violation() {
    let mut store = StoreState::new();
    store.create_user("a@x.com").unwrap();
    let second = store.create_user("a@x.com");
    assert!(matches!(second, Err(RepoError::ConstraintViolation)));
}

#[test]
fn missing_id_fails_lookup_and_delete() {
    let mut store = StoreState::new();
    store.create_user("a@x.com").unwrap();
    let missing = Uuid { value: 999_999 };
    assert!(matches!(store.get_user_by_id(missing), Err(RepoError::NotFound)));
    assert!(matches!(store.delete_user(missing), Err(RepoError::AffectedMismatch)));
}

#[test]
fn missing_email_fails_lookup() {
    let store = StoreState::new();
    assert!(matches!(store.get_user_by_email("nobody@x.com"), Err(RepoError::NotFound)));
}

#[test]
fn update_email_bumps_updated_at_and_keeps_created_at() {
    let mut store = StoreState::new();
    let created = store.create_user("a@x.com").unwrap();
    let updated = store.update_user_email(created.id, "a2@x.com").unwrap();
    assert_eq!(updated.id, created.id);
    assert_eq!(updated.email, "a2@x.com");
    assert_eq!(updated.created_at, created.created_at);
    assert!(updated.updated_at.micros > created.updated_at.micros);
    let fetched = store.get_user_by_id(created.id).unwrap();
    assert_eq!(fetched.email, "a2@x.com");
    assert!(matches!(store.get_user_by_email("a@x.com"), Err(RepoError::NotFound)));
}

#[test]
fn update_email_of_missing_id_is_not_found() {
    let mut store = StoreState::new();
    let missing = Uuid { value: 7 };
    assert!(matches!(store.update_user_email(missing, "x@x.com"), Err(RepoError::NotFound)));
}

#[test]
fn update_email_to_a_taken_email_is_a_constraint_violation() {
    let mut store = StoreState::new();
    let first = store.create_user("a@x.com").unwrap();
    store.create_user("b@x.com").unwrap();
    let clash = store.update_user_email(first.id, "b@x.com");
    assert!(matches!(clash, Err(RepoError::ConstraintViolation)));
}

#[test]
fn update_email_to_its_own_email_succeeds() {
    let mut store = StoreState::new();
    let created = store.create_user("a@x.com").unwrap();
    let updated = store.update_user_email(created.id, "a@x.com").unwrap();
    assert_eq!(updated.email, "a@x.com");
    assert!(updated.updated_at.micros > created.updated_at.micros);
}

#[test]
fn delete_user_removes_the_row() {
    let mut store = StoreState::new();
    let created = store.create_user("a@x.com").unwrap();
    store.delete_user(created.id).unwrap();
    assert!(matches!(store.get_user_by_id(created.id), Err(RepoError::NotFound)));
    assert!(matches!(store.delete_user(created.id), Err(RepoError::AffectedMismatch)));
}

#[test]
fn delete_user_with_mfa_methods_is_a_constraint_violation() {
    let mut store = StoreState::new();
    let user = store.create_user("a@x.com").unwrap();
    store.add_mfa_method(user.id, "totp", "S1").unwrap();
    assert!(matches!(store.delete_user(user.id), Err(RepoError::ConstraintViolation)));
    assert!(store.get_user_by_id(user.id).is_ok());
}

#[test]
fn identifiers_are_distinct_and_never_reused() {
    let mut store = StoreState::new();
    let a = store.create_user("a@x.com").unwrap();
    let b = store.create_user("b@x.com").unwrap();
    assert_ne!(a.id, b.id);
    store.delete_user(b.id).unwrap();
    let c = store.create_user("c@x.com").unwrap();
    assert_ne!(c.id, a.id);
    assert_ne!(c.id, b.id);
}

#[test]
fn delete_user_succeeds_once_its_mfa_methods_are_gone() {
    let mut store = StoreState::new();
    let user = store.create_user("a@x.com").unwrap();
    let method = store.add_mfa_method(user.id, "totp", "S1").unwrap();
    assert!(matches!(store.delete_user(user.id), Err(RepoError::ConstraintViolation)));
    store.delete_mfa_method(method.id).unwrap();
    store.delete_user(user.id).unwrap();
    assert!(matches!(store.get_user_by_id(user.id), Err(RepoError::NotFound)));
}

#[test]
fn later_rows_carry_later_timestamps() {
    let mut store = StoreState::new();
    let a = store.create_user("a@x.com").unwrap();
    let b = store.create_user("b@x.com").unwrap();
    assert!(a.created_at.micros < b.created_at.micros);
}

#[test]
fn ensure_affected_accepts_only_the_expected_count() {
    assert!(matches!(ensure_affected(1, 1), Ok(())));
    assert!(matches!(ensure_affected(1, 0), Err(RepoError::AffectedMismatch)));
    assert!(matches!(ensure_affected(1, 2), Err(RepoError::AffectedMismatch)));
}
