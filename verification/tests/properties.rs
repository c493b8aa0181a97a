use credential_store::hashing::{hash_password, verify_password};
use credential_store::{AuthError, Users, UsersImpl};

#[test]
fn scenario_alice() {
    let mut store = UsersImpl::default();
    store
        .create_user("alice".to_owned(), "s3cret".to_owned())
        .expect("creating alice should succeed");

    let token_a = store
        .get_user_uuid("alice".to_owned(), "s3cret".to_owned())
        .expect("the right password should authenticate");
    assert!(store
        .get_user_uuid("alice".to_owned(), "wrong".to_owned())
        .is_none());

    let taken = store.create_user("alice".to_owned(), "anything".to_owned());
    assert_eq!(taken, Err(AuthError::UsernameTaken));
    assert_eq!(store.user_count(), 1);

    store.delete_user(token_a.clone());
    assert!(store
        .get_user_uuid("alice".to_owned(), "s3cret".to_owned())
        .is_none());

    // deleting the same token again is a silent no-op, never an error
    store.delete_user(token_a);
    assert_eq!(store.user_count(), 0);
}

#[test]
fn hash_round_trip() {
    let d1 = hash_password("hunter2").expect("hashing should succeed");
    let d2 = hash_password("hunter2").expect("hashing should succeed");

    // a fresh random salt per call: equal passwords, different digests
    assert_ne!(d1, d2);

    // yet both digests verify against the password they were derived from
    assert!(verify_password("hunter2", &d1));
    assert!(verify_password("hunter2", &d2));

    // and neither verifies a different password
    assert!(!verify_password("Hunter2", &d1));
    assert!(!verify_password("", &d1));
}

#[test]
fn digest_is_not_the_plaintext() {
    let d = hash_password("password").expect("hashing should succeed");
    assert_ne!(d, "password");
    // a plaintext is not a well-formed digest string, so it verifies as false
    assert!(!verify_password("password", "password"));
}

#[test]
fn tokens_are_unique_per_user() {
    let mut store = UsersImpl::default();
    store
        .create_user("alice".to_owned(), "same-password".to_owned())
        .expect("creating alice should succeed");
    store
        .create_user("bob".to_owned(), "same-password".to_owned())
        .expect("creating bob should succeed");

    let token_a = store
        .get_user_uuid("alice".to_owned(), "same-password".to_owned())
        .expect("alice should authenticate");
    let token_b = store
        .get_user_uuid("bob".to_owned(), "same-password".to_owned())
        .expect("bob should authenticate");
    assert_ne!(token_a, token_b);
    assert_eq!(store.user_count(), 2);
}

#[test]
fn unknown_username_and_wrong_password_look_alike() {
    let mut store = UsersImpl::default();
    store
        .create_user("carol".to_owned(), "pw".to_owned())
        .expect("creating carol should succeed");

    let wrong_password = store.get_user_uuid("carol".to_owned(), "pw2".to_owned());
    let unknown_user = store.get_user_uuid("never-registered".to_owned(), "pw".to_owned());
    assert_eq!(wrong_password, None);
    assert_eq!(unknown_user, None);
}

#[test]
fn empty_store_finds_nothing_and_delete_is_a_noop() {
    let mut store = UsersImpl::default();
    assert_eq!(store.user_count(), 0);
    assert!(store
        .get_user_uuid("ghost".to_owned(), "pw".to_owned())
        .is_none());
    store.delete_user("no-such-token".to_owned());
    assert_eq!(store.user_count(), 0);
}

#[test]
fn recreating_a_deleted_username_mints_a_new_token() {
    let mut store = UsersImpl::default();
    store
        .create_user("dave".to_owned(), "pw".to_owned())
        .expect("creating dave should succeed");
    let first = store
        .get_user_uuid("dave".to_owned(), "pw".to_owned())
        .expect("dave should authenticate");

    store.delete_user(first.clone());
    store
        .create_user("dave".to_owned(), "pw".to_owned())
        .expect("recreating dave should succeed");
    let second = store
        .get_user_uuid("dave".to_owned(), "pw".to_owned())
        .expect("dave should authenticate again");

    assert_ne!(first, second);
    // the old token no longer deletes anything
    store.delete_user(first);
    assert_eq!(store.user_count(), 1);
}
