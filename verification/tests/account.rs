use tasklist::error::ServerError;
use tasklist::persistence::account::{
    accepted, create_account, fetch_account_by_email, register, verify, EmailAddress,
    HashedPassword,
};
use tasklist::persistence::Store;
use tasklist::uid::Uid;
use uuid::Uuid;

#[test]
fn non_existent_email_addresses_return_no_results() {
    let store = Store::new();
    let account = fetch_account_by_email(&store, EmailAddress::from("example@domain.com"));

    assert!(account.is_none());
}

#[test]
fn accounts_can_be_created() {
    let mut store = Store::new();
    let account_uid = Uid(Uuid::new_v4().as_u128());
    let email_address = EmailAddress::from("john@gmail.com");
    let password = HashedPassword::from_raw("password").unwrap();

    create_account(&mut store, account_uid, &email_address, &password).unwrap();

    let account = fetch_account_by_email(&store, email_address);

    assert_eq!(account.map(|a| a.account_uid), Some(account_uid));
}

#[test]
fn cannot_create_multiple_accounts_with_same_email() {
    let mut store = Store::new();
    let email_address = EmailAddress::from("john@gmail.com");
    let password = HashedPassword::from_raw("password").unwrap();

    create_account(&mut store, Uid(Uuid::new_v4().as_u128()), &email_address, &password).unwrap();

    let res = create_account(&mut store, Uid(Uuid::new_v4().as_u128()), &email_address, &password);

    assert!(res.is_err_and(|e| e == ServerError::DuplicateEmail));
}

#[test]
fn email_addresses_are_normalised_to_lower_case() {
    assert_eq!(EmailAddress::from("John@Gmail.COM").as_str(), "john@gmail.com");
    assert_eq!(EmailAddress::from("john@gmail.com").as_str(), "john@gmail.com");
    assert_eq!(EmailAddress::from("").as_str(), "");
}

#[test]
fn addresses_that_differ_in_case_are_the_same_account() {
    let mut store = Store::new();
    let password = HashedPassword::from_hashing(Ok(String::from("not a hash"))).unwrap();

    create_account(&mut store, Uid(1), &EmailAddress::from("Alice@Example.com"), &password).unwrap();
    let res = create_account(&mut store, Uid(2), &EmailAddress::from("alice@example.COM"), &password);

    assert_eq!(res, Err(ServerError::DuplicateEmail));
    let found = fetch_account_by_email(&store, EmailAddress::from("ALICE@EXAMPLE.COM")).unwrap();
    assert_eq!(found.account_uid, Uid(1));
    assert_eq!(found.email_address, "alice@example.com");
    assert_eq!(found.password, "not a hash");
    assert_eq!(found.duplicate().account_uid, Uid(1));
}

#[test]
fn an_identity_cannot_be_written_twice() {
    let mut store = Store::new();
    let password = HashedPassword::from_hashing(Ok(String::from("not a hash"))).unwrap();

    create_account(&mut store, Uid(1), &EmailAddress::from("a@example.com"), &password).unwrap();
    let res = create_account(&mut store, Uid(1), &EmailAddress::from("b@example.com"), &password);

    assert_eq!(res, Err(ServerError::StoreError));
    assert!(fetch_account_by_email(&store, EmailAddress::from("b@example.com")).is_none());
    assert!(store.has_account(Uid(1)));
}

#[test]
fn a_hash_is_not_the_password_and_matches_it_alone() {
    let hashed = HashedPassword::from_raw("password").unwrap();

    assert_ne!(hashed.as_str(), "password");
    assert!(hashed.as_str().starts_with("$2b$12$"));
    assert!(hashed.matches("password"));
    assert!(!hashed.matches("Password"));
}

#[test]
fn a_known_hash_is_checked() {
    let hashed = HashedPassword::from_hashing(Ok(String::from(
        "$2b$04$EGdrhbKUv8Oc9vGiXX0HQOxSg445d458Muh7DAHskb6QbtCvdxcie",
    )))
    .unwrap();

    assert!(hashed.matches("correctbatteryhorsestapler"));
    assert!(!hashed.matches("wrong"));
    assert!(!hashed.matches(""));
}

#[test]
fn a_text_that_is_no_hash_matches_nothing() {
    let hashed = HashedPassword::from_hashing(Ok(String::from("password"))).unwrap();
    assert!(!hashed.matches("password"));
}

#[test]
fn a_failed_hashing_is_a_hashing_failure() {
    let failed = HashedPassword::from_hashing(Err(bcrypt::BcryptError::CostNotAllowed(99)));
    assert!(failed.is_err_and(|e| e == ServerError::HashingFailure));
}

#[test]
fn only_a_clear_yes_is_accepted() {
    assert!(accepted(Ok(true)));
    assert!(!accepted(Ok(false)));
    assert!(!accepted(Err(bcrypt::BcryptError::InvalidHash(String::from("x")))));
}

#[test]
fn a_registered_account_logs_in_with_its_password_only() {
    let mut store = Store::new();
    let account_uid = register(&mut store, "Alice@Example.com", "pw1").unwrap();

    assert_eq!(verify(&store, "alice@example.com", "pw1"), Some(account_uid));
    assert_eq!(verify(&store, "ALICE@example.com", "pw2"), None);
}

#[test]
fn an_unknown_address_does_not_log_in() {
    let store = Store::new();
    assert_eq!(verify(&store, "nobody@example.com", "pw1"), None);
}

#[test]
fn registering_an_address_twice_is_a_duplicate() {
    let mut store = Store::new();
    let first = register(&mut store, "alice@example.com", "pw1").unwrap();

    assert_eq!(register(&mut store, "ALICE@example.com", "pw2"), Err(ServerError::DuplicateEmail));
    let found = fetch_account_by_email(&store, EmailAddress::from("alice@example.com")).unwrap();
    assert_eq!(found.account_uid, first);
}
