use tasklist::auth::{check_claims, Account, Authenticator};
use tasklist::error::ServerError;
use tasklist::uid::Uid;

fn authenticator() -> Authenticator {
    Authenticator::new(b"a secret for tests".to_vec(), 3600)
}

#[test]
fn an_issued_token_authenticates_its_account_until_it_expires() {
    let auth = authenticator();
    let account_uid = Uid(0x1234_5678_9abc_def0_1234_5678_9abc_def0);
    let token = auth.issue_at(account_uid, 1_700_000_000).unwrap();

    assert_ne!(token, "");
    assert_eq!(token.split('.').count(), 3);
    assert_eq!(auth.authenticate_at(Some(&token), 1_700_000_000), Ok(account_uid));
    assert_eq!(auth.authenticate_at(Some(&token), 1_700_003_599), Ok(account_uid));
    assert_eq!(auth.authenticate_at(Some(&token), 1_700_003_600), Err(ServerError::ExpiredToken));
    assert_eq!(auth.authenticate_at(Some(&token), u64::MAX), Err(ServerError::ExpiredToken));
}

#[test]
fn the_same_claims_give_the_same_token() {
    let auth = authenticator();
    let first = auth.issue_at(Uid(7), 1_700_000_000).unwrap();
    let second = auth.issue_at(Uid(7), 1_700_000_000).unwrap();
    let other = auth.issue_at(Uid(8), 1_700_000_000).unwrap();

    assert_eq!(first, second);
    assert_ne!(first, other);
}

#[test]
fn a_missing_or_malformed_token_is_unauthenticated() {
    let auth = authenticator();

    assert_eq!(auth.authenticate_at(None, 0), Err(ServerError::Unauthenticated));
    assert_eq!(auth.authenticate_at(Some(""), 0), Err(ServerError::Unauthenticated));
    assert_eq!(auth.authenticate_at(Some("a.jwt.token"), 0), Err(ServerError::Unauthenticated));
    assert_eq!(auth.authenticate(None), Err(ServerError::Unauthenticated));
    assert_eq!(auth.authenticate(Some("not a token")), Err(ServerError::Unauthenticated));
}

#[test]
fn a_token_signed_with_another_secret_is_unauthenticated() {
    let auth = authenticator();
    let other = Authenticator::new(b"another secret".to_vec(), 3600);
    let token = other.issue_at(Uid(7), 1_700_000_000).unwrap();

    assert_eq!(auth.authenticate_at(Some(&token), 1_700_000_000), Err(ServerError::Unauthenticated));
    assert_eq!(other.authenticate_at(Some(&token), 1_700_000_000), Ok(Uid(7)));
}

#[test]
fn a_tampered_token_is_unauthenticated() {
    let auth = authenticator();
    let token = auth.issue_at(Uid(7), 1_700_000_000).unwrap();
    let forged = auth.issue_at(Uid(8), 1_700_000_000).unwrap();
    let parts: Vec<&str> = token.split('.').collect();
    let forged_parts: Vec<&str> = forged.split('.').collect();
    let mixed = format!("{}.{}.{}", parts[0], forged_parts[1], parts[2]);

    assert_eq!(auth.authenticate_at(Some(&mixed), 1_700_000_000), Err(ServerError::Unauthenticated));
}

#[test]
fn a_token_issued_now_authenticates_now() {
    let auth = authenticator();
    let token = auth.issue(Uid(9)).unwrap();

    assert_eq!(auth.authenticate(Some(&token)), Ok(Uid(9)));
}

#[test]
fn a_session_without_lifetime_has_expired_at_once() {
    let auth = Authenticator::new(b"a secret for tests".to_vec(), 0);
    let token = auth.issue(Uid(9)).unwrap();

    assert_eq!(auth.authenticate(Some(&token)), Err(ServerError::ExpiredToken));
}

#[test]
fn the_expiry_stops_at_the_last_second() {
    let auth = Authenticator::new(b"a secret for tests".to_vec(), u64::MAX);
    let token = auth.issue_at(Uid(9), 5).unwrap();

    assert_eq!(auth.authenticate_at(Some(&token), u64::MAX - 1), Ok(Uid(9)));
    assert_eq!(auth.authenticate_at(Some(&token), u64::MAX), Err(ServerError::ExpiredToken));
}

#[test]
fn claims_are_checked_against_the_time() {
    let claims = Account::new(Uid(3), 100);

    assert_eq!(claims.account_uid, Uid(3));
    assert_eq!(claims.exp, 100);
    assert_eq!(check_claims(Some(claims), 99), Ok(Uid(3)));
    assert_eq!(check_claims(Some(claims), 100), Err(ServerError::ExpiredToken));
    assert_eq!(check_claims(Some(claims), 101), Err(ServerError::ExpiredToken));
    assert_eq!(check_claims(None, 0), Err(ServerError::Unauthenticated));
}
