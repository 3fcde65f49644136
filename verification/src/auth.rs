//! Stateless sessions: signed tokens that carry an account's identity and
//! an expiry, issued at login and checked on every request.

use vstd::prelude::*;

use crate::error::ServerError;
use crate::time::current_timestamp;
use crate::uid::Uid;

verus! {

/// The claims of a session token: whose session it is, and the second,
/// counted from 1 January 1970, from which on it is no longer valid.
#[derive(Copy, Clone, Debug, PartialEq, Eq, Structural)]
pub struct Account {
    pub account_uid: Uid,
    pub exp: u64,
}

impl Account {
    pub fn new(account_uid: Uid, exp: u64) -> (claims: Account)
        ensures
            claims == (Account { account_uid, exp }),
    {
        Account { account_uid, exp }
    }

    /// Whether the claims have expired at `now`: a token is valid strictly
    /// before its expiry.
    pub open spec fn expired_at(self, now: u64) -> bool {
        now >= self.exp
    }
}

/// The token that `jsonwebtoken::encode` makes of the claims under the
/// secret, with its default header; `None` where it fails.
pub uninterp spec fn signed_token(claims: Account, secret: Seq<u8>) -> Option<Seq<char>>;

/// The claims that `jsonwebtoken::decode` reads from a token whose signature
/// it has verified under the secret, no expiry checked; `None` where the
/// token is malformed, not signed with the secret, or holds other claims.
pub uninterp spec fn verified_claims(token: Seq<char>, secret: Seq<u8>) -> Option<Account>;

/// Makes `jsonwebtoken::errors::Error` known as a type; nothing is read
/// from it.
#[verifier::external_type_specification]
#[verifier::external_body]
pub struct ExTokenError(jsonwebtoken::errors::Error);

/// Calls `jsonwebtoken::encode` with the default header (HS256) and the
/// secret as the key, on the claims `account_uid`, as a UUID in text, and
/// `exp`. The token depends on the claims and the secret alone.
#[verifier::external_body]
fn encode_claims(claims: &Account, secret: &Vec<u8>) -> (token: Result<
    String,
    jsonwebtoken::errors::Error,
>)
    ensures
        match token {
            Ok(t) => signed_token(*claims, secret@) == Some(t@),
            Err(_) => signed_token(*claims, secret@) is None,
        },
{
    let mut map = std::collections::BTreeMap::new();
    let account_uid = uuid::Uuid::from_u128(claims.account_uid.0).to_string();
    map.insert("account_uid", serde_json::Value::from(account_uid));
    map.insert("exp", serde_json::Value::from(claims.exp));
    let key = jsonwebtoken::EncodingKey::from_secret(secret);
    jsonwebtoken::encode(&jsonwebtoken::Header::default(), &map, &key)
}

/// Calls `jsonwebtoken::decode` with the secret as the key and the default
/// validation (HS256, `exp` required) but for the check of the expiry
/// against the clock, which is switched off: so the answer depends on the
/// token and the secret alone. The claims are handed on where `account_uid`
/// is a UUID in text and `exp` a number.
#[verifier::external_body]
fn decode_claims(token: &str, secret: &Vec<u8>) -> (claims: Option<Account>)
    ensures
        claims == verified_claims(token@, secret@),
{
    let mut validation = jsonwebtoken::Validation::default();
    validation.validate_exp = false;
    let key = jsonwebtoken::DecodingKey::from_secret(secret);
    let data = jsonwebtoken::decode::<std::collections::BTreeMap<String, serde_json::Value>>(
        token,
        &key,
        &validation,
    ).ok()?;
    let account_uid = uuid::Uuid::parse_str(data.claims.get("account_uid")?.as_str()?).ok()?;
    let exp = data.claims.get("exp")?.as_u64()?;
    Some(Account { account_uid: Uid(account_uid.as_u128()), exp })
}

/// The key material and the lifetime of sessions. Made once, never
/// changed.
pub struct Authenticator {
    secret: Vec<u8>,
    lifetime: u64,
}

impl Authenticator {
    /// The secret that tokens are signed with.
    pub closed spec fn secret(&self) -> Seq<u8> {
        self.secret@
    }

    /// The seconds for which a token is valid.
    pub closed spec fn lifetime(&self) -> u64 {
        self.lifetime
    }

    /// The expiry of a token issued at `now`: `lifetime` seconds later, or
    /// the last second that can be written.
    pub open spec fn expiry(&self, now: u64) -> u64 {
        if now + self.lifetime() > u64::MAX {
            u64::MAX
        } else {
            (now + self.lifetime()) as u64
        }
    }

    /// The token that is issued for the account at `now`: what the signing
    /// makes of the account's identity and the expiry of that second, under
    /// the secret; `None` where the signing fails.
    pub open spec fn issued(&self, account_uid: Uid, now: u64) -> Option<Seq<char>> {
        signed_token(Account { account_uid, exp: self.expiry(now) }, self.secret())
    }

    /// What a check at `now` makes of a token: `Unauthenticated` where
    /// there is none or it does not verify, `ExpiredToken` where it
    /// verifies and has expired, the identity in it otherwise.
    pub open spec fn outcome(&self, token: Option<Seq<char>>, now: u64) -> Result<
        Uid,
        ServerError,
    > {
        match token {
            None => Err(ServerError::Unauthenticated),
            Some(t) => check_outcome(verified_claims(t, self.secret()), now),
        }
    }

    pub fn new(secret: Vec<u8>, lifetime: u64) -> (authenticator: Authenticator)
        ensures
            authenticator.secret() == secret@,
            authenticator.lifetime() == lifetime,
    {
        Authenticator { secret, lifetime }
    }

    /// Issues a token for the account at the second `now`. It expires
    /// `lifetime` seconds later. `None` where the signing fails.
    pub fn issue_at(&self, account_uid: Uid, now: u64) -> (token: Option<String>)
        ensures
            issued_text(token) == self.issued(account_uid, now),
    {
        let exp: u64 = if now > u64::MAX - self.lifetime {
            u64::MAX
        } else {
            now + self.lifetime
        };
        let claims = Account::new(account_uid, exp);
        match encode_claims(&claims, &self.secret) {
            Ok(token) => Some(token),
            Err(_) => None,
        }
    }

    /// Issues a token for the account now, by the clock: what `issue_at`
    /// gives for the second that the clock shows, a token where the signing
    /// succeeds for that second and `None` where it fails.
    pub fn issue(&self, account_uid: Uid) -> (token: Option<String>)
        ensures
            exists|now: u64| issued_text(token) == #[trigger] self.issued(account_uid, now),
    {
        let now = current_timestamp().unix_seconds();
        self.issue_at(account_uid, now)
    }

    /// Checks the token of a request at the second `now`.
    pub fn authenticate_at(&self, token: Option<&str>, now: u64) -> (result: Result<
        Uid,
        ServerError,
    >)
        ensures
            result == self.outcome(token_text(token), now),
    {
        match token {
            None => Err(ServerError::Unauthenticated),
            Some(t) => check_claims(decode_claims(t, &self.secret), now),
        }
    }

    /// Checks the token of a request now, by the clock.
    pub fn authenticate(&self, token: Option<&str>) -> (result: Result<Uid, ServerError>)
        ensures
            exists|now: u64| result == #[trigger] self.outcome(token_text(token), now),
    {
        let now = current_timestamp().unix_seconds();
        self.authenticate_at(token, now)
    }
}

/// The text of the token that was issued, if one was.
pub open spec fn issued_text(token: Option<String>) -> Option<Seq<char>> {
    match token {
        Some(t) => Some(t@),
        None => None,
    }
}

/// The text of the token that a request carries, if it carries one.
pub open spec fn token_text(token: Option<&str>) -> Option<Seq<char>> {
    match token {
        Some(t) => Some(t@),
        None => None,
    }
}

/// What a check at `now` makes of the claims read from a token.
pub open spec fn check_outcome(claims: Option<Account>, now: u64) -> Result<Uid, ServerError> {
    match claims {
        None => Err(ServerError::Unauthenticated),
        Some(c) => if c.expired_at(now) {
            Err(ServerError::ExpiredToken)
        } else {
            Ok(c.account_uid)
        },
    }
}

/// Decides on the claims read from a token: no claims, no session; expired
/// claims are told apart from that; claims in force give the identity.
pub fn check_claims(claims: Option<Account>, now: u64) -> (result: Result<Uid, ServerError>)
    ensures
        result == check_outcome(claims, now),
{
    match claims {
        None => Err(ServerError::Unauthenticated),
        Some(c) => if now >= c.exp {
            Err(ServerError::ExpiredToken)
        } else {
            Ok(c.account_uid)
        },
    }
}

/// Expiry is enforced and final: a token that has expired at one time has
/// expired at every later time, and no expired token is accepted.
pub proof fn expired_stays_expired(claims: Account, now: u64, later: u64)
    requires
        claims.expired_at(now),
        now <= later,
    ensures
        claims.expired_at(later),
        check_outcome(Some(claims), later) == Err::<Uid, ServerError>(ServerError::ExpiredToken),
{
}

} // verus!
