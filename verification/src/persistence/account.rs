//! Accounts and their credentials: normalised email addresses, password
//! hashes, registration and the check of a login.

use vstd::prelude::*;

use crate::error::ServerError;
use crate::persistence::{Store, StoreView};
use crate::uid::{random_uid, Uid};

verus! {

/// The lower-case form of a text, as `str::to_lowercase` gives it.
pub uninterp spec fn lowercase(text: Seq<char>) -> Seq<char>;

/// What `bcrypt::verify` answers for a password and a hash: `Some(true)`
/// where the password matches, `Some(false)` where it does not, `None` where
/// the hash cannot be read.
pub uninterp spec fn bcrypt_verdict(password: Seq<char>, hash: Seq<char>) -> Option<bool>;

/// Makes `bcrypt::BcryptError` known as a type; nothing is read from it.
#[verifier::external_type_specification]
#[verifier::external_body]
pub struct ExBcryptError(bcrypt::BcryptError);

/// Calls `str::to_lowercase`. The result is what std's Unicode lower-casing
/// makes of the text; the contract only gives it its name.
#[verifier::external_body]
fn to_lowercase(text: &str) -> (lower: String)
    ensures
        lower@ == lowercase(text@),
{
    text.to_lowercase()
}

/// Calls `bcrypt::hash` with `bcrypt::DEFAULT_COST`, which salts the
/// password with fresh random bytes. The hash differs from call to call, so
/// it has no name; what holds of each is that `bcrypt::verify` accepts the
/// password for it, since it hashes the password again with the salt and
/// the cost that it reads from the hash.
#[verifier::external_body]
fn bcrypt_hash(password: &str) -> (hashed: Result<String, bcrypt::BcryptError>)
    ensures
        hashed matches Ok(hash) ==> bcrypt_verdict(password@, hash@) == Some(true),
{
    bcrypt::hash(password, bcrypt::DEFAULT_COST)
}

/// Calls `bcrypt::verify`, which depends on the password and the hash
/// alone.
#[verifier::external_body]
fn bcrypt_verify(password: &str, hash: &str) -> (verdict: Result<bool, bcrypt::BcryptError>)
    ensures
        match verdict {
            Ok(matches) => bcrypt_verdict(password@, hash@) == Some(matches),
            Err(_) => bcrypt_verdict(password@, hash@) is None,
        },
{
    bcrypt::verify(password, hash)
}

/// An email address in its normalised form, in which addresses that differ
/// only in case are equal.
#[derive(Clone, Debug)]
pub struct EmailAddress(pub(crate) String);

impl View for EmailAddress {
    type V = Seq<char>;

    closed spec fn view(&self) -> Seq<char> {
        self.0@
    }
}

impl EmailAddress {
    /// Normalises an address to lower case.
    pub fn from(value: &str) -> (address: EmailAddress)
        ensures
            address@ == lowercase(value@),
    {
        EmailAddress(to_lowercase(value))
    }

    pub fn as_str(&self) -> (text: &str)
        ensures
            text@ == self@,
    {
        self.0.as_str()
    }
}

/// The salted one-way hash of a password.
#[derive(Clone, Debug)]
pub struct HashedPassword(pub(crate) String);

impl View for HashedPassword {
    type V = Seq<char>;

    closed spec fn view(&self) -> Seq<char> {
        self.0@
    }
}

impl HashedPassword {
    /// Hashes a raw password under a fresh salt. The hash is one that the
    /// password matches; `HashingFailure` where the hashing fails.
    pub fn from_raw(value: &str) -> (result: Result<HashedPassword, ServerError>)
        ensures
            match result {
                Ok(hashed) => bcrypt_verdict(value@, hashed@) == Some(true),
                Err(e) => e == ServerError::HashingFailure,
            },
    {
        HashedPassword::from_hashing(bcrypt_hash(value))
    }

    /// What `from_raw` makes of the answer of the hashing: the hash where
    /// there is one, `HashingFailure` where there is none.
    pub fn from_hashing(hashed: Result<String, bcrypt::BcryptError>) -> (result: Result<
        HashedPassword,
        ServerError,
    >)
        ensures
            match (hashed, result) {
                (Ok(hash), Ok(password)) => password@ == hash@,
                (Err(_), Err(e)) => e == ServerError::HashingFailure,
                _ => false,
            },
    {
        match hashed {
            Ok(hash) => Ok(HashedPassword(hash)),
            Err(_) => Err(ServerError::HashingFailure),
        }
    }

    /// Whether the raw password matches this hash.
    pub fn matches(&self, raw_password: &str) -> (matches: bool)
        ensures
            matches == (bcrypt_verdict(raw_password@, self@) == Some(true)),
    {
        accepted(bcrypt_verify(raw_password, self.0.as_str()))
    }

    pub fn as_str(&self) -> (text: &str)
        ensures
            text@ == self@,
    {
        self.0.as_str()
    }
}

/// What a check of a password comes to: only a clear yes is a match; a no
/// and a hash that cannot be read both are none.
pub fn accepted(verdict: Result<bool, bcrypt::BcryptError>) -> (matches: bool)
    ensures
        matches == (verdict matches Ok(yes) && yes),
{
    match verdict {
        Ok(yes) => yes,
        Err(_) => false,
    }
}

/// What an account row holds, as plain values.
pub struct AccountView {
    pub account_uid: Uid,
    pub email_address: Seq<char>,
    pub password: Seq<char>,
}

/// A stored account: its identity, its normalised email address and the
/// hash of its password.
#[derive(Clone, Debug)]
pub struct Account {
    pub account_uid: Uid,
    pub email_address: String,
    pub password: String,
}

impl View for Account {
    type V = AccountView;

    open spec fn view(&self) -> AccountView {
        AccountView {
            account_uid: self.account_uid,
            email_address: self.email_address@,
            password: self.password@,
        }
    }
}

impl Account {
    /// A copy that holds the same values.
    pub fn duplicate(&self) -> (copy: Account)
        ensures
            copy@ == self@,
    {
        Account {
            account_uid: self.account_uid,
            email_address: self.email_address.clone(),
            password: self.password.clone(),
        }
    }
}

/// The plain values of an optional account.
pub open spec fn account_view(account: Option<Account>) -> Option<AccountView> {
    match account {
        Some(a) => Some(a@),
        None => None,
    }
}

/// Whether an account may be written: `DuplicateEmail` where the address
/// is taken, `StoreError` where the identity is.
pub open spec fn create_outcome(
    store: StoreView,
    account_uid: Uid,
    email_address: Seq<char>,
) -> Result<(), ServerError> {
    if store.has_email(email_address) {
        Err(ServerError::DuplicateEmail)
    } else if store.has_account(account_uid) {
        Err(ServerError::StoreError)
    } else {
        Ok(())
    }
}

/// Looks an account up by its normalised email address.
pub fn fetch_account_by_email(store: &Store, email_address: EmailAddress) -> (account: Option<
    Account,
>)
    requires
        store.wf(),
    ensures
        account_view(account) == store@.account_by_email(email_address@),
{
    proof {
        store.lemma_view();
    }
    let mut i: usize = 0;
    while i < store.accounts.len()
        invariant
            i <= store.accounts.len(),
            store.wf(),
            store@.accounts.len() == store.accounts.len(),
            store@.accounts == store.accounts@.map_values(|a: Account| a@),
            forall|j: int|
                0 <= j < i ==> (#[trigger] store@.accounts[j]).email_address != email_address@,
        decreases store.accounts.len() - i,
    {
        if store.accounts[i].email_address == email_address.0 {
            proof {
                let found = i as int;
                assert(store@.accounts[found].email_address == email_address@);
                let chosen = choose|c: int|
                    0 <= c < store@.accounts.len() && (#[trigger] store@.accounts[c]).email_address
                        == email_address@;
                if chosen < found {
                    assert(store@.accounts[chosen].email_address
                        != store@.accounts[found].email_address);
                } else if found < chosen {
                    assert(store@.accounts[found].email_address
                        != store@.accounts[chosen].email_address);
                }
            }
            return Some(store.accounts[i].duplicate());
        }
        assert(store@.accounts[i as int].email_address != email_address@);
        i += 1;
    }
    None
}

/// Writes a new account. `DuplicateEmail` where an account with the
/// address exists, `StoreError` where one with the identity does; either
/// way the store stays as it was.
pub fn create_account(
    store: &mut Store,
    account_uid: Uid,
    email_address: &EmailAddress,
    password: &HashedPassword,
) -> (result: Result<(), ServerError>)
    requires
        old(store).wf(),
    ensures
        final(store).wf(),
        result == create_outcome(old(store)@, account_uid, email_address@),
        result is Ok ==> final(store)@ == old(store)@.with_account(
            AccountView { account_uid, email_address: email_address@, password: password@ },
        ),
        result is Err ==> final(store)@ == old(store)@,
{
    let taken = fetch_account_by_email(store, EmailAddress(email_address.0.clone()));
    if taken.is_some() {
        return Err(ServerError::DuplicateEmail);
    }
    if store.has_account(account_uid) {
        return Err(ServerError::StoreError);
    }
    let account = Account {
        account_uid,
        email_address: email_address.0.clone(),
        password: password.0.clone(),
    };
    let ghost before = store@;
    proof {
        store.lemma_view();
    }
    store.accounts.push(account);
    proof {
        store.lemma_view();
        let after = before.with_account(account@);
        assert(store@.accounts =~= after.accounts);
        assert(store@.items =~= after.items);
        assert(store@ == after);
        lemma_with_account_keeps_wf(before, account@);
    }
    Ok(())
}

/// Writing an account whose identity and address are both new keeps the
/// store's invariant.
pub proof fn lemma_with_account_keeps_wf(store: StoreView, account: AccountView)
    requires
        store.wf(),
        !store.has_account(account.account_uid),
        !store.has_email(account.email_address),
    ensures
        store.with_account(account).wf(),
{
    let after = store.with_account(account);
    let n = store.accounts.len() as int;
    assert forall|i: int, j: int| 0 <= i < j < after.accounts.len() implies (
    #[trigger] after.accounts[i]).account_uid != (#[trigger] after.accounts[j]).account_uid by {
        if j == n {
            assert(store.accounts[i].account_uid != account.account_uid);
        }
    }
    assert forall|i: int, j: int| 0 <= i < j < after.accounts.len() implies (
    #[trigger] after.accounts[i]).email_address != (
    #[trigger] after.accounts[j]).email_address by {
        if j == n {
            assert(store.accounts[i].email_address != account.email_address);
        }
    }
    assert forall|i: int| 0 <= i < after.items.len() implies after.has_account(
        (#[trigger] after.items[i]).account_uid,
    ) by {
        assert(store.has_account(store.items[i].account_uid));
        let a = choose|a: int|
            0 <= a < store.accounts.len() && (#[trigger] store.accounts[a]).account_uid
                == store.items[i].account_uid;
        assert(after.accounts[a].account_uid == after.items[i].account_uid);
    }
    assert forall|k: int| 0 <= k < after.events.len() implies after.has_item(
        (#[trigger] after.events[k]).item_uid,
    ) by {
        assert(store.has_item(store.events[k].item_uid));
        let i = choose|i: int|
            0 <= i < store.items.len() && (#[trigger] store.items[i]).item_uid
                == store.events[k].item_uid;
        assert(after.items[i].item_uid == after.events[k].item_uid);
    }
}

/// Registers an account: normalises the address, hashes the password
/// under a fresh salt, and writes the account under a fresh random
/// identity, which it returns. `DuplicateEmail` where the normalised
/// address is taken, `HashingFailure` where the hashing fails, `StoreError`
/// where the identity drawn is taken; on any failure the store stays as it
/// was.
pub fn register(store: &mut Store, email: &str, raw_password: &str) -> (result: Result<
    Uid,
    ServerError,
>)
    requires
        old(store).wf(),
    ensures
        final(store).wf(),
        old(store)@.has_email(lowercase(email@)) ==> result == Err::<Uid, ServerError>(
            ServerError::DuplicateEmail,
        ),
        match result {
            Ok(account_uid) => {
                &&& create_outcome(old(store)@, account_uid, lowercase(email@)) is Ok
                &&& final(store)@.accounts.len() > 0
                &&& final(store)@ == old(store)@.with_account(
                    AccountView {
                        account_uid,
                        email_address: lowercase(email@),
                        password: final(store)@.accounts.last().password,
                    },
                )
                &&& bcrypt_verdict(raw_password@, final(store)@.accounts.last().password) == Some(
                    true,
                )
            },
            Err(e) => {
                &&& final(store)@ == old(store)@
                &&& e == ServerError::DuplicateEmail || e == ServerError::HashingFailure || e
                    == ServerError::StoreError
                &&& e == ServerError::DuplicateEmail <==> old(store)@.has_email(lowercase(email@))
            },
        },
{
    let email_address = EmailAddress::from(email);
    if fetch_account_by_email(store, EmailAddress(email_address.0.clone())).is_some() {
        return Err(ServerError::DuplicateEmail);
    }
    let password = match HashedPassword::from_raw(raw_password) {
        Ok(password) => password,
        Err(e) => {
            return Err(e);
        },
    };
    let account_uid = random_uid();
    match create_account(store, account_uid, &email_address, &password) {
        Ok(()) => Ok(account_uid),
        Err(e) => Err(e),
    }
}

/// Checks a login: the identity of the account with the normalised
/// address, where there is one and the password matches its hash; `None`
/// otherwise, with nothing to tell a wrong password from an unknown
/// address.
pub fn verify(store: &Store, email: &str, raw_password: &str) -> (account_uid: Option<Uid>)
    requires
        store.wf(),
    ensures
        account_uid == store@.login(lowercase(email@), raw_password@),
{
    match fetch_account_by_email(store, EmailAddress::from(email)) {
        Some(account) => {
            if accepted(bcrypt_verify(raw_password, account.password.as_str())) {
                Some(account.account_uid)
            } else {
                None
            }
        },
        None => {
            // Spend the time of a password check all the same, so that the
            // time taken does not tell whether the address is known.
            let _ = bcrypt_verify(
                raw_password,
                "$2b$12$EGdrhbKUv8Oc9vGiXX0HQOxSg445d458Muh7DAHskb6QbtCvdxcie",
            );
            None
        },
    }
}

/// The account at a position is the one that its address finds.
pub proof fn lemma_account_by_email(store: StoreView, i: int)
    requires
        store.wf(),
        0 <= i < store.accounts.len(),
    ensures
        store.account_by_email(store.accounts[i].email_address) == Some(store.accounts[i]),
{
    let email = store.accounts[i].email_address;
    let c = choose|c: int|
        0 <= c < store.accounts.len() && (#[trigger] store.accounts[c]).email_address == email;
    if c < i {
        assert(store.accounts[c].email_address != store.accounts[i].email_address);
    } else if i < c {
        assert(store.accounts[i].email_address != store.accounts[c].email_address);
    }
}

/// An account that was just written can log in with every password that
/// matches its hash, and with no other.
pub proof fn written_account_logs_in(
    store: StoreView,
    account: AccountView,
    raw_password: Seq<char>,
)
    requires
        store.wf(),
        create_outcome(store, account.account_uid, account.email_address) is Ok,
    ensures
        store.with_account(account).login(account.email_address, raw_password) == (
        if bcrypt_verdict(raw_password, account.password) == Some(true) {
            Some(account.account_uid)
        } else {
            None
        }),
{
    let after = store.with_account(account);
    lemma_with_account_keeps_wf(store, account);
    lemma_account_by_email(after, store.accounts.len() as int);
}

/// Whoever can log in can still do so after any write: the writing of
/// another account, of a task or of an event changes no login.
pub proof fn login_outlasts_writes(
    store: StoreView,
    after: StoreView,
    email_address: Seq<char>,
    raw_password: Seq<char>,
)
    requires
        store.wf(),
        after.wf(),
        after.accounts.len() >= store.accounts.len(),
        after.accounts.subrange(0, store.accounts.len() as int) == store.accounts,
        store.login(email_address, raw_password) is Some,
    ensures
        after.login(email_address, raw_password) == store.login(email_address, raw_password),
{
    let i = choose|i: int|
        0 <= i < store.accounts.len() && (#[trigger] store.accounts[i]).email_address
            == email_address;
    lemma_account_by_email(store, i);
    assert(after.accounts[i] == after.accounts.subrange(0, store.accounts.len() as int)[i]);
    lemma_account_by_email(after, i);
}

} // verus!
