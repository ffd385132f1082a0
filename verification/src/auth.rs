//! Credential storage. The main secret of an account (a Gmail app password
//! or a Hotmail refresh token) comes from one of two places:
//!
//! - the environment, when the account names a variable in `secret_ref`
//!   and that variable is set; the keychain is then never touched;
//! - otherwise the system keychain, under the service `mailctl`.
//!
//! The caller reads the environment and hands its value in; this module
//! decides which store answers and under which key.
use crate::config::Account;
use crate::error::Error as Failure;
use crate::keychain::{
    open_entry, read_entry, remove_entry, store_entry, Removal, Secret, SecretOrigin, Stored,
};
use crate::text::owned;
use vstd::prelude::*;

verus! {

/// The keychain service every credential is stored under.
pub open spec fn service_name() -> Seq<char> {
    "mailctl"@
}

/// The keychain user of an account's refresh token.
pub open spec fn refresh_user(email: Seq<char>) -> Seq<char> {
    email + "#refresh"@
}

/// The keychain user of an account's OAuth client secret.
pub open spec fn oauth_secret_user(email: Seq<char>) -> Seq<char> {
    email + "#oauth-secret"@
}

/// The keychain user under which an account's refresh token is kept.
pub fn refresh_key(email: &str) -> (r: String)
    ensures
        r@ == refresh_user(email@),
{
    let mut r = owned(email);
    r.append("#refresh");
    r
}

/// The keychain user under which an account's OAuth client secret is kept.
pub fn oauth_secret_key(email: &str) -> (r: String)
    ensures
        r@ == oauth_secret_user(email@),
{
    let mut r = owned(email);
    r.append("#oauth-secret");
    r
}

/// Every keychain user an account may have stored something under: the
/// app password, the refresh token and the OAuth client secret.
pub fn credential_keys(email: &str) -> (r: Vec<String>)
    ensures
        r@.len() == 3,
        r@[0]@ == email@,
        r@[1]@ == refresh_user(email@),
        r@[2]@ == oauth_secret_user(email@),
{
    let mut r: Vec<String> = Vec::new();
    r.push(owned(email));
    r.push(refresh_key(email));
    r.push(oauth_secret_key(email));
    r
}

/// The environment's answer for an account: the value of the variable the
/// account names, when it names one and the caller found it set.
pub open spec fn env_secret_of(account: Account, env_value: Option<String>) -> Option<Seq<char>> {
    match (account.secret_ref, env_value) {
        (Some(_), Some(v)) => Some(v@),
        _ => None,
    }
}

/// Whether the environment backend answers for `account`, given the value
/// the caller read from the variable named by `account.secret_ref`.
pub fn env_secret(account: &Account, env_value: Option<String>) -> (r: Option<String>)
    ensures
        match r {
            Some(v) => env_secret_of(*account, env_value) == Some(v@),
            None => env_secret_of(*account, env_value) is None,
        },
{
    match (&account.secret_ref, env_value) {
        (Some(_), Some(v)) => Some(v),
        _ => None,
    }
}

/// A keychain failure, given by its display text, as the library's error.
fn keychain_failure(text: String) -> (r: Failure)
    ensures
        r == Failure::Keyring(text),
{
    Failure::Keyring(text)
}

/// `s` came from the `mailctl` keychain entry of `user`.
pub open spec fn from_keychain(s: Secret, user: Seq<char>) -> bool {
    s.origin() == (SecretOrigin::Keychain { service: service_name(), user })
}

/// `w` was written to the `mailctl` keychain entry of `user`, with `secret`.
pub open spec fn stored_under(w: Stored, user: Seq<char>, secret: Seq<char>) -> bool {
    &&& w.service() == service_name()
    &&& w.user() == user
    &&& w.secret() == secret
}

/// Reads the secret stored under `user`; every failure is a keychain error.
fn read_secret(user: &str) -> (r: Result<Secret, Failure>)
    ensures
        r matches Ok(s) ==> from_keychain(s, user@),
        r is Err ==> r->Err_0 is Keyring,
{
    proof {
        reveal_strlit("mailctl");
    }
    match open_entry("mailctl", user) {
        Ok(entry) => match read_entry(&entry) {
            Ok(s) => Ok(s),
            Err(e) => Err(keychain_failure(e)),
        },
        Err(e) => Err(keychain_failure(e)),
    }
}

/// Stores `secret` under `user`; every failure is a keychain error.
fn write_secret(user: &str, secret: &str) -> (r: Result<Stored, Failure>)
    ensures
        r matches Ok(w) ==> stored_under(w, user@, secret@),
        r is Err ==> r->Err_0 is Keyring,
{
    proof {
        reveal_strlit("mailctl");
    }
    match open_entry("mailctl", user) {
        Ok(entry) => match store_entry(&entry, secret) {
            Ok(w) => Ok(w),
            Err(e) => Err(keychain_failure(e)),
        },
        Err(e) => Err(keychain_failure(e)),
    }
}

/// How an IMAP session authenticates.
#[derive(Debug, Clone, Copy, PartialEq, Eq, Structural)]
pub enum ImapLogin {
    /// SASL XOAUTH2 with an OAuth access token.
    XOAuth2,
    /// `LOGIN` with the app password.
    Password,
}

/// The IMAP authentication of an account: OAuth whenever it has a client
/// id (whatever the provider), else its app password.
pub fn imap_login(account: &Account) -> (r: ImapLogin)
    ensures
        r == if account.client_id is Some {
            ImapLogin::XOAuth2
        } else {
            ImapLogin::Password
        },
{
    match &account.client_id {
        Some(_) => ImapLogin::XOAuth2,
        None => ImapLogin::Password,
    }
}

/// Which main secret of an account is wanted.
#[derive(Debug, Clone, Copy, PartialEq, Eq, Structural)]
pub enum MainSecret {
    /// A Gmail app password, kept under the email itself.
    AppPassword,
    /// An OAuth refresh token, kept under `<email>#refresh`.
    RefreshToken,
}

/// The keychain user under which a main secret is kept.
pub open spec fn main_secret_user(kind: MainSecret, email: Seq<char>) -> Seq<char> {
    match kind {
        MainSecret::AppPassword => email,
        MainSecret::RefreshToken => refresh_user(email),
    }
}

/// Where a main secret is read from.
#[derive(Debug)]
pub enum SecretSource {
    /// The environment already gave this value.
    Environment(String),
    /// The keychain entry of this user (under the service `mailctl`).
    Keychain(String),
}

/// Chooses where a main secret comes from: the environment when that
/// backend answers, else the keychain entry of the secret's user.
pub fn secret_source(account: &Account, env_value: Option<String>, kind: MainSecret) -> (r:
    SecretSource)
    ensures
        match env_secret_of(*account, env_value) {
            Some(v) => r matches SecretSource::Environment(s) && s@ == v,
            None => r matches SecretSource::Keychain(u) && u@ == main_secret_user(
                kind,
                account.email@,
            ),
        },
{
    match env_secret(account, env_value) {
        Some(v) => SecretSource::Environment(v),
        None => match kind {
            MainSecret::AppPassword => SecretSource::Keychain(owned(account.email.as_str())),
            MainSecret::RefreshToken => SecretSource::Keychain(
                refresh_key(account.email.as_str()),
            ),
        },
    }
}

/// Reads a main secret from the source chosen for it; the environment
/// always answers, the keychain may fail.
fn read_main_secret(source: SecretSource) -> (r: Result<Secret, Failure>)
    ensures
        match source {
            SecretSource::Environment(v) => r matches Ok(s) && s.value() == v@ && s.origin()
                == SecretOrigin::Environment,
            SecretSource::Keychain(u) => (r matches Ok(s) ==> from_keychain(s, u@)) && (r is Err
                ==> r->Err_0 is Keyring),
        },
{
    match source {
        SecretSource::Environment(v) => Ok(Secret::from_environment(v)),
        SecretSource::Keychain(user) => read_secret(user.as_str()),
    }
}

/// What a main-secret lookup gives: the environment's value when that
/// backend answers (always a success), else a secret read from the
/// keychain entry of the secret's user, or a keychain error.
pub open spec fn main_secret_result(
    r: Result<Secret, Failure>,
    account: Account,
    env_value: Option<String>,
    kind: MainSecret,
) -> bool {
    match env_secret_of(account, env_value) {
        Some(v) => r matches Ok(s) && s.value() == v && s.origin() == SecretOrigin::Environment,
        None => {
            &&& r matches Ok(s) ==> from_keychain(s, main_secret_user(kind, account.email@))
            &&& r is Err ==> r->Err_0 is Keyring
        },
    }
}

/// The main secret of a Gmail account (its app password): from the
/// environment when that backend answers, which then always succeeds and
/// leaves the keychain alone; otherwise from the keychain entry named by
/// the account's email.
pub fn load_password(account: &Account, env_value: Option<String>) -> (r: Result<Secret, Failure>)
    ensures
        main_secret_result(r, *account, env_value, MainSecret::AppPassword),
{
    read_main_secret(secret_source(account, env_value, MainSecret::AppPassword))
}

/// Stores the app password of `email` in the keychain entry of `email`.
pub fn store_password(email: &str, password: &str) -> (r: Result<Stored, Failure>)
    ensures
        r matches Ok(w) ==> stored_under(w, email@, password@),
        r is Err ==> r->Err_0 is Keyring,
{
    write_secret(email, password)
}

/// The refresh token of an OAuth account: from the environment when that
/// backend answers, which then always succeeds; otherwise from the keychain
/// entry `<email>#refresh`.
pub fn load_refresh_token(account: &Account, env_value: Option<String>) -> (r: Result<Secret, Failure>)
    ensures
        main_secret_result(r, *account, env_value, MainSecret::RefreshToken),
{
    read_main_secret(secret_source(account, env_value, MainSecret::RefreshToken))
}

/// Stores the refresh token of `email` in the keychain entry
/// `<email>#refresh`.
pub fn store_refresh_token(email: &str, token: &str) -> (r: Result<Stored, Failure>)
    ensures
        r matches Ok(w) ==> stored_under(w, refresh_user(email@), token@),
        r is Err ==> r->Err_0 is Keyring,
{
    let user = refresh_key(email);
    write_secret(user.as_str(), token)
}

/// Stores the OAuth client secret of `email` in the keychain entry
/// `<email>#oauth-secret`.
pub fn store_oauth_secret(email: &str, secret: &str) -> (r: Result<Stored, Failure>)
    ensures
        r matches Ok(w) ==> stored_under(w, oauth_secret_user(email@), secret@),
        r is Err ==> r->Err_0 is Keyring,
{
    let user = oauth_secret_key(email);
    write_secret(user.as_str(), secret)
}

/// The OAuth client secret of an account, from the keychain entry
/// `<email>#oauth-secret`.
pub fn load_oauth_secret(account: &Account) -> (r: Result<Secret, Failure>)
    ensures
        r matches Ok(s) ==> from_keychain(s, oauth_secret_user(account.email@)),
        r is Err ==> r->Err_0 is Keyring,
{
    let user = oauth_secret_key(account.email.as_str());
    read_secret(user.as_str())
}

/// Persists a rotated refresh token. When the environment backend answers
/// there is nowhere to write it back to: nothing is stored and the call
/// succeeds with `None`. Otherwise the token goes to the keychain entry
/// `<email>#refresh`.
pub fn persist_rotated_refresh(account: &Account, token: &str, env_value: Option<String>) -> (r:
    Result<Option<Stored>, Failure>)
    ensures
        env_secret_of(*account, env_value) is Some ==> r matches Ok(None),
        env_secret_of(*account, env_value) is None ==> (r matches Ok(o) ==> o matches Some(w)
            && stored_under(w, refresh_user(account.email@), token@)),
        r is Err ==> r->Err_0 is Keyring,
{
    if env_secret(account, env_value).is_some() {
        return Ok(None);
    }
    match store_refresh_token(account.email.as_str(), token) {
        Ok(w) => Ok(Some(w)),
        Err(e) => Err(e),
    }
}

/// Removes every keychain secret of `email`: the app password, the
/// refresh token and the OAuth client secret, in that order. A secret that
/// is missing or cannot be removed is skipped, so the call is idempotent;
/// the result tells, entry by entry, what the keychain reported.
pub fn delete_credentials(email: &str) -> (r: Vec<Removal>)
    ensures
        r@.len() == 3,
        forall|i: int| 0 <= i < 3 ==> #[trigger] r@[i].service() == service_name(),
        r@[0].user() == email@,
        r@[1].user() == refresh_user(email@),
        r@[2].user() == oauth_secret_user(email@),
{
    proof {
        reveal_strlit("mailctl");
    }
    let keys = credential_keys(email);
    let mut out: Vec<Removal> = Vec::new();
    let mut i: usize = 0;
    while i < keys.len()
        invariant
            i <= keys.len(),
            keys@.len() == 3,
            keys@[0]@ == email@,
            keys@[1]@ == refresh_user(email@),
            keys@[2]@ == oauth_secret_user(email@),
            out@.len() == i,
            forall|k: int|
                #![trigger out@[k]]
                0 <= k < i ==> out@[k].service() == service_name() && out@[k].user() == keys@[k]@,
        decreases keys.len() - i,
    {
        let removal = match open_entry("mailctl", keys[i].as_str()) {
            Ok(entry) => remove_entry(&entry),
            Err(_) => Removal::not_opened("mailctl", keys[i].as_str()),
        };
        out.push(removal);
        i += 1;
    }
    assert(out@[0].user() == keys@[0]@ && out@[1].user() == keys@[1]@ && out@[2].user()
        == keys@[2]@);
    out
}

/// The name of the file that caches an account's access token.
pub fn access_cache_file_name(email: &str) -> (r: String)
    ensures
        r@ == email@ + ".token"@,
{
    let mut r = owned(email);
    r.append(".token");
    r
}

} // verus!
