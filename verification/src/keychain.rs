//! The system keychain, through `keyring`. Every value that comes back from
//! or goes into the keychain carries the service and user of the entry it
//! concerns, so that contracts can say which entry a secret was read from or
//! written to; the keychain's contents themselves are not modelled.
use vstd::prelude::*;

verus! {

#[verifier::external_type_specification]
#[verifier::external_body]
pub struct ExKeyringEntry(keyring::Entry);

/// Where a secret came from.
pub enum SecretOrigin {
    /// The environment variable named by the account.
    Environment,
    /// The keychain entry of this service and user.
    Keychain { service: Seq<char>, user: Seq<char> },
}

/// A keychain entry, with the service and user it was opened for.
#[derive(Debug)]
pub struct KeychainEntry {
    service: String,
    user: String,
    entry: keyring::Entry,
}

impl KeychainEntry {
    /// The service the entry belongs to.
    pub closed spec fn service(&self) -> Seq<char> {
        self.service@
    }

    /// The user the entry belongs to.
    pub closed spec fn user(&self) -> Seq<char> {
        self.user@
    }
}

/// A secret, with where it came from.
#[derive(Debug)]
pub struct Secret {
    value: String,
    keychain: Option<(String, String)>,
}

impl Secret {
    /// The secret's text.
    pub closed spec fn value(&self) -> Seq<char> {
        self.value@
    }

    /// Where the secret came from.
    pub closed spec fn origin(&self) -> SecretOrigin {
        match self.keychain {
            Some((service, user)) => SecretOrigin::Keychain { service: service@, user: user@ },
            None => SecretOrigin::Environment,
        }
    }

    /// A secret the environment gave.
    pub fn from_environment(value: String) -> (r: Secret)
        ensures
            r.value() == value@,
            r.origin() == SecretOrigin::Environment,
    {
        Secret { value, keychain: None }
    }

    /// The secret's text.
    pub fn into_value(self) -> (r: String)
        ensures
            r@ == self.value(),
    {
        self.value
    }
}

/// A secret the keychain accepted, with the entry it went to.
#[derive(Debug)]
pub struct Stored {
    service: String,
    user: String,
    secret: String,
}

impl Stored {
    /// The service of the entry written.
    pub closed spec fn service(&self) -> Seq<char> {
        self.service@
    }

    /// The user of the entry written.
    pub closed spec fn user(&self) -> Seq<char> {
        self.user@
    }

    /// The secret written.
    pub closed spec fn secret(&self) -> Seq<char> {
        self.secret@
    }
}

/// An attempt to remove the secret of one entry, and whether the keychain
/// reported it removed.
#[derive(Debug)]
pub struct Removal {
    service: String,
    user: String,
    removed: bool,
}

impl Removal {
    /// The service of the entry.
    pub closed spec fn service(&self) -> Seq<char> {
        self.service@
    }

    /// The user of the entry.
    pub closed spec fn user(&self) -> Seq<char> {
        self.user@
    }

    /// Whether the keychain reported the secret removed.
    pub closed spec fn removed(&self) -> bool {
        self.removed
    }

    /// An entry that could not even be opened: nothing was removed.
    pub fn not_opened(service: &str, user: &str) -> (r: Removal)
        ensures
            r.service() == service@,
            r.user() == user@,
            !r.removed(),
    {
        Removal {
            service: crate::text::owned(service),
            user: crate::text::owned(user),
            removed: false,
        }
    }
}

/// `keyring::Entry::new`: the keychain entry for `user` under `service`,
/// or the error's display text. It fails when the platform rejects the
/// names; nothing is claimed of when it does.
#[verifier::external_body]
pub(crate) fn open_entry(service: &str, user: &str) -> (r: Result<KeychainEntry, String>)
    ensures
        r matches Ok(e) ==> e.service() == service@ && e.user() == user@,
{
    let entry = keyring::Entry::new(service, user).map_err(|e| e.to_string())?;
    Ok(KeychainEntry { service: service.to_string(), user: user.to_string(), entry })
}

/// `keyring::Entry::get_password`: the secret stored for the entry, or the
/// error's display text. What the secret is depends on the keychain's
/// contents, so only the entry it came from is claimed.
#[verifier::external_body]
pub(crate) fn read_entry(e: &KeychainEntry) -> (r: Result<Secret, String>)
    ensures
        r matches Ok(s) ==> s.origin() == (SecretOrigin::Keychain {
            service: e.service(),
            user: e.user(),
        }),
{
    let value = e.entry.get_password().map_err(|x| x.to_string())?;
    Ok(Secret { value, keychain: Some((e.service.clone(), e.user.clone())) })
}

/// `keyring::Entry::set_password`: stores `secret` for the entry, or the
/// error's display text. Whether the keychain accepts it is not claimed.
#[verifier::external_body]
pub(crate) fn store_entry(e: &KeychainEntry, secret: &str) -> (r: Result<Stored, String>)
    ensures
        r matches Ok(w) ==> w.service() == e.service() && w.user() == e.user() && w.secret()
            == secret@,
{
    e.entry.set_password(secret).map_err(|x| x.to_string())?;
    Ok(Stored { service: e.service.clone(), user: e.user.clone(), secret: secret.to_string() })
}

/// `keyring::Entry::delete_credential`: removes the entry's secret, and
/// reports whether the keychain said it did (it reports an error when
/// there was none). Whether it removes one is not claimed.
#[verifier::external_body]
pub(crate) fn remove_entry(e: &KeychainEntry) -> (r: Removal)
    ensures
        r.service() == e.service(),
        r.user() == e.user(),
{
    let removed = e.entry.delete_credential().is_ok();
    Removal { service: e.service.clone(), user: e.user.clone(), removed }
}

} // verus!
