//! Account configuration: which accounts exist and which one is the
//! default. Only non-secret metadata lives here; credentials are kept by
//! the credential store.
use vstd::prelude::*;
use crate::error::Error;
use crate::provider::Provider;
use crate::text::{owned, str_eq};

verus! {

/// One configured mail account.
#[derive(Debug, Clone)]
pub struct Account {
    pub email: String,
    pub provider: Provider,
    /// OAuth client id; its presence selects OAuth over an app password.
    pub client_id: Option<String>,
    /// Name of the environment variable that carries the account's main
    /// secret; when set, the secret is read from there instead of the
    /// keychain.
    pub secret_ref: Option<String>,
}

/// All configured accounts and the default one.
#[derive(Debug, Clone)]
pub struct Config {
    pub default_account: Option<String>,
    pub accounts: Vec<Account>,
}

/// The characters of an optional string.
pub open spec fn opt_chars(o: Option<String>) -> Option<Seq<char>> {
    match o {
        Some(s) => Some(s@),
        None => None,
    }
}

/// The characters of an optional string slice.
pub open spec fn opt_str_chars(o: Option<&str>) -> Option<Seq<char>> {
    match o {
        Some(s) => Some(s@),
        None => None,
    }
}

/// `i` is the first position of an account with email `e`.
pub open spec fn is_first_with(accts: Seq<Account>, e: Seq<char>, i: int) -> bool {
    &&& 0 <= i < accts.len()
    &&& accts[i].email@ == e
    &&& forall|j: int| 0 <= j < i ==> accts[j].email@ != e
}

/// The position of the first account with email `e`, if any.
pub open spec fn account_index(accts: Seq<Account>, e: Seq<char>) -> Option<int> {
    if exists|i: int| is_first_with(accts, e, i) {
        Some(choose|i: int| is_first_with(accts, e, i))
    } else {
        None
    }
}

/// The first position of an email is unique, and it is what
/// `account_index` names.
pub proof fn lemma_first_with_is_index(accts: Seq<Account>, e: Seq<char>, i: int)
    requires
        is_first_with(accts, e, i),
    ensures
        account_index(accts, e) == Some(i),
{
    let k = choose|k: int| is_first_with(accts, e, k);
    assert(is_first_with(accts, e, k));
    if k < i {
        assert(accts[k].email@ != e);
    }
    if i < k {
        assert(accts[i].email@ != e);
    }
}

/// If some account has email `e`, there is a first one.
pub proof fn lemma_present_has_first(accts: Seq<Account>, e: Seq<char>, j: int)
    requires
        0 <= j < accts.len(),
        accts[j].email@ == e,
    ensures
        exists|i: int| is_first_with(accts, e, i),
    decreases j,
{
    if exists|k: int| 0 <= k < j && accts[k].email@ == e {
        let k = choose|k: int| 0 <= k < j && accts[k].email@ == e;
        lemma_present_has_first(accts, e, k);
    } else {
        assert(is_first_with(accts, e, j));
    }
}

/// No account has email `e`.
pub proof fn lemma_absent_has_no_index(accts: Seq<Account>, e: Seq<char>)
    requires
        forall|j: int| 0 <= j < accts.len() ==> accts[j].email@ != e,
    ensures
        account_index(accts, e) is None,
{
}

/// The account list after inserting or replacing `a`: an account with the
/// same email is replaced in place, otherwise `a` is appended.
pub open spec fn upserted(accts: Seq<Account>, a: Account) -> Seq<Account> {
    match account_index(accts, a.email@) {
        Some(i) => accts.update(i, a),
        None => accts.push(a),
    }
}

/// The account list without the accounts whose email is `e`.
pub open spec fn without_email(accts: Seq<Account>, e: Seq<char>) -> Seq<Account>
    decreases accts.len(),
{
    if accts.len() == 0 {
        accts
    } else {
        let rest = without_email(accts.drop_last(), e);
        if accts.last().email@ == e {
            rest
        } else {
            rest.push(accts.last())
        }
    }
}

/// The email an account lookup targets: the explicit one, else the default.
pub open spec fn lookup_target(default: Option<Seq<char>>, email: Option<Seq<char>>) -> Option<
    Seq<char>,
> {
    match email {
        Some(e) => Some(e),
        None => default,
    }
}

/// The default account after removing email `e`, given the accounts that
/// remain: the first remaining account (or none) when `e` was the default,
/// else the default unchanged.
pub open spec fn default_after_remove(
    default: Option<Seq<char>>,
    remaining: Seq<Account>,
    e: Seq<char>,
) -> Option<Seq<char>> {
    if default == Some(e) {
        if remaining.len() > 0 {
            Some(remaining[0].email@)
        } else {
            None
        }
    } else {
        default
    }
}

/// No two accounts share an email.
pub open spec fn emails_unique(accts: Seq<Account>) -> bool {
    forall|i: int, j: int|
        0 <= i < accts.len() && 0 <= j < accts.len() && i != j ==> accts[i].email@
            != accts[j].email@
}

impl Config {
    /// An empty configuration: no accounts and no default.
    pub fn new() -> (c: Config)
        ensures
            c.default_account is None,
            c.accounts@.len() == 0,
    {
        Config { default_account: None, accounts: Vec::new() }
    }

    /// Resolves the target account: the explicit `--account` email if given,
    /// otherwise the default account.
    pub fn resolve(&self, email: Option<&str>) -> (r: Result<&Account, Error>)
        ensures
            match lookup_target(opt_chars(self.default_account), opt_str_chars(email)) {
                None => r matches Err(Error::NoDefaultAccount),
                Some(t) => match account_index(self.accounts@, t) {
                    Some(i) => r == Ok::<&Account, Error>(&self.accounts@[i]),
                    None => r matches Err(Error::AccountNotFound(name)) && name@ == t,
                },
            },
    {
        let target: String = match email {
            Some(e) => owned(e),
            None => match &self.default_account {
                Some(d) => d.clone(),
                None => return Err(Error::NoDefaultAccount),
            },
        };
        let mut i: usize = 0;
        while i < self.accounts.len()
            invariant
                i <= self.accounts.len(),
                lookup_target(opt_chars(self.default_account), opt_str_chars(email)) == Some(
                    target@,
                ),
                forall|j: int| 0 <= j < i ==> self.accounts@[j].email@ != target@,
            decreases self.accounts.len() - i,
        {
            if self.accounts[i].email == target {
                proof {
                    lemma_first_with_is_index(self.accounts@, target@, i as int);
                }
                return Ok(&self.accounts[i]);
            }
            i += 1;
        }
        Err(Error::AccountNotFound(target))
    }

    /// Adds or replaces an account (matched by email); the first account
    /// ever added becomes the default.
    pub fn upsert(&mut self, account: Account)
        ensures
            final(self).accounts@ == upserted(old(self).accounts@, account),
            opt_chars(final(self).default_account) == match opt_chars(old(self).default_account) {
                Some(d) => Some(d),
                None => Some(account.email@),
            },
    {
        if self.default_account.is_none() {
            self.default_account = Some(account.email.clone());
        }
        let ghost new_default = opt_chars(self.default_account);
        let mut i: usize = 0;
        while i < self.accounts.len()
            invariant
                i <= self.accounts.len(),
                opt_chars(self.default_account) == new_default,
                new_default == match opt_chars(old(self).default_account) {
                    Some(d) => Some(d),
                    None => Some(account.email@),
                },
                self.accounts@ == old(self).accounts@,
                forall|j: int| 0 <= j < i ==> self.accounts@[j].email@ != account.email@,
            decreases self.accounts.len() - i,
        {
            if self.accounts[i].email == account.email {
                proof {
                    lemma_first_with_is_index(self.accounts@, account.email@, i as int);
                }
                self.accounts.set(i, account);
                return;
            }
            i += 1;
        }
        self.accounts.push(account);
    }

    /// Removes every account with the given email; if it was the default,
    /// the first remaining account (if any) becomes the default.
    pub fn remove(&mut self, email: &str)
        ensures
            final(self).accounts@ == without_email(old(self).accounts@, email@),
            opt_chars(final(self).default_account) == default_after_remove(
                opt_chars(old(self).default_account),
                final(self).accounts@,
                email@,
            ),
    {
        let mut rest: Vec<Account> = Vec::new();
        std::mem::swap(&mut rest, &mut self.accounts);
        let ghost orig = rest@;
        assert(orig.len() == rest.len());
        let mut kept: Vec<Account> = Vec::new();
        let mut k: usize = 0;
        while rest.len() > 0
            invariant
                orig.len() <= usize::MAX,
                k + rest@.len() == orig.len(),
                rest@ == orig.skip(k as int),
                kept@ == without_email(orig.take(k as int), email@),
            decreases rest@.len(),
        {
            let a = rest.remove(0);
            assert(orig.take(k + 1).drop_last() =~= orig.take(k as int));
            assert(orig.take(k + 1).last() == a);
            assert(rest@ =~= orig.skip(k + 1));
            if !str_eq(a.email.as_str(), email) {
                kept.push(a);
            }
            k += 1;
        }
        assert(orig.take(k as int) =~= orig);
        self.accounts = kept;
        let was_default = match &self.default_account {
            Some(d) => str_eq(d.as_str(), email),
            None => false,
        };
        if was_default {
            if self.accounts.len() > 0 {
                self.default_account = Some(self.accounts[0].email.clone());
            } else {
                self.default_account = None;
            }
        }
    }
}

// ---------------------------------------------------------------------
// Laws
// ---------------------------------------------------------------------

/// Read after write: once an account is upserted, looking up its email
/// finds exactly that account.
pub proof fn lemma_resolve_after_upsert(accts: Seq<Account>, a: Account)
    ensures
        account_index(upserted(accts, a), a.email@) matches Some(i) && upserted(accts, a)[i] == a,
{
    let u = upserted(accts, a);
    match account_index(accts, a.email@) {
        Some(i) => {
            let k = choose|k: int| is_first_with(accts, a.email@, k);
            assert(is_first_with(u, a.email@, i));
            lemma_first_with_is_index(u, a.email@, i);
        },
        None => {
            assert forall|j: int| 0 <= j < accts.len() implies accts[j].email@ != a.email@ by {
                if accts[j].email@ == a.email@ {
                    lemma_present_has_first(accts, a.email@, j);
                }
            }
            assert(is_first_with(u, a.email@, accts.len() as int));
            lemma_first_with_is_index(u, a.email@, accts.len() as int);
        },
    }
}

/// The account a lookup of email `e` finds, if any.
pub open spec fn lookup(accts: Seq<Account>, e: Seq<char>) -> Option<Account> {
    match account_index(accts, e) {
        Some(i) => Some(accts[i]),
        None => None,
    }
}

/// Without an account of email `e`, no position is first with it.
proof fn lemma_index_none_means_absent(accts: Seq<Account>, e: Seq<char>)
    requires
        account_index(accts, e) is None,
    ensures
        forall|j: int| 0 <= j < accts.len() ==> accts[j].email@ != e,
{
    assert forall|j: int| 0 <= j < accts.len() implies accts[j].email@ != e by {
        if accts[j].email@ == e {
            lemma_present_has_first(accts, e, j);
        }
    }
}

/// Looking up in a list with one more account at its end finds what the
/// shorter list finds, or else the new account when it has the email.
proof fn lemma_lookup_push(s: Seq<Account>, x: Account, e: Seq<char>)
    ensures
        lookup(s.push(x), e) == match lookup(s, e) {
            Some(a) => Some(a),
            None => if x.email@ == e {
                Some(x)
            } else {
                None
            },
        },
{
    let t = s.push(x);
    match account_index(s, e) {
        Some(i) => {
            assert(is_first_with(s, e, i));
            assert(is_first_with(t, e, i));
            lemma_first_with_is_index(t, e, i);
        },
        None => {
            lemma_index_none_means_absent(s, e);
            if x.email@ == e {
                assert(is_first_with(t, e, s.len() as int));
                lemma_first_with_is_index(t, e, s.len() as int);
            } else {
                assert forall|j: int| 0 <= j < t.len() implies t[j].email@ != e by {
                    if j < s.len() {
                        assert(t[j] == s[j]);
                    }
                }
                lemma_absent_has_no_index(t, e);
            }
        },
    }
}

/// After removing the accounts of email `e`, none is left.
pub proof fn lemma_removed_absent(accts: Seq<Account>, e: Seq<char>)
    ensures
        forall|j: int|
            0 <= j < without_email(accts, e).len() ==> #[trigger] without_email(accts, e)[j].email@
                != e,
        lookup(without_email(accts, e), e) is None,
    decreases accts.len(),
{
    if accts.len() > 0 {
        lemma_removed_absent(accts.drop_last(), e);
    }
    lemma_absent_has_no_index(without_email(accts, e), e);
}

/// Removing the accounts of email `e` leaves every other lookup unchanged.
pub proof fn lemma_remove_keeps_others(accts: Seq<Account>, e: Seq<char>, other: Seq<char>)
    requires
        other != e,
    ensures
        lookup(without_email(accts, e), other) == lookup(accts, other),
    decreases accts.len(),
{
    if accts.len() == 0 {
    } else {
        let init = accts.drop_last();
        let x = accts.last();
        lemma_remove_keeps_others(init, e, other);
        assert(init.push(x) =~= accts);
        lemma_lookup_push(init, x, other);
        if x.email@ != e {
            lemma_lookup_push(without_email(init, e), x, other);
        }
    }
}

/// Upserting an account leaves the lookups of every other email unchanged.
pub proof fn lemma_upsert_keeps_others(accts: Seq<Account>, a: Account, other: Seq<char>)
    requires
        other != a.email@,
    ensures
        lookup(upserted(accts, a), other) == lookup(accts, other),
{
    let u = upserted(accts, a);
    match account_index(accts, a.email@) {
        Some(i) => {
            assert(is_first_with(accts, a.email@, i));
            match account_index(accts, other) {
                Some(j) => {
                    assert(is_first_with(accts, other, j));
                    assert(j != i);
                    assert forall|k: int| 0 <= k < j implies u[k].email@ != other by {
                        if k != i {
                            assert(u[k] == accts[k]);
                        }
                    }
                    assert(is_first_with(u, other, j));
                    lemma_first_with_is_index(u, other, j);
                },
                None => {
                    lemma_index_none_means_absent(accts, other);
                    assert forall|k: int| 0 <= k < u.len() implies u[k].email@ != other by {
                        if k != i {
                            assert(u[k] == accts[k]);
                        }
                    }
                    lemma_absent_has_no_index(u, other);
                },
            }
        },
        None => {
            lemma_lookup_push(accts, a, other);
        },
    }
}

/// Upserting keeps emails unique: an account that replaces another has its
/// email, and an appended one has an email no account had.
pub proof fn lemma_upsert_keeps_unique(accts: Seq<Account>, a: Account)
    requires
        emails_unique(accts),
    ensures
        emails_unique(upserted(accts, a)),
{
    let u = upserted(accts, a);
    match account_index(accts, a.email@) {
        Some(i) => {
            assert(is_first_with(accts, a.email@, i));
            assert forall|p: int, q: int|
                0 <= p < u.len() && 0 <= q < u.len() && p != q implies u[p].email@ != u[q].email@ by {
                assert(u[p].email@ == accts[p].email@);
                assert(u[q].email@ == accts[q].email@);
            }
        },
        None => {
            lemma_index_none_means_absent(accts, a.email@);
            assert forall|p: int, q: int|
                0 <= p < u.len() && 0 <= q < u.len() && p != q implies u[p].email@ != u[q].email@ by {
                if p < accts.len() {
                    assert(u[p] == accts[p]);
                }
                if q < accts.len() {
                    assert(u[q] == accts[q]);
                }
            }
        },
    }
}

/// Removing an email no account has changes nothing.
proof fn lemma_remove_absent_unchanged(accts: Seq<Account>, e: Seq<char>)
    requires
        forall|j: int| 0 <= j < accts.len() ==> #[trigger] accts[j].email@ != e,
    ensures
        without_email(accts, e) == accts,
    decreases accts.len(),
{
    if accts.len() > 0 {
        lemma_remove_absent_unchanged(accts.drop_last(), e);
        assert(accts.drop_last().push(accts.last()) =~= accts);
    }
}

/// Logging out twice is logging out once: removing an email a second time
/// changes neither the accounts nor the default.
pub proof fn lemma_remove_idempotent(default: Option<Seq<char>>, accts: Seq<Account>, e: Seq<char>)
    ensures
        without_email(without_email(accts, e), e) == without_email(accts, e),
        default_after_remove(
            default_after_remove(default, without_email(accts, e), e),
            without_email(without_email(accts, e), e),
            e,
        ) == default_after_remove(default, without_email(accts, e), e),
{
    let w = without_email(accts, e);
    lemma_removed_absent(accts, e);
    lemma_remove_absent_unchanged(w, e);
    if default == Some(e) && w.len() > 0 {
        assert(w[0].email@ != e);
    }
}

} // verus!
