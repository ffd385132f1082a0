//! Mail providers. Each provider fixes its servers, special folders and
//! OAuth endpoints, so the protocol layers stay provider-agnostic.
use vstd::prelude::*;
use crate::error::Error;
use crate::text::{ascii_lower_seq, chars_eq, chars_of, lower_ascii, string_of};

verus! {

/// A supported mail provider.
#[derive(Debug, Clone, Copy, PartialEq, Eq, Structural)]
pub enum Provider {
    Gmail,
    Hotmail,
}

/// OAuth endpoints and client requirements of a provider.
pub struct OAuthSpec {
    pub authorize_url: &'static str,
    pub token_url: &'static str,
    pub scopes: &'static str,
    /// Extra query parameters appended to the authorization URL.
    pub extra_auth_params: &'static str,
    /// Whether the token exchange needs a client secret.
    pub needs_client_secret: bool,
}

pub open spec fn spec_imap_host(p: Provider) -> Seq<char> {
    match p {
        Provider::Gmail => "imap.gmail.com"@,
        Provider::Hotmail => "outlook.office365.com"@,
    }
}

pub open spec fn spec_smtp_host(p: Provider) -> Seq<char> {
    match p {
        Provider::Gmail => "smtp.gmail.com"@,
        Provider::Hotmail => "smtp-mail.outlook.com"@,
    }
}

pub open spec fn spec_trash_folder(p: Provider) -> Seq<char> {
    match p {
        Provider::Gmail => "[Gmail]/Trash"@,
        Provider::Hotmail => "Deleted"@,
    }
}

pub open spec fn spec_drafts_folder(p: Provider) -> Seq<char> {
    match p {
        Provider::Gmail => "[Gmail]/Drafts"@,
        Provider::Hotmail => "Drafts"@,
    }
}

/// The provider a (case-insensitive) name stands for: `gmail`, or
/// `hotmail` / `outlook`.
pub open spec fn provider_named(lowered: Seq<char>) -> Option<Provider> {
    if lowered == "gmail"@ {
        Some(Provider::Gmail)
    } else if lowered == "hotmail"@ || lowered == "outlook"@ {
        Some(Provider::Hotmail)
    } else {
        None
    }
}

impl Provider {
    /// IMAP server (implicit TLS).
    pub fn imap_host(self) -> (h: &'static str)
        ensures
            h@ == spec_imap_host(self),
    {
        match self {
            Provider::Gmail => "imap.gmail.com",
            Provider::Hotmail => "outlook.office365.com",
        }
    }

    /// IMAP port (implicit TLS).
    pub fn imap_port(self) -> (p: u16)
        ensures
            p == 993,
    {
        993
    }

    /// SMTP submission server (STARTTLS on 587).
    pub fn smtp_host(self) -> (h: &'static str)
        ensures
            h@ == spec_smtp_host(self),
    {
        match self {
            Provider::Gmail => "smtp.gmail.com",
            Provider::Hotmail => "smtp-mail.outlook.com",
        }
    }

    /// Trash folder, the target of moves to the bin.
    pub fn trash_folder(self) -> (f: &'static str)
        ensures
            f@ == spec_trash_folder(self),
    {
        match self {
            Provider::Gmail => "[Gmail]/Trash",
            Provider::Hotmail => "Deleted",
        }
    }

    /// Drafts folder, the target of draft appends.
    pub fn drafts_folder(self) -> (f: &'static str)
        ensures
            f@ == spec_drafts_folder(self),
    {
        match self {
            Provider::Gmail => "[Gmail]/Drafts",
            Provider::Hotmail => "Drafts",
        }
    }

    /// OAuth endpoints: Gmail uses a desktop client that needs a client
    /// secret, Hotmail a public client without one.
    pub fn oauth_spec(self) -> (s: OAuthSpec)
        ensures
            s.needs_client_secret == (self == Provider::Gmail),
            self == Provider::Gmail ==> s.authorize_url@
                == "https://accounts.google.com/o/oauth2/v2/auth"@ && s.token_url@
                == "https://oauth2.googleapis.com/token"@ && s.scopes@
                == "https://mail.google.com/"@ && s.extra_auth_params@
                == "&access_type=offline&prompt=consent"@,
            self == Provider::Hotmail ==> s.authorize_url@
                == "https://login.microsoftonline.com/consumers/oauth2/v2.0/authorize"@
                && s.token_url@ == "https://login.microsoftonline.com/consumers/oauth2/v2.0/token"@
                && s.scopes@
                == "offline_access https://outlook.office.com/IMAP.AccessAsUser.All https://outlook.office.com/SMTP.Send"@
                && s.extra_auth_params@ == ""@,
    {
        match self {
            Provider::Gmail => OAuthSpec {
                authorize_url: "https://accounts.google.com/o/oauth2/v2/auth",
                token_url: "https://oauth2.googleapis.com/token",
                scopes: "https://mail.google.com/",
                extra_auth_params: "&access_type=offline&prompt=consent",
                needs_client_secret: true,
            },
            Provider::Hotmail => OAuthSpec {
                authorize_url: "https://login.microsoftonline.com/consumers/oauth2/v2.0/authorize",
                token_url: "https://login.microsoftonline.com/consumers/oauth2/v2.0/token",
                scopes: "offline_access https://outlook.office.com/IMAP.AccessAsUser.All https://outlook.office.com/SMTP.Send",
                extra_auth_params: "",
                needs_client_secret: false,
            },
        }
    }

    /// Parses a provider name, ignoring ASCII case: `gmail`, `hotmail` or
    /// `outlook`. Any other name is refused with the lowercased name.
    pub fn parse(s: &str) -> (r: Result<Provider, Error>)
        ensures
            match r {
                Ok(p) => provider_named(ascii_lower_seq(s@)) == Some(p),
                Err(e) => {
                    &&& provider_named(ascii_lower_seq(s@)) is None
                    &&& e matches Error::UnknownProvider(name)
                    &&& name@ == ascii_lower_seq(s@)
                },
            },
    {
        let lowered = lower_ascii(s);
        if chars_eq(&lowered, &chars_of("gmail")) {
            Ok(Provider::Gmail)
        } else if chars_eq(&lowered, &chars_of("hotmail")) || chars_eq(
            &lowered,
            &chars_of("outlook"),
        ) {
            Ok(Provider::Hotmail)
        } else {
            Err(Error::UnknownProvider(string_of(&lowered)))
        }
    }
}

impl std::str::FromStr for Provider {
    type Err = Error;

    /// The same as `Provider::parse`.
    fn from_str(s: &str) -> (r: Result<Provider, Error>)
        ensures
            match r {
                Ok(p) => provider_named(ascii_lower_seq(s@)) == Some(p),
                Err(e) => {
                    &&& provider_named(ascii_lower_seq(s@)) is None
                    &&& e matches Error::UnknownProvider(name)
                    &&& name@ == ascii_lower_seq(s@)
                },
            },
    {
        Provider::parse(s)
    }
}

/// Provider names are case-insensitive: a name and its ASCII-lowercased
/// form select the same provider.
pub proof fn lemma_provider_name_case_insensitive(s: Seq<char>)
    ensures
        provider_named(ascii_lower_seq(ascii_lower_seq(s))) == provider_named(ascii_lower_seq(s)),
{
    assert(ascii_lower_seq(ascii_lower_seq(s)) =~= ascii_lower_seq(s));
}

} // verus!
