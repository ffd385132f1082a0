//! OAuth 2.0 (authorization code + PKCE, loopback redirect) for Gmail and
//! Outlook/Hotmail: the authorization URL, token request forms, the
//! redirect the browser comes back with, and access-token caching rules.
use vstd::prelude::*;
use vstd::string::StringSliceAdditionalSpecFns;
use vstd::utf8::decode_utf8;
use crate::config::Account;
use crate::encoding::{
    base64url, base64url_encode, percent_decoded, percent_encoded, sha256, sha256_digest,
    url_decode, url_encode,
};
use crate::error::Error;
use crate::provider::OAuthSpec;
use crate::text::{
    char_views, chars_eq, chars_of, decimal, push_chars, push_decimal, split_words, string_of,
    words,
};

verus! {

/// An access token counts as expired this many seconds before it does.
pub const EXPIRY_MARGIN_SECS: u64 = 60;

/// Lifetime assumed for an access token whose response gives none.
pub const DEFAULT_TOKEN_LIFETIME_SECS: u64 = 3600;

// ---------------------------------------------------------------------
// PKCE
// ---------------------------------------------------------------------

/// A PKCE code verifier (also used as the CSRF state) made from 32 random
/// bytes: their unpadded URL-safe base64.
pub fn verifier_from_random(random: &[u8]) -> (r: String)
    ensures
        r@ == base64url(random@),
{
    base64url_encode(random)
}

/// The S256 code challenge of a verifier: the unpadded URL-safe base64 of
/// the SHA-256 digest of its bytes.
pub fn code_challenge(verifier: &str) -> (r: String)
    ensures
        r@ == base64url(sha256(verifier.spec_bytes())),
{
    let digest = sha256_digest(verifier.as_bytes());
    base64url_encode(digest.as_slice())
}

// ---------------------------------------------------------------------
// Authorization request
// ---------------------------------------------------------------------

/// Percent-encoding of the UTF-8 bytes of a string.
pub open spec fn enc(s: Seq<char>) -> Seq<char> {
    percent_encoded(vstd::utf8::encode_utf8(s))
}

/// The loopback redirect URI for a port.
pub open spec fn redirect_uri_spec(port: u16) -> Seq<char> {
    "http://localhost:"@ + decimal(port as nat)
}

/// The loopback redirect URI for a port.
pub fn redirect_uri(port: u16) -> (r: String)
    ensures
        r@ == redirect_uri_spec(port),
{
    let mut r = crate::text::owned("http://localhost:");
    push_decimal(&mut r, port as u64);
    r
}

/// The authorization URL the user's browser is sent to.
pub open spec fn authorize_url_spec(
    authorize: Seq<char>,
    scopes: Seq<char>,
    extra: Seq<char>,
    client_id: Seq<char>,
    redirect: Seq<char>,
    state: Seq<char>,
    email: Seq<char>,
    challenge: Seq<char>,
) -> Seq<char> {
    authorize + "?client_id="@ + enc(client_id) + "&response_type=code&redirect_uri="@ + enc(
        redirect,
    ) + "&scope="@ + enc(scopes) + "&state="@ + enc(state) + "&login_hint="@ + enc(email)
        + "&code_challenge="@ + enc(challenge) + "&code_challenge_method=S256"@ + extra
}

fn push_encoded(out: &mut String, s: &str)
    ensures
        final(out)@ == old(out)@ + enc(s@),
{
    let e = url_encode(s);
    out.append(e.as_str());
}

/// Builds the authorization URL: client, redirect, scopes, CSRF state,
/// login hint and S256 challenge, then the provider's extra parameters.
pub fn authorize_url(
    spec: &OAuthSpec,
    client_id: &str,
    redirect: &str,
    state: &str,
    email: &str,
    challenge: &str,
) -> (r: String)
    ensures
        r@ == authorize_url_spec(
            spec.authorize_url@,
            spec.scopes@,
            spec.extra_auth_params@,
            client_id@,
            redirect@,
            state@,
            email@,
            challenge@,
        ),
{
    let mut r = crate::text::owned(spec.authorize_url);
    r.append("?client_id=");
    push_encoded(&mut r, client_id);
    r.append("&response_type=code&redirect_uri=");
    push_encoded(&mut r, redirect);
    r.append("&scope=");
    push_encoded(&mut r, spec.scopes);
    r.append("&state=");
    push_encoded(&mut r, state);
    r.append("&login_hint=");
    push_encoded(&mut r, email);
    r.append("&code_challenge=");
    push_encoded(&mut r, challenge);
    r.append("&code_challenge_method=S256");
    r.append(spec.extra_auth_params);
    r
}

// ---------------------------------------------------------------------
// Token requests
// ---------------------------------------------------------------------

/// The form of the authorization-code exchange, with the client secret
/// appended when there is one.
pub fn authorization_code_form<'a>(
    client_id: &'a str,
    code: &'a str,
    redirect: &'a str,
    verifier: &'a str,
    scopes: &'a str,
    client_secret: Option<&'a str>,
) -> (r: Vec<(&'a str, &'a str)>)
    ensures
        r@.take(6) == seq![
            ("client_id", client_id),
            ("grant_type", "authorization_code"),
            ("code", code),
            ("redirect_uri", redirect),
            ("code_verifier", verifier),
            ("scope", scopes),
        ],
        match client_secret {
            Some(s) => r@.len() == 7 && r@[6] == ("client_secret", s),
            None => r@.len() == 6,
        },
{
    let mut form: Vec<(&'a str, &'a str)> = Vec::new();
    form.push(("client_id", client_id));
    form.push(("grant_type", "authorization_code"));
    form.push(("code", code));
    form.push(("redirect_uri", redirect));
    form.push(("code_verifier", verifier));
    form.push(("scope", scopes));
    let ghost six = form@;
    match client_secret {
        Some(s) => form.push(("client_secret", s)),
        None => {},
    }
    assert(form@.take(6) =~= six);
    form
}

/// The form of a refresh-token grant, with the client secret appended when
/// there is one.
pub fn refresh_form<'a>(
    client_id: &'a str,
    refresh_token: &'a str,
    scopes: &'a str,
    client_secret: Option<&'a str>,
) -> (r: Vec<(&'a str, &'a str)>)
    ensures
        r@.take(4) == seq![
            ("client_id", client_id),
            ("grant_type", "refresh_token"),
            ("refresh_token", refresh_token),
            ("scope", scopes),
        ],
        match client_secret {
            Some(s) => r@.len() == 5 && r@[4] == ("client_secret", s),
            None => r@.len() == 4,
        },
{
    let mut form: Vec<(&'a str, &'a str)> = Vec::new();
    form.push(("client_id", client_id));
    form.push(("grant_type", "refresh_token"));
    form.push(("refresh_token", refresh_token));
    form.push(("scope", scopes));
    let ghost four = form@;
    match client_secret {
        Some(s) => form.push(("client_secret", s)),
        None => {},
    }
    assert(form@.take(4) =~= four);
    form
}

/// The OAuth client id of an account, which OAuth accounts must have.
pub fn require_client_id(account: &Account) -> (r: Result<&String, Error>)
    ensures
        match account.client_id {
            Some(c) => r == Ok::<&String, Error>(&c),
            None => r matches Err(Error::OAuth(m)) && m@ == "账户 "@ + account.email@
                + " 缺少 client_id，请重新 login"@,
        },
{
    match &account.client_id {
        Some(c) => Ok(c),
        None => {
            let mut m = crate::text::owned("账户 ");
            m.append(account.email.as_str());
            m.append(" 缺少 client_id，请重新 login");
            Err(Error::OAuth(m))
        },
    }
}

/// The refresh token of an authorization response, which the login needs.
pub fn refresh_token_from(token: Option<String>) -> (r: Result<String, Error>)
    ensures
        match token {
            Some(t) => r == Ok::<String, Error>(t),
            None => r matches Err(Error::OAuth(m)) && m@
                == "授权响应缺少 refresh_token（Gmail 需 access_type=offline+prompt=consent；MS 需 offline_access scope）"@,
        },
{
    match token {
        Some(t) => Ok(t),
        None => Err(
            Error::OAuth(
                crate::text::owned(
                    "授权响应缺少 refresh_token（Gmail 需 access_type=offline+prompt=consent；MS 需 offline_access scope）",
                ),
            ),
        ),
    }
}

/// Whether a refresh token returned by the server replaces the stored one:
/// only when one was returned and it differs.
pub fn rotated_refresh(returned: Option<&str>, current: &str) -> (r: bool)
    ensures
        r == match returned {
            Some(t) => t@ != current@,
            None => false,
        },
{
    match returned {
        Some(t) => !crate::text::str_eq(t, current),
        None => false,
    }
}

// ---------------------------------------------------------------------
// Access-token cache
// ---------------------------------------------------------------------

/// A cached token is used only while more than the safety margin is left.
pub open spec fn token_fresh(now: u64, expires_at: u64) -> bool {
    now + EXPIRY_MARGIN_SECS < expires_at
}

/// Whether a cached access token may still be used.
pub fn cached_token_fresh(now: u64, expires_at: u64) -> (r: bool)
    ensures
        r == token_fresh(now, expires_at),
{
    now < expires_at && expires_at - now > EXPIRY_MARGIN_SECS
}

/// The absolute expiry of a token issued at `now`: its lifetime, or one
/// hour when the response gives none.
pub open spec fn expiry_spec(now: u64, expires_in: Option<u64>) -> int {
    now + match expires_in {
        Some(s) => s,
        None => DEFAULT_TOKEN_LIFETIME_SECS,
    }
}

/// The absolute expiry of a freshly issued token.
pub fn token_expiry(now: u64, expires_in: Option<u64>) -> (r: u64)
    requires
        expiry_spec(now, expires_in) <= u64::MAX,
    ensures
        r == expiry_spec(now, expires_in),
{
    let lifetime = match expires_in {
        Some(s) => s,
        None => DEFAULT_TOKEN_LIFETIME_SECS,
    };
    now + lifetime
}

/// A token stays fresh until the margin before its expiry, and a token
/// just issued with a lifetime beyond the margin is fresh.
pub proof fn lemma_fresh_token_window(now: u64, later: u64, expires_at: u64, expires_in: u64)
    ensures
        now <= later && token_fresh(later, expires_at) ==> token_fresh(now, expires_at),
        expires_in > EXPIRY_MARGIN_SECS && expiry_spec(now, Some(expires_in)) <= u64::MAX
            ==> token_fresh(now, expiry_spec(now, Some(expires_in)) as u64),
{
}

/// The system clock in whole seconds since the Unix epoch, or the display
/// text of the error when the clock reads before the epoch
/// (`SystemTime::now().duration_since(UNIX_EPOCH)`). What it returns
/// depends on the time of the call, so nothing is claimed of it.
#[verifier::external_body]
fn clock_seconds() -> (r: Result<u64, String>) {
    std::time::SystemTime::now().duration_since(std::time::UNIX_EPOCH).map(|d| d.as_secs()).map_err(
        |e| e.to_string(),
    )
}

/// The current time in seconds since the Unix epoch; a clock set before
/// the epoch is an OAuth error `系统时间异常: <reason>`.
pub fn now_unix() -> (r: Result<u64, Error>)
    ensures
        r matches Err(e) ==> (e matches Error::OAuth(m) && "系统时间异常: "@.is_prefix_of(m@)),
{
    match clock_seconds() {
        Ok(s) => Ok(s),
        Err(reason) => {
            let mut m = crate::text::owned("系统时间异常: ");
            m.append(reason.as_str());
            proof {
                assert(m@.subrange(0, "系统时间异常: "@.len() as int) =~= "系统时间异常: "@);
            }
            Err(Error::OAuth(m))
        },
    }
}

/// An access token cached with its absolute expiry (Unix seconds).
#[derive(Debug)]
pub struct CachedAccess {
    pub access_token: String,
    pub expires_at: u64,
}

/// The first step of getting an access token: a cached token is used
/// while it is fresh; otherwise (none cached, or too close to expiry) a
/// refresh is needed and `None` is returned.
pub fn usable_cached_token(cached: Option<CachedAccess>, now: u64) -> (r: Option<String>)
    ensures
        match cached {
            Some(c) => if token_fresh(now, c.expires_at) {
                r == Some(c.access_token)
            } else {
                r is None
            },
            None => r is None,
        },
{
    match cached {
        Some(c) => if cached_token_fresh(now, c.expires_at) {
            Some(c.access_token)
        } else {
            None
        },
        None => None,
    }
}

/// What follows a successful refresh: the refresh token to persist, when
/// the server rotated it, and the entry to cache.
#[derive(Debug)]
pub struct RefreshOutcome {
    pub rotated: Option<String>,
    pub cache: CachedAccess,
}

/// The second step of getting an access token, after the refresh grant
/// answered at `now`: persist the returned refresh token when it differs
/// from the one used, and cache the new access token until its expiry.
pub fn after_refresh(
    current: &str,
    returned: Option<String>,
    access_token: String,
    now: u64,
    expires_in: Option<u64>,
) -> (r: RefreshOutcome)
    requires
        expiry_spec(now, expires_in) <= u64::MAX,
    ensures
        match returned {
            Some(t) => if t@ != current@ {
                r.rotated == Some(t)
            } else {
                r.rotated is None
            },
            None => r.rotated is None,
        },
        r.cache.access_token == access_token,
        r.cache.expires_at == expiry_spec(now, expires_in),
{
    let rotated = match returned {
        Some(t) => if rotated_refresh(Some(t.as_str()), current) {
            Some(t)
        } else {
            None
        },
        None => None,
    };
    RefreshOutcome {
        rotated,
        cache: CachedAccess { access_token, expires_at: token_expiry(now, expires_in) },
    }
}

/// Whether the browser gets an answer to its redirect request: always,
/// except for a request line without a target.
pub fn redirect_answered(line: &str) -> (r: bool)
    ensures
        r == request_query(line@) is Some,
{
    let ws = split_words(line);
    assert(ws@.len() == words(line@).len());
    ws.len() >= 2
}

// ---------------------------------------------------------------------
// Token endpoint failures
// ---------------------------------------------------------------------

/// How a token request failed.
#[derive(Debug)]
pub enum TokenFailure {
    /// The endpoint answered with an error status; `body` is its reply
    /// text when it could be read (it carries `error_description`).
    Rejected { body: Option<String> },
    /// The request did not get an answer (network, TLS, DNS).
    Transport { text: String },
    /// The endpoint answered, but its reply is not a token response.
    BadReply { text: String },
}

/// The error a failed token request is reported as: a rejection carries
/// the endpoint's reply (or `token 端点返回错误`) as an OAuth error, a
/// transport failure is an HTTP error, and an unreadable reply is an
/// OAuth error `解析 token 响应失败: <reason>`.
pub fn token_failure(f: TokenFailure) -> (r: Error)
    ensures
        match f {
            TokenFailure::Rejected { body } => r matches Error::OAuth(m) && m@ == match body {
                Some(b) => b@,
                None => "token 端点返回错误"@,
            },
            TokenFailure::Transport { text } => r matches Error::Http(m) && m@ == text@,
            TokenFailure::BadReply { text } => r matches Error::OAuth(m) && m@ == "解析 token 响应失败: "@
                + text@,
        },
        // Only a failure to reach the endpoint is worth retrying.
        crate::error::transient(r) <==> f is Transport,
{
    match f {
        TokenFailure::Rejected { body } => Error::OAuth(
            match body {
                Some(b) => b,
                None => crate::text::owned("token 端点返回错误"),
            },
        ),
        TokenFailure::Transport { text } => Error::Http(text),
        TokenFailure::BadReply { text } => {
            let mut m = crate::text::owned("解析 token 响应失败: ");
            m.append(text.as_str());
            Error::OAuth(m)
        },
    }
}

// ---------------------------------------------------------------------
// The loopback redirect
// ---------------------------------------------------------------------

/// Pieces of `s` between occurrences of `sep` (as `str::split`: at least
/// one piece, possibly empty).
pub open spec fn split_on(s: Seq<char>, sep: char) -> Seq<Seq<char>>
    decreases s.len(),
{
    if s.len() == 0 {
        seq![Seq::empty()]
    } else {
        let prev = split_on(s.drop_last(), sep);
        if s.last() == sep {
            prev.push(Seq::empty())
        } else {
            prev.update(prev.len() - 1, prev.last().push(s.last()))
        }
    }
}

proof fn lemma_split_on_nonempty(s: Seq<char>, sep: char)
    ensures
        split_on(s, sep).len() >= 1,
    decreases s.len(),
{
    if s.len() > 0 {
        lemma_split_on_nonempty(s.drop_last(), sep);
    }
}

/// The first position of `c` in `s`.
pub open spec fn first_index(s: Seq<char>, c: char) -> Option<int> {
    if exists|i: int| 0 <= i < s.len() && s[i] == c && forall|j: int| 0 <= j < i ==> s[j] != c {
        Some(choose|i: int| 0 <= i < s.len() && s[i] == c && forall|j: int| 0 <= j < i ==> s[j] != c)
    } else {
        None
    }
}

/// The part after the first `c`, or nothing when there is none
/// (`split_once(c).map(|(_, after)| after)`).
pub open spec fn after_first(s: Seq<char>, c: char) -> Option<Seq<char>> {
    match first_index(s, c) {
        Some(i) => Some(s.skip(i + 1)),
        None => None,
    }
}

/// The part before the first `c`.
pub open spec fn before_first(s: Seq<char>, c: char) -> Option<Seq<char>> {
    match first_index(s, c) {
        Some(i) => Some(s.take(i)),
        None => None,
    }
}

/// A query value percent-decoded, or kept as is when the decoded bytes
/// are not UTF-8.
pub open spec fn decoded_param(v: Seq<char>) -> Seq<char> {
    let d = percent_decoded(vstd::utf8::encode_utf8(v));
    if vstd::utf8::valid_utf8(d) {
        decode_utf8(d)
    } else {
        v
    }
}

/// The decoded value of the last `key=value` pair with this key.
pub open spec fn param(pairs: Seq<Seq<char>>, key: Seq<char>) -> Option<Seq<char>>
    decreases pairs.len(),
{
    if pairs.len() == 0 {
        None
    } else {
        let p = pairs.last();
        if before_first(p, '=') == Some(key) {
            Some(decoded_param(after_first(p, '=')->0))
        } else {
            param(pairs.drop_last(), key)
        }
    }
}

/// The query of the request target (the second word of the request line),
/// or nothing when the line has fewer than two words.
pub open spec fn request_query(line: Seq<char>) -> Option<Seq<char>> {
    let ws = words(line);
    if ws.len() < 2 {
        None
    } else {
        Some(
            match after_first(ws[1], '?') {
                Some(q) => q,
                None => Seq::empty(),
            },
        )
    }
}

/// What the redirect request line yields: the authorization code and the
/// state, or the error that ends the login.
pub open spec fn redirect_outcome(line: Seq<char>) -> Result<(Seq<char>, Seq<char>), Seq<char>> {
    match request_query(line) {
        None => Err("回调请求格式异常"@),
        Some(q) => {
            let pairs = split_on(q, '&');
            match param(pairs, "error"@) {
                Some(e) => Err("授权被拒绝: "@ + e),
                None => match (param(pairs, "code"@), param(pairs, "state"@)) {
                    (Some(c), Some(s)) => Ok((c, s)),
                    _ => Err("回调缺少 code/state"@),
                },
            }
        },
    }
}

/// The position of the first `c` in `v`, if any.
fn find_char(v: &Vec<char>, c: char) -> (r: Option<usize>)
    ensures
        match r {
            Some(i) => first_index(v@, c) == Some(i as int) && i < v@.len() && v@[i as int] == c,
            None => first_index(v@, c) is None,
        },
{
    let mut i: usize = 0;
    while i < v.len()
        invariant
            i <= v.len(),
            forall|j: int| 0 <= j < i ==> v@[j] != c,
        decreases v.len() - i,
    {
        if v[i] == c {
            proof {
                let k = choose|k: int|
                    0 <= k < v@.len() && v@[k] == c && forall|j: int| 0 <= j < k ==> v@[j] != c;
                if k < i {
                    assert(v@[k] != c);
                }
                if i < k {
                    assert(v@[i as int] != c);
                }
            }
            return Some(i);
        }
        i += 1;
    }
    None
}

/// The pieces of `v` between occurrences of `sep`.
fn split_chars(v: &Vec<char>, sep: char) -> (r: Vec<Vec<char>>)
    ensures
        char_views(r@) == split_on(v@, sep),
{
    let mut done: Vec<Vec<char>> = Vec::new();
    let mut cur: Vec<char> = Vec::new();
    let mut i: usize = 0;
    while i < v.len()
        invariant
            i <= v.len(),
            split_on(v@.take(i as int), sep) == char_views(done@).push(cur@),
        decreases v.len() - i,
    {
        let c = v[i];
        assert(v@.take(i + 1).drop_last() =~= v@.take(i as int));
        if c == sep {
            let ghost old_done = done@;
            let w = cur;
            done.push(w);
            cur = Vec::new();
            assert(char_views(done@) =~= char_views(old_done).push(w@));
            assert(split_on(v@.take(i + 1), sep) =~= char_views(done@).push(cur@));
        } else {
            let ghost prev = cur@;
            cur.push(c);
            assert(split_on(v@.take(i + 1), sep) =~= char_views(done@).push(cur@));
        }
        i += 1;
    }
    assert(v@.take(v.len() as int) =~= v@);
    let ghost old_done = done@;
    let w = cur;
    done.push(w);
    assert(char_views(done@) =~= char_views(old_done).push(w@));
    done
}

/// A query value percent-decoded, or kept as is when that fails.
fn decode_param(v: &Vec<char>) -> (r: String)
    ensures
        r@ == decoded_param(v@),
{
    let s = string_of(v);
    match url_decode(s.as_str()) {
        Some(d) => d,
        None => s,
    }
}

/// The decoded value of the last pair with this key.
fn find_param(pairs: &Vec<Vec<char>>, key: &str) -> (r: Option<String>)
    ensures
        match r {
            Some(s) => param(char_views(pairs@), key@) == Some(s@),
            None => param(char_views(pairs@), key@) is None,
        },
{
    let k = chars_of(key);
    let mut i: usize = pairs.len();
    assert(pairs@.take(i as int) =~= pairs@);
    while i > 0
        invariant
            i <= pairs.len(),
            k@ == key@,
            param(char_views(pairs@), key@) == param(char_views(pairs@.take(i as int)), key@),
        decreases i,
    {
        let p = &pairs[i - 1];
        assert(char_views(pairs@.take(i as int)).drop_last() =~= char_views(
            pairs@.take(i - 1),
        ));
        assert(char_views(pairs@.take(i as int)).last() == p@);
        match find_char(p, '=') {
            Some(eq) => {
                let before = crate::text::prefix_upto(p, eq);
                if chars_eq(&before, &k) {
                    assert(eq < p.len());
                    let after = crate::text::suffix_from(p, eq + 1);
                    return Some(decode_param(&after));
                }
            },
            None => {},
        }
        i -= 1;
    }
    None
}

/// Reads the code and state from the redirect request line
/// (`GET /?code=...&state=... HTTP/1.1`). An `error` parameter, a
/// malformed line, or a missing code or state ends the login.
pub fn parse_redirect(line: &str) -> (r: Result<(String, String), Error>)
    ensures
        match redirect_outcome(line@) {
            Ok((c, s)) => r matches Ok((code, state)) && code@ == c && state@ == s,
            Err(m) => r matches Err(Error::OAuth(e)) && e@ == m,
        },
{
    let ws = split_words(line);
    if ws.len() < 2 {
        return Err(Error::OAuth(crate::text::owned("回调请求格式异常")));
    }
    assert(words(line@)[1] == ws@[1]@);
    let path = &ws[1];
    let query: Vec<char> = match find_char(path, '?') {
        Some(q) => {
            assert(q < path.len());
            crate::text::suffix_from(path, q + 1)
        },
        None => Vec::new(),
    };
    let pairs = split_chars(&query, '&');
    match find_param(&pairs, "error") {
        Some(e) => {
            let mut m = crate::text::owned("授权被拒绝: ");
            m.append(e.as_str());
            return Err(Error::OAuth(m));
        },
        None => {},
    }
    let code = find_param(&pairs, "code");
    let state = find_param(&pairs, "state");
    match (code, state) {
        (Some(c), Some(s)) => Ok((c, s)),
        _ => Err(Error::OAuth(crate::text::owned("回调缺少 code/state"))),
    }
}

/// The HTTP answer sent to the browser once the redirect arrived.
pub open spec fn redirect_response_spec(body: &str) -> Seq<char> {
    "HTTP/1.1 200 OK\r\nContent-Type: text/html; charset=utf-8\r\nContent-Length: "@ + decimal(
        body.spec_bytes().len(),
    ) + "\r\nConnection: close\r\n\r\n"@ + body@
}

/// The HTTP answer sent to the browser, with the body's byte length.
pub fn redirect_response(body: &str) -> (r: String)
    ensures
        r@ == redirect_response_spec(body),
{
    let mut r = crate::text::owned(
        "HTTP/1.1 200 OK\r\nContent-Type: text/html; charset=utf-8\r\nContent-Length: ",
    );
    let bytes = body.as_bytes();
    push_decimal(&mut r, bytes.len() as u64);
    r.append("\r\nConnection: close\r\n\r\n");
    r.append(body);
    r
}

/// The page shown in the browser after the redirect.
pub fn redirect_page() -> (r: &'static str)
    ensures
        r@ == "<html><body>授权完成，可关闭此窗口返回终端。</body></html>"@,
{
    "<html><body>授权完成，可关闭此窗口返回终端。</body></html>"
}

/// Checks the state echoed by the redirect against the one sent; a
/// mismatch suggests a forged redirect and ends the login.
pub fn check_state(returned: &str, sent: &str) -> (r: Result<(), Error>)
    ensures
        returned@ == sent@ ==> r is Ok,
        returned@ != sent@ ==> (r matches Err(Error::OAuth(m)) && m@ == "state 不匹配，疑似 CSRF，已中止"@),
{
    if crate::text::str_eq(returned, sent) {
        Ok(())
    } else {
        Err(Error::OAuth(crate::text::owned("state 不匹配，疑似 CSRF，已中止")))
    }
}

/// The XOAUTH2 SASL initial response (RFC 7628 style):
/// `user=<email>\x01auth=Bearer <token>\x01\x01`.
pub open spec fn xoauth2_spec(user: Seq<char>, token: Seq<char>) -> Seq<char> {
    "user="@ + user + "\u{1}auth=Bearer "@ + token + "\u{1}\u{1}"@
}

/// The XOAUTH2 SASL initial response.
pub fn xoauth2_response(user: &str, access_token: &str) -> (r: String)
    ensures
        r@ == xoauth2_spec(user@, access_token@),
{
    let mut r = crate::text::owned("user=");
    r.append(user);
    r.append("\u{1}auth=Bearer ");
    r.append(access_token);
    r.append("\u{1}\u{1}");
    r
}

} // verus!
