use mailctl::audit::audit_line;
use mailctl::auth::{
    access_cache_file_name, credential_keys, env_secret, load_password, load_refresh_token,
    oauth_secret_key, persist_rotated_refresh, refresh_key, secret_source, MainSecret, SecretSource,
};
use mailctl::cli::{AuthAction, CacheAction};
use mailctl::commands::{
    flag_detail, label_detail, login_detail, login_mode, logout_detail, move_detail, not_synced,
    plan_delivery, plan_flag, plan_flags, plan_label, plan_login, plan_move, plan_restore, plan_trash,
    restore_detail, send_detail, trash_detail, Delivery, LoginMethod, Step,
};
use mailctl::config::{Account, Config};
use mailctl::envelope::{
    format_address, meta_from_fetch, metas_newest_first, unread_states, AddressParts,
    FetchedMessage,
};
use mailctl::error::{Error, ImapFailure, ImapFailureKind};
use mailctl::mailbox::{
    add_flags_command, check_uidvalidity, label_commands, newest_first, quote_label,
    uid_chunk_sets, uid_set, UID_CHUNK,
};
use mailctl::mime::{body_from_parsed, parse, ParsedMail};
use mailctl::model::{
    meta_row, tsv_accounts_document, tsv_clean, tsv_document, AccountSearch, MessageMeta,
};
use mailctl::oauth::{
    authorization_code_form, authorize_url, cached_token_fresh, check_state, code_challenge,
    now_unix, parse_redirect, redirect_response, redirect_uri, refresh_form,
    refresh_token_from, require_client_id, rotated_refresh, token_expiry, token_failure,
    verifier_from_random, xoauth2_response, TokenFailure, DEFAULT_TOKEN_LIFETIME_SECS,
    EXPIRY_MARGIN_SECS,
};
use mailctl::auth::{imap_login, ImapLogin};
use mailctl::oauth::{after_refresh, redirect_answered, usable_cached_token, CachedAccess};
use mailctl::provider::Provider;
use mailctl::query::{cached_match, filter_cached, translate_query};
use mailctl::retry::{retry_delay_ms, MAX_ATTEMPTS};
use mailctl::smtp::build;
use mailctl::sync::{folder_reset_needed, plan_sync};
use mailctl::utf7::{folder_listing, human, is_decodable_name, wire};

fn account(email: &str, provider: Provider) -> Account {
    Account {
        email: email.to_string(),
        provider,
        client_id: None,
        secret_ref: None,
    }
}

fn meta(uid: u32, from: &str, subject: &str, unread: bool) -> MessageMeta {
    MessageMeta {
        uid,
        from: from.to_string(),
        subject: subject.to_string(),
        date: None,
        unread,
        size: None,
        is_bulk: false,
    }
}

// ---- providers ----

#[test]
fn provider_endpoints() {
    assert_eq!(Provider::Gmail.imap_host(), "imap.gmail.com");
    assert_eq!(Provider::Hotmail.imap_host(), "outlook.office365.com");
    assert_eq!(Provider::Gmail.imap_port(), 993);
    assert_eq!(Provider::Hotmail.imap_port(), 993);
    assert_eq!(Provider::Gmail.smtp_host(), "smtp.gmail.com");
    assert_eq!(Provider::Hotmail.smtp_host(), "smtp-mail.outlook.com");
    assert_eq!(Provider::Gmail.trash_folder(), "[Gmail]/Trash");
    assert_eq!(Provider::Hotmail.trash_folder(), "Deleted");
    assert_eq!(Provider::Gmail.drafts_folder(), "[Gmail]/Drafts");
    assert_eq!(Provider::Hotmail.drafts_folder(), "Drafts");
}

#[test]
fn provider_names_ignore_case() {
    assert_eq!(Provider::parse("Gmail").unwrap(), Provider::Gmail);
    assert_eq!(Provider::parse("OUTLOOK").unwrap(), Provider::Hotmail);
    assert_eq!(Provider::parse("hotmail").unwrap(), Provider::Hotmail);
    let p: Provider = "gMail".parse().unwrap();
    assert_eq!(p, Provider::Gmail);
    match Provider::parse("Yahoo") {
        Err(Error::UnknownProvider(name)) => assert_eq!(name, "yahoo"),
        other => panic!("unexpected {other:?}"),
    }
}

#[test]
fn oauth_endpoints_per_provider() {
    let g = Provider::Gmail.oauth_spec();
    assert!(g.needs_client_secret);
    assert_eq!(g.token_url, "https://oauth2.googleapis.com/token");
    let h = Provider::Hotmail.oauth_spec();
    assert!(!h.needs_client_secret);
    assert_eq!(h.extra_auth_params, "");
}

// ---- errors ----

#[test]
fn error_messages() {
    assert_eq!(Error::Config("x".into()).message(), "配置错误: x");
    assert_eq!(
        Error::AccountNotFound("a@b".into()).message(),
        "找不到账户 `a@b`，请先运行 `mailctl auth login`"
    );
    assert_eq!(Error::MessageNotFound(42).message(), "找不到邮件 uid=42");
    assert_eq!(
        Error::UidValidityMismatch {
            expected: 7,
            actual: 9
        }
        .message(),
        "UIDVALIDITY 不一致：期望 7，实际 9。邮箱可能已重建，UID 已失效，请重新 search 后再操作"
    );
    assert_eq!(Error::MimeParse.message(), "邮件解析失败");
    assert_eq!(Error::Other("plain".into()).message(), "plain");
}

#[test]
fn imap_failures_transient_unless_protocol() {
    let lost = Error::Imap(ImapFailure {
        kind: ImapFailureKind::ConnectionLost,
        text: "gone".into(),
    });
    assert!(lost.is_transient());
    let refused = Error::Imap(ImapFailure {
        kind: ImapFailureKind::Protocol,
        text: "NO".into(),
    });
    assert!(!refused.is_transient());
    assert!(Error::Tls("x".into()).is_transient());
    assert!(Error::Http("x".into()).is_transient());
    assert!(!Error::Keyring("x".into()).is_transient());
}

// ---- configuration ----

#[test]
fn first_upserted_account_becomes_default() {
    let mut c = Config::new();
    c.upsert(account("a@x.com", Provider::Gmail));
    c.upsert(account("b@x.com", Provider::Hotmail));
    assert_eq!(c.default_account.as_deref(), Some("a@x.com"));
    assert_eq!(c.accounts.len(), 2);
    assert_eq!(c.resolve(None).unwrap().email, "a@x.com");
    assert_eq!(c.resolve(Some("b@x.com")).unwrap().provider, Provider::Hotmail);
}

#[test]
fn upsert_replaces_in_place() {
    let mut c = Config::new();
    c.upsert(account("a@x.com", Provider::Gmail));
    c.upsert(account("b@x.com", Provider::Gmail));
    let mut again = account("a@x.com", Provider::Hotmail);
    again.client_id = Some("cid".into());
    c.upsert(again);
    assert_eq!(c.accounts.len(), 2);
    assert_eq!(c.accounts[0].provider, Provider::Hotmail);
    assert_eq!(c.accounts[0].client_id.as_deref(), Some("cid"));
    assert_eq!(c.resolve(Some("b@x.com")).unwrap().email, "b@x.com");
}

#[test]
fn resolve_errors() {
    let c = Config::new();
    assert!(matches!(c.resolve(None), Err(Error::NoDefaultAccount)));
    match c.resolve(Some("nobody@x.com")) {
        Err(Error::AccountNotFound(e)) => assert_eq!(e, "nobody@x.com"),
        other => panic!("unexpected {other:?}"),
    }
}

#[test]
fn remove_moves_default_to_first_remaining() {
    let mut c = Config::new();
    c.upsert(account("a@x.com", Provider::Gmail));
    c.upsert(account("b@x.com", Provider::Gmail));
    c.remove("a@x.com");
    assert_eq!(c.accounts.len(), 1);
    assert_eq!(c.default_account.as_deref(), Some("b@x.com"));
    assert!(matches!(c.resolve(Some("a@x.com")), Err(Error::AccountNotFound(_))));
    c.remove("b@x.com");
    assert!(c.accounts.is_empty());
    assert_eq!(c.default_account, None);
    // Removing an absent account changes nothing.
    c.remove("zzz@x.com");
    assert!(c.accounts.is_empty());
}

// ---- query translation and cached matching ----

#[test]
fn translates_queries() {
    assert_eq!(translate_query(None), "ALL");
    assert_eq!(translate_query(Some("   ")), "ALL");
    assert_eq!(
        translate_query(Some("from:alice is:unread report")),
        "FROM \"alice\" UNSEEN TEXT \"report\""
    );
    assert_eq!(
        translate_query(Some("to:bob subject:hi is:read is:starred")),
        "TO \"bob\" SUBJECT \"hi\" SEEN FLAGGED"
    );
}

#[test]
fn cached_matching_is_and_of_tokens() {
    let m = meta(1, "Alice <alice@x.com>", "Quarterly Report", true);
    assert!(cached_match(&m, None));
    assert!(cached_match(&m, Some("is:unread")));
    assert!(!cached_match(&m, Some("is:read")));
    assert!(cached_match(&m, Some("from:ALICE report")));
    assert!(!cached_match(&m, Some("from:alice budget")));
    assert!(cached_match(&m, Some("subject:quarterly")));
    assert!(!cached_match(&m, Some("subject:alice")));
}

#[test]
fn cached_filter_keeps_order_and_limit() {
    let ms = vec![
        meta(5, "a", "x report", true),
        meta(4, "b", "nothing", true),
        meta(3, "c", "y report", false),
        meta(2, "d", "z report", true),
    ];
    let r = filter_cached(ms, Some("report"), 2);
    let uids: Vec<u32> = r.iter().map(|m| m.uid).collect();
    assert_eq!(uids, vec![5, 3]);
}

// ---- mailbox commands ----

#[test]
fn uidvalidity_pins() {
    assert_eq!(check_uidvalidity(None, Some(9)).unwrap(), 9);
    assert_eq!(check_uidvalidity(Some(9), Some(9)).unwrap(), 9);
    assert_eq!(check_uidvalidity(None, None).unwrap(), 0);
    match check_uidvalidity(Some(8), Some(9)) {
        Err(Error::UidValidityMismatch { expected, actual }) => {
            assert_eq!((expected, actual), (8, 9))
        }
        other => panic!("unexpected {other:?}"),
    }
}

#[test]
fn newest_first_sorts_and_truncates() {
    assert_eq!(newest_first(vec![3, 9, 1, 7], 3), vec![9, 7, 3]);
    assert_eq!(newest_first(vec![2, 1], 10), vec![2, 1]);
    assert_eq!(newest_first(vec![], 5), Vec::<u32>::new());
}

#[test]
fn uid_sets_and_batches() {
    assert_eq!(uid_set(&vec![1, 22, 333]), "1,22,333");
    assert_eq!(uid_set(&vec![]), "");
    let uids: Vec<u32> = (1..=120).collect();
    let sets = uid_chunk_sets(&uids);
    assert_eq!(UID_CHUNK, 50);
    assert_eq!(sets.len(), 3);
    assert!(sets[0].starts_with("1,2,"));
    assert!(sets[0].ends_with(",50"));
    assert!(sets[2].starts_with("101,"));
    assert!(sets[2].ends_with(",120"));
}

#[test]
fn flag_and_label_commands() {
    assert_eq!(add_flags_command(&vec!["\\Seen", "\\Flagged"]), "+FLAGS (\\Seen \\Flagged)");
    assert_eq!(quote_label("a \"b\" \\c"), "\"a \\\"b\\\" \\\\c\"");
    let cmds = label_commands(&vec![4, 5], &vec!["Work".to_string()], &vec!["Old/Box".to_string()]);
    assert_eq!(
        cmds,
        vec![
            "UID STORE 4,5 +X-GM-LABELS.SILENT (\"Work\")".to_string(),
            "UID STORE 4,5 -X-GM-LABELS.SILENT (\"Old/Box\")".to_string(),
        ]
    );
}

// ---- envelopes ----

fn address(name: Option<&[u8]>, mailbox: &[u8], host: Option<&[u8]>) -> AddressParts {
    AddressParts {
        name: name.map(|n| n.to_vec()),
        mailbox: Some(mailbox.to_vec()),
        host: host.map(|h| h.to_vec()),
    }
}

#[test]
fn formats_addresses() {
    assert_eq!(format_address(&address(None, b"bob", Some(b"y.com"))), "bob@y.com");
    assert_eq!(format_address(&address(None, b"local", None)), "local");
    assert_eq!(
        format_address(&address(Some(b"=?UTF-8?B?5L2g5aW9?="), b"ni", Some(b"hao.cn"))),
        "你好 <ni@hao.cn>"
    );
}

fn fetched(uid: u32, seen: bool) -> FetchedMessage {
    FetchedMessage {
        uid: Some(uid),
        subject: Some(b"=?ISO-8859-1?Q?=A1Hola!?=".to_vec()),
        from: vec![address(Some(b"Ann"), b"ann", Some(b"x.com"))],
        date: Some(b"Mon, 1 Jan 2024 10:00:00 +0000".to_vec()),
        seen,
        size: Some(1234),
        header: Some(b"List-Id: <l.x.com>\r\n".to_vec()),
    }
}

#[test]
fn metadata_from_fetch() {
    let m = meta_from_fetch(&fetched(7, false));
    assert_eq!(m.uid, 7);
    assert_eq!(m.subject, "¡Hola!");
    assert_eq!(m.from, "Ann <ann@x.com>");
    assert_eq!(m.date.as_deref(), Some("Mon, 1 Jan 2024 10:00:00 +0000"));
    assert!(m.unread);
    assert_eq!(m.size, Some(1234));
    assert!(m.is_bulk);
    let empty = FetchedMessage {
        uid: None,
        subject: None,
        from: vec![],
        date: None,
        seen: true,
        size: None,
        header: None,
    };
    let e = meta_from_fetch(&empty);
    assert_eq!((e.uid, e.subject.as_str(), e.from.as_str(), e.unread, e.is_bulk), (0, "", "", false, false));
}

#[test]
fn metadata_newest_first() {
    let ms = metas_newest_first(vec![fetched(3, true), fetched(10, false), fetched(5, true)]);
    let uids: Vec<u32> = ms.iter().map(|m| m.uid).collect();
    assert_eq!(uids, vec![10, 5, 3]);
}

#[test]
fn unread_flags() {
    assert_eq!(
        unread_states(&vec![(Some(4), true), (None, false)]),
        vec![(4, false), (0, true)]
    );
}

// ---- folder names ----

#[test]
fn folder_names_round_trip() {
    assert_eq!(wire("INBOX"), "INBOX");
    assert_eq!(wire("草稿"), "&g0l6Pw-");
    assert_eq!(human("&g0l6Pw-"), "草稿");
    assert!(is_decodable_name("&g0l6Pw-"));
    assert!(is_decodable_name("[Gmail]/Sent Mail"));
    assert!(!is_decodable_name("&%%%-"));
}

#[test]
fn folder_listing_sorted() {
    let list = folder_listing(vec![
        ("Work".to_string(), false),
        ("[Gmail]".to_string(), true),
        ("INBOX".to_string(), false),
    ]);
    let names: Vec<&str> = list.iter().map(|f| f.name.as_str()).collect();
    assert_eq!(names, vec!["INBOX", "Work", "[Gmail]"]);
    assert!(!list[2].selectable);
    assert!(list[0].selectable);
}

// ---- TSV ----

#[test]
fn tsv_rows_and_documents() {
    assert_eq!(tsv_clean("a\tb\nc\rd"), "a b c d");
    let mut m = meta(9, "A\tB", "hi\nthere", true);
    m.size = Some(10);
    m.date = Some("d".into());
    assert_eq!(meta_row(&m), "9\tA B\thi there\td\ttrue\t10\tfalse");
    let doc = tsv_document(&vec![("folder", "INBOX".to_string()), ("uidvalidity", "3".to_string())], &vec![m.clone()]);
    assert_eq!(
        doc,
        "# folder=INBOX\tuidvalidity=3\nuid\tfrom\tsubject\tdate\tunread\tsize\tis_bulk\n9\tA B\thi there\td\ttrue\t10\tfalse\n"
    );
    let bare = tsv_document(&vec![], &vec![]);
    assert_eq!(bare, "uid\tfrom\tsubject\tdate\tunread\tsize\tis_bulk\n");
    let accts = vec![
        AccountSearch {
            account: "a@x".into(),
            uidvalidity: Some(5),
            error: None,
            messages: vec![meta(1, "f", "s", false)],
        },
        AccountSearch {
            account: "b@x".into(),
            uidvalidity: None,
            error: Some("boom".into()),
            messages: vec![],
        },
    ];
    assert_eq!(
        tsv_accounts_document("INBOX", &accts),
        "# folder=INBOX\n# account=a@x\tuidvalidity=5\n# account=b@x\terror=boom\naccount\tuid\tfrom\tsubject\tdate\tunread\tsize\tis_bulk\na@x\t1\tf\ts\t\tfalse\t\tfalse\n"
    );
}

// ---- audit ----

#[test]
fn audit_records() {
    assert_eq!(
        audit_line(1700000000, "me@x.com", "trash", "INBOX", Some("[Gmail]/Trash"), &vec![3, 4]),
        "{\"account\":\"me@x.com\",\"action\":\"trash\",\"dest\":\"[Gmail]/Trash\",\"folder\":\"INBOX\",\"ts\":1700000000,\"uids\":[3,4]}"
    );
    assert_eq!(
        audit_line(0, "a\"b", "label", "F\\G\n", None, &vec![]),
        "{\"account\":\"a\\\"b\",\"action\":\"label\",\"dest\":null,\"folder\":\"F\\\\G\\n\",\"ts\":0,\"uids\":[]}"
    );
    assert_eq!(
        audit_line(1, "\u{1}", "move", "收件箱", None, &vec![7]),
        "{\"account\":\"\\u0001\",\"action\":\"move\",\"dest\":null,\"folder\":\"收件箱\",\"ts\":1,\"uids\":[7]}"
    );
}

// ---- retry ----

#[test]
fn retry_backoff_schedule() {
    assert_eq!(MAX_ATTEMPTS, 3);
    assert_eq!(retry_delay_ms(1, true), Some(500));
    assert_eq!(retry_delay_ms(2, true), Some(1000));
    assert_eq!(retry_delay_ms(3, true), None);
    assert_eq!(retry_delay_ms(1, false), None);
}

// ---- sync ----

#[test]
fn sync_plan_partitions_uids() {
    let p = plan_sync(&vec![1, 2, 3, 5], &vec![2, 4, 5, 4, 6]);
    assert_eq!(p.new_uids, vec![1, 3]);
    assert_eq!(p.existing, vec![2, 5]);
    assert_eq!(p.deleted, vec![4, 6]);
    assert!(folder_reset_needed(None, 5));
    assert!(folder_reset_needed(Some(4), 5));
    assert!(!folder_reset_needed(Some(5), 5));
}

// ---- credentials ----

#[test]
fn credential_keys_and_env_backend() {
    assert_eq!(refresh_key("a@x.com"), "a@x.com#refresh");
    assert_eq!(oauth_secret_key("a@x.com"), "a@x.com#oauth-secret");
    assert_eq!(
        credential_keys("a@x.com"),
        vec!["a@x.com".to_string(), "a@x.com#refresh".to_string(), "a@x.com#oauth-secret".to_string()]
    );
    assert_eq!(access_cache_file_name("a@x.com"), "a@x.com.token");
    let mut acct = account("a@x.com", Provider::Gmail);
    assert!(matches!(secret_source(&acct, None, MainSecret::RefreshToken), SecretSource::Keychain(u) if u == "a@x.com#refresh"));
    assert!(matches!(secret_source(&acct, None, MainSecret::AppPassword), SecretSource::Keychain(u) if u == "a@x.com"));
    // Without a secret_ref the environment is never consulted.
    assert_eq!(env_secret(&acct, Some("ignored".into())), None);
    acct.secret_ref = Some("MAIL_SECRET".into());
    assert_eq!(env_secret(&acct, None), None);
    assert_eq!(env_secret(&acct, Some("s3cret".into())).as_deref(), Some("s3cret"));
    assert_eq!(load_password(&acct, Some("s3cret".into())).unwrap().into_value(), "s3cret");
    assert!(matches!(secret_source(&acct, Some("v".into()), MainSecret::AppPassword), SecretSource::Environment(v) if v == "v"));
    assert_eq!(load_refresh_token(&acct, Some("rt".into())).unwrap().into_value(), "rt");
    assert!(matches!(persist_rotated_refresh(&acct, "new", Some("rt".into())), Ok(None)));
}

// ---- OAuth ----

#[test]
fn pkce_values() {
    // RFC 7636 appendix B.
    let verifier = "dBjftJeZ4CVP-mB92K27uhbUJU1p1r_wW1gFWFOEjXk";
    assert_eq!(code_challenge(verifier), "E9Melhoa2OwvFrEMTJguCHaoeK1t8URWbuGJSstw-cM");
    assert_eq!(verifier_from_random(&[0xfb, 0xff]), "-_8");
    assert_eq!(verifier_from_random(b"hello"), "aGVsbG8");
    assert_eq!(verifier_from_random(&[0u8; 32]).len(), 43);
    // SHA-256 of the empty string, base64url without padding.
    assert_eq!(code_challenge(""), "47DEQpj8HBSa-_TImW-5JCeuQeRkm5NMpJWZG3hSuFU");
}

#[test]
fn url_encoding() {
    let spec = Provider::Hotmail.oauth_spec();
    let url = authorize_url(&spec, "a b&c=d/é", "r", "AZaz09-_.~", "e", "c");
    assert!(url.contains("?client_id=a%20b%26c%3Dd%2F%C3%A9&"));
    assert!(url.contains("&state=AZaz09-_.~&"));
    let (code, state) = parse_redirect("GET /?code=a%20b%2Fc&state=plus+stays HTTP/1.1").unwrap();
    assert_eq!((code.as_str(), state.as_str()), ("a b/c", "plus+stays"));
    // Bytes that do not decode to UTF-8 are kept as they were sent.
    let (code, _) = parse_redirect("GET /?code=%FF&state=s HTTP/1.1").unwrap();
    assert_eq!(code, "%FF");
}

#[test]
fn authorization_url_and_forms() {
    let spec = Provider::Hotmail.oauth_spec();
    let redirect = redirect_uri(8123);
    assert_eq!(redirect, "http://localhost:8123");
    let url = authorize_url(&spec, "cid", &redirect, "st", "me@x.com", "ch");
    assert_eq!(
        url,
        "https://login.microsoftonline.com/consumers/oauth2/v2.0/authorize?client_id=cid&response_type=code&redirect_uri=http%3A%2F%2Flocalhost%3A8123&scope=offline_access%20https%3A%2F%2Foutlook.office.com%2FIMAP.AccessAsUser.All%20https%3A%2F%2Foutlook.office.com%2FSMTP.Send&state=st&login_hint=me%40x.com&code_challenge=ch&code_challenge_method=S256"
    );
    let g = Provider::Gmail.oauth_spec();
    assert!(authorize_url(&g, "c", "r", "s", "e", "h").ends_with("&code_challenge_method=S256&access_type=offline&prompt=consent"));
    let form = authorization_code_form("cid", "code", "http://localhost:1", "ver", "sc", Some("sec"));
    assert_eq!(form.len(), 7);
    assert_eq!(form[1], ("grant_type", "authorization_code"));
    assert_eq!(form[6], ("client_secret", "sec"));
    let rf = refresh_form("cid", "rt", "sc", None);
    assert_eq!(rf, vec![("client_id", "cid"), ("grant_type", "refresh_token"), ("refresh_token", "rt"), ("scope", "sc")]);
}

#[test]
fn redirect_parsing() {
    let (code, state) = parse_redirect("GET /?code=a%2Fb&state=xyz HTTP/1.1\r\n").unwrap();
    assert_eq!((code.as_str(), state.as_str()), ("a/b", "xyz"));
    match parse_redirect("GET /?error=access_denied&state=xyz HTTP/1.1") {
        Err(Error::OAuth(m)) => assert_eq!(m, "授权被拒绝: access_denied"),
        other => panic!("unexpected {other:?}"),
    }
    match parse_redirect("GET /?code=a HTTP/1.1") {
        Err(Error::OAuth(m)) => assert_eq!(m, "回调缺少 code/state"),
        other => panic!("unexpected {other:?}"),
    }
    match parse_redirect("GARBAGE") {
        Err(Error::OAuth(m)) => assert_eq!(m, "回调请求格式异常"),
        other => panic!("unexpected {other:?}"),
    }
    // The last occurrence of a parameter wins.
    let (code, _) = parse_redirect("GET /cb?code=1&code=2&state=s HTTP/1.1").unwrap();
    assert_eq!(code, "2");
    assert!(check_state("s", "s").is_ok());
    match check_state("t", "s") {
        Err(Error::OAuth(m)) => assert_eq!(m, "state 不匹配，疑似 CSRF，已中止"),
        other => panic!("unexpected {other:?}"),
    }
    let page = "<p>ok</p>";
    assert_eq!(
        redirect_response(page),
        "HTTP/1.1 200 OK\r\nContent-Type: text/html; charset=utf-8\r\nContent-Length: 9\r\nConnection: close\r\n\r\n<p>ok</p>"
    );
}

#[test]
fn token_lifecycle() {
    assert_eq!(EXPIRY_MARGIN_SECS, 60);
    assert_eq!(token_expiry(1000, Some(10)), 1010);
    assert_eq!(token_expiry(1000, None), 1000 + DEFAULT_TOKEN_LIFETIME_SECS);
    assert!(cached_token_fresh(1000, 1061));
    assert!(!cached_token_fresh(1000, 1060));
    assert!(!cached_token_fresh(2000, 1000));
    assert!(rotated_refresh(Some("new"), "old"));
    assert!(!rotated_refresh(Some("old"), "old"));
    assert!(!rotated_refresh(None, "old"));
    assert_eq!(refresh_token_from(Some("rt".into())).unwrap(), "rt");
    assert!(matches!(refresh_token_from(None), Err(Error::OAuth(_))));
    let mut acct = account("a@x.com", Provider::Hotmail);
    match require_client_id(&acct) {
        Err(Error::OAuth(m)) => assert_eq!(m, "账户 a@x.com 缺少 client_id，请重新 login"),
        other => panic!("unexpected {other:?}"),
    }
    acct.client_id = Some("cid".into());
    assert_eq!(require_client_id(&acct).unwrap(), "cid");
    assert!(now_unix().unwrap() > 1_600_000_000);
}

#[test]
fn token_failures() {
    let rejected = token_failure(TokenFailure::Rejected { body: Some("{\"error\":\"invalid_grant\"}".into()) });
    assert!(!rejected.is_transient());
    assert!(matches!(&rejected, Error::OAuth(m) if m == "{\"error\":\"invalid_grant\"}"));
    assert!(matches!(token_failure(TokenFailure::Rejected { body: None }), Error::OAuth(m) if m == "token 端点返回错误"));
    let transport = token_failure(TokenFailure::Transport { text: "dns".into() });
    assert!(transport.is_transient());
    assert!(matches!(token_failure(TokenFailure::BadReply { text: "eof".into() }), Error::OAuth(m) if m == "解析 token 响应失败: eof"));
}

#[test]
fn xoauth2_initial_response() {
    assert_eq!(xoauth2_response("a@x.com", "tok"), "user=a@x.com\u{1}auth=Bearer tok\u{1}\u{1}");
}

// ---- commands ----

#[test]
fn trash_plans() {
    let folder = "INBOX".to_string();
    let preview = plan_trash(Provider::Gmail, &folder, &vec![1, 2], false, Some(5));
    assert_eq!(preview.len(), 1);
    assert!(matches!(&preview[0], Step::Preview { folder, uids, expect: Some(5) } if folder == "INBOX" && uids == &vec![1, 2]));
    let real = plan_trash(Provider::Hotmail, &folder, &vec![1], true, None);
    assert_eq!(real.len(), 2);
    assert!(matches!(&real[0], Step::Audit { action: "trash", dest: Some(d), .. } if d == "Deleted"));
    assert!(matches!(&real[1], Step::MoveMessages { to, .. } if to == "Deleted"));
}

#[test]
fn restore_move_label_plans() {
    let r = plan_restore(Provider::Gmail, &vec![9], &"INBOX".to_string(), None);
    assert!(matches!(&r[0], Step::Audit { action: "restore", folder, .. } if folder == "[Gmail]/Trash"));
    assert!(matches!(&r[1], Step::MoveMessages { from, to, .. } if from == "[Gmail]/Trash" && to == "INBOX"));
    let m = plan_move(&"INBOX".to_string(), &vec![1], &"Archive".to_string(), true, Some(3));
    assert_eq!(m.len(), 3);
    assert!(matches!(&m[1], Step::EnsureFolder { name } if name == "Archive"));
    match plan_label(Provider::Hotmail, &"INBOX".to_string(), &vec![1], &vec!["x".into()], &vec![], None) {
        Err(Error::Other(msg)) => assert_eq!(msg, "标签仅 Gmail 支持；Hotmail 请用 `move` 移动到文件夹"),
        other => panic!("unexpected {other:?}"),
    }
    match plan_label(Provider::Gmail, &"INBOX".to_string(), &vec![1], &vec![], &vec![], None) {
        Err(Error::Other(msg)) => assert_eq!(msg, "请用 --add 或 --remove 指定标签"),
        other => panic!("unexpected {other:?}"),
    }
    let ok = plan_label(Provider::Gmail, &"INBOX".to_string(), &vec![1], &vec!["x".into()], &vec![], None).unwrap();
    assert!(matches!(&ok[0], Step::Audit { action: "label", dest: None, .. }));
}

#[test]
fn flags_and_reports() {
    let (flags, names) = plan_flags(true, true);
    assert_eq!(flags, vec!["\\Seen", "\\Flagged"]);
    assert_eq!(flag_detail(&names), "已应用: read, star");
    let (flags, _) = plan_flags(false, true);
    assert_eq!(flags, vec!["\\Flagged"]);
    let plan = plan_flag(&"INBOX".to_string(), 5, true, true);
    assert_eq!(plan.len(), 3);
    assert!(matches!(&plan[0], Step::Audit { action: "flag", dest: None, uids, .. } if uids == &vec![5]));
    assert!(matches!(&plan[1], Step::AddFlag { flag: "\\Seen", .. }));
    assert!(matches!(&plan[2], Step::AddFlag { flag: "\\Flagged", .. }));
    assert!(plan_flag(&"INBOX".to_string(), 5, false, false).is_empty());
    assert_eq!(trash_detail(2, "Deleted"), "已移动 2 封到 Deleted（30 天内可 restore 找回）");
    assert_eq!(restore_detail("Deleted", 1, "INBOX"), "已从 Deleted 恢复 1 封到 INBOX");
    assert_eq!(move_detail(3, "INBOX", "Archive"), "已移动 3 封：INBOX -> Archive");
    assert_eq!(label_detail(4), "已更新 4 封的标签");
    assert_eq!(send_detail(&vec!["a@x".into(), "b@y".into()]), "已发送给 a@x, b@y");
    assert_eq!(logout_detail("a@x"), "已注销 a@x");
    assert!(matches!(not_synced("a@x", "INBOX"), Error::Other(m) if m == "a@x 的 INBOX 尚未 sync，请先 `mailctl sync`"));
    assert_eq!(login_mode(false, true), "App Password (secretctl/env)");
    assert_eq!(
        login_detail("a@x", Provider::Hotmail, login_mode(true, false)),
        "已保存账户 a@x（Hotmail，OAuth）"
    );
}

#[test]
fn login_plans() {
    match plan_login(Provider::Gmail, Some("cid".into()), None, false) {
        Err(Error::OAuth(m)) => assert_eq!(m, "Gmail OAuth 需要 --client-secret（Google Cloud Desktop 客户端密钥）"),
        other => panic!("unexpected {other:?}"),
    }
    match plan_login(Provider::Hotmail, None, None, false) {
        Err(Error::OAuth(m)) => assert_eq!(m, "Hotmail 需要 --client-id（Azure 应用注册的 public client id）"),
        other => panic!("unexpected {other:?}"),
    }
    assert!(matches!(
        plan_login(Provider::Gmail, None, None, true),
        Ok(LoginMethod::AppPassword { store_in_keychain: false })
    ));
    assert!(matches!(
        plan_login(Provider::Gmail, Some("c".into()), Some("s".into()), false),
        Ok(LoginMethod::OAuth { client_secret: Some(_), .. })
    ));
}

#[test]
fn drafts_first_delivery() {
    assert!(matches!(plan_delivery(Provider::Gmail, true), Delivery::Send));
    assert!(matches!(plan_delivery(Provider::Gmail, false), Delivery::SaveDraft { folder: "[Gmail]/Drafts" }));
    assert!(matches!(plan_delivery(Provider::Hotmail, false), Delivery::SaveDraft { folder: "Drafts" }));
}

// ---- messages ----

#[test]
fn mime_parsing() {
    let raw = b"From: Ann <ann@x.com>\r\nTo: bob@y.com, Carl <carl@z.com>\r\nSubject: =?UTF-8?B?5L2g5aW9?=\r\nDate: Mon, 1 Jan 2024 10:00:00 +0000\r\nContent-Type: text/plain; charset=utf-8\r\n\r\nHello body\r\n";
    let b = parse(3, raw).unwrap();
    assert_eq!(b.uid, 3);
    assert_eq!(b.from, "ann@x.com");
    assert_eq!(b.to, vec!["bob@y.com".to_string(), "carl@z.com".to_string()]);
    assert_eq!(b.subject, "你好");
    assert_eq!(b.date.as_deref(), Some("2024-01-01T10:00:00Z"));
    assert!(b.text.unwrap().starts_with("Hello body"));
    // The parser renders a text-only body as HTML too, so an HTML body is
    // reported for every message with a body.
    assert!(b.has_html);
    assert!(b.attachments.is_empty());
    // Bytes without any header are no message.
    assert!(matches!(parse(1, b""), Err(Error::MimeParse)));
}

#[test]
fn body_from_parser_fields() {
    let p = ParsedMail {
        subject: None,
        from: vec![None, Some("second@x".into())],
        to: vec![Some("a@x".into()), None, Some("b@x".into())],
        date: None,
        text: Some("t".into()),
        has_html: true,
        attachment_names: vec![None, Some("f.pdf".into())],
    };
    let b = body_from_parsed(8, &p);
    assert_eq!(b.from, "");
    assert_eq!(b.subject, "");
    assert_eq!(b.to, vec!["a@x".to_string(), "b@x".to_string()]);
    assert_eq!(b.attachments, vec!["f.pdf".to_string()]);
    assert!(b.has_html);
}

#[test]
fn builds_outgoing_message() {
    let acct = account("me@x.com", Provider::Gmail);
    let msg = build(&acct, &vec!["you@y.com".to_string()], "Hi", "Body").unwrap().message;
    let text = String::from_utf8(msg.formatted()).unwrap();
    assert!(text.contains("From: me@x.com"));
    assert!(text.contains("To: you@y.com"));
    assert!(text.contains("Subject: Hi"));
    assert!(matches!(build(&acct, &vec!["not an address".to_string()], "Hi", "B"), Err(Error::Address(_))));
    let bad_sender = account("nope", Provider::Gmail);
    assert!(matches!(build(&bad_sender, &vec!["you@y.com".to_string()], "Hi", "B"), Err(Error::Address(_))));
    assert!(matches!(build(&acct, &vec![], "Hi", "B"), Err(Error::MailBuild(_))));
}

#[test]
fn cli_actions_are_plain_values() {
    let a = AuthAction::Logout { email: "a@x".into() };
    assert!(matches!(a, AuthAction::Logout { .. }));
    assert!(matches!(CacheAction::Info, CacheAction::Info));
}

#[test]
fn imap_login_follows_client_id() {
    let mut acct = account("a@x.com", Provider::Gmail);
    assert_eq!(imap_login(&acct), ImapLogin::Password);
    acct.client_id = Some("cid".into());
    assert_eq!(imap_login(&acct), ImapLogin::XOAuth2);
}

#[test]
fn token_steps() {
    let fresh = CachedAccess { access_token: "tok".into(), expires_at: 2000 };
    assert_eq!(usable_cached_token(Some(fresh), 1000).as_deref(), Some("tok"));
    let stale = CachedAccess { access_token: "tok".into(), expires_at: 1050 };
    assert_eq!(usable_cached_token(Some(stale), 1000), None);
    assert_eq!(usable_cached_token(None, 1000), None);
    let o = after_refresh("old", Some("new".into()), "acc".into(), 100, Some(50));
    assert_eq!(o.rotated.as_deref(), Some("new"));
    assert_eq!((o.cache.access_token.as_str(), o.cache.expires_at), ("acc", 150));
    let o = after_refresh("old", Some("old".into()), "acc".into(), 100, None);
    assert_eq!(o.rotated, None);
    assert_eq!(o.cache.expires_at, 3700);
    assert_eq!(after_refresh("old", None, "a".into(), 0, None).rotated, None);
}

#[test]
fn redirect_answer_decision() {
    assert!(redirect_answered("GET /?code=1&state=2 HTTP/1.1"));
    assert!(redirect_answered("GET /?error=x HTTP/1.1"));
    assert!(!redirect_answered("GARBAGE"));
    assert!(!redirect_answered(""));
}

#[test]
fn builds_to_every_recipient() {
    let acct = account("me@x.com", Provider::Gmail);
    let out = build(&acct, &vec!["a@y.com".to_string(), "Bee <b@z.com>".to_string()], "S", "B").unwrap();
    let text = String::from_utf8(out.message.formatted()).unwrap();
    assert!(text.contains("a@y.com"));
    assert!(text.contains("b@z.com"));
    assert!(text.contains("Content-Type: text/plain"));
}

#[test]
fn folder_listing_keeps_equal_names_in_order() {
    let list = folder_listing(vec![
        ("A".to_string(), true),
        ("B".to_string(), false),
        ("A".to_string(), false),
    ]);
    let got: Vec<(&str, bool)> = list.iter().map(|f| (f.name.as_str(), f.selectable)).collect();
    assert_eq!(got, vec![("A", false), ("A", true), ("B", true)]);
}
