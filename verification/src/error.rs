//! The library's error type. Every failure path ends in one of these
//! variants; failures reported by network, TLS, keychain or storage layers
//! are carried as their display text together with the class that decides
//! whether retrying makes sense.
use vstd::prelude::*;

verus! {

/// The class of an IMAP protocol-layer failure.
#[derive(Debug, Clone, Copy, PartialEq, Eq, Structural)]
pub enum ImapFailureKind {
    /// Reading or writing the network stream failed.
    Io,
    /// The TLS handshake failed.
    TlsHandshake,
    /// The TLS layer failed while managing the socket.
    Tls,
    /// The connection was terminated unexpectedly.
    ConnectionLost,
    /// The server refused or answered something that could not be used.
    Protocol,
}

/// An IMAP failure: its class and its display text.
#[derive(Debug)]
pub struct ImapFailure {
    pub kind: ImapFailureKind,
    pub text: String,
}

/// Every error the library reports.
#[derive(Debug)]
pub enum Error {
    Config(String),
    AccountNotFound(String),
    NoDefaultAccount,
    UnknownProvider(String),
    SendNotConfirmed,
    OAuth(String),
    Http(String),
    MessageNotFound(u32),
    Keyring(String),
    Imap(ImapFailure),
    Smtp(String),
    MailBuild(String),
    Address(String),
    Tls(String),
    Io(String),
    TomlSer(String),
    TomlDe(String),
    Json(String),
    MimeParse,
    Sqlite(String),
    UidValidityMismatch { expected: u32, actual: u32 },
    Other(String),
}

/// Transient errors come from the network or connection layer and may be
/// retried; refusals, stale UIDVALIDITY and local errors are permanent.
pub open spec fn transient(e: Error) -> bool {
    match e {
        Error::Io(_) | Error::Tls(_) | Error::Http(_) => true,
        Error::Imap(f) => f.kind != ImapFailureKind::Protocol,
        _ => false,
    }
}

/// The human-readable message of an error.
pub open spec fn error_message(e: Error) -> Seq<char> {
    match e {
        Error::Config(s) => "配置错误: "@ + s@,
        Error::AccountNotFound(s) => "找不到账户 `"@ + s@ + "`，请先运行 `mailctl auth login`"@,
        Error::NoDefaultAccount => "未配置默认账户，请用 --account 指定，或 `mailctl auth login`"@,
        Error::UnknownProvider(s) => "不支持的 provider: "@ + s@ + "（支持 gmail / hotmail）"@,
        Error::SendNotConfirmed => "发送被拦截：草稿已保存，确认无误后请加 --confirm 真正发送"@,
        Error::OAuth(s) => "OAuth 错误: "@ + s@,
        Error::Http(s) => "HTTP 错误: "@ + s@,
        Error::MessageNotFound(uid) => "找不到邮件 uid="@ + crate::text::decimal(uid as nat),
        Error::Keyring(s) => "凭据存取失败: "@ + s@,
        Error::Imap(f) => "IMAP 错误: "@ + f.text@,
        Error::Smtp(s) => "SMTP 发送错误: "@ + s@,
        Error::MailBuild(s) => "邮件构造错误: "@ + s@,
        Error::Address(s) => "地址解析错误: "@ + s@,
        Error::Tls(s) => "TLS 错误: "@ + s@,
        Error::Io(s) => "IO 错误: "@ + s@,
        Error::TomlSer(s) => "配置序列化错误: "@ + s@,
        Error::TomlDe(s) => "配置解析错误: "@ + s@,
        Error::Json(s) => "JSON 错误: "@ + s@,
        Error::MimeParse => "邮件解析失败"@,
        Error::Sqlite(s) => "缓存数据库错误: "@ + s@,
        Error::UidValidityMismatch { expected, actual } => "UIDVALIDITY 不一致：期望 "@
            + crate::text::decimal(expected as nat) + "，实际 "@ + crate::text::decimal(
            actual as nat,
        ) + "。邮箱可能已重建，UID 已失效，请重新 search 后再操作"@,
        Error::Other(s) => s@,
    }
}

/// `prefix` followed by `s`.
fn prefixed(prefix: &str, s: &String) -> (r: String)
    ensures
        r@ == prefix@ + s@,
{
    let mut r = String::new();
    r.append(prefix);
    r.append(s.as_str());
    r
}

/// `prefix`, `s`, then `suffix`.
fn wrapped(prefix: &str, s: &String, suffix: &str) -> (r: String)
    ensures
        r@ == prefix@ + s@ + suffix@,
{
    let mut r = prefixed(prefix, s);
    r.append(suffix);
    r
}

impl Error {
    /// Whether the error is transient (network or connection layer) and the
    /// step that produced it can be retried.
    pub fn is_transient(&self) -> (r: bool)
        ensures
            r == transient(*self),
    {
        match self {
            Error::Io(_) | Error::Tls(_) | Error::Http(_) => true,
            Error::Imap(f) => match f.kind {
                ImapFailureKind::Protocol => false,
                _ => true,
            },
            _ => false,
        }
    }

    /// The human-readable message of the error.
    pub fn message(&self) -> (r: String)
        ensures
            r@ == error_message(*self),
    {
        match self {
            Error::Config(s) => prefixed("配置错误: ", s),
            Error::AccountNotFound(s) => wrapped("找不到账户 `", s, "`，请先运行 `mailctl auth login`"),
            Error::NoDefaultAccount => crate::text::owned(
                "未配置默认账户，请用 --account 指定，或 `mailctl auth login`",
            ),
            Error::UnknownProvider(s) => wrapped("不支持的 provider: ", s, "（支持 gmail / hotmail）"),
            Error::SendNotConfirmed => crate::text::owned(
                "发送被拦截：草稿已保存，确认无误后请加 --confirm 真正发送",
            ),
            Error::OAuth(s) => prefixed("OAuth 错误: ", s),
            Error::Http(s) => prefixed("HTTP 错误: ", s),
            Error::MessageNotFound(uid) => {
                let mut r = crate::text::owned("找不到邮件 uid=");
                crate::text::push_decimal(&mut r, *uid as u64);
                r
            },
            Error::Keyring(s) => prefixed("凭据存取失败: ", s),
            Error::Imap(f) => prefixed("IMAP 错误: ", &f.text),
            Error::Smtp(s) => prefixed("SMTP 发送错误: ", s),
            Error::MailBuild(s) => prefixed("邮件构造错误: ", s),
            Error::Address(s) => prefixed("地址解析错误: ", s),
            Error::Tls(s) => prefixed("TLS 错误: ", s),
            Error::Io(s) => prefixed("IO 错误: ", s),
            Error::TomlSer(s) => prefixed("配置序列化错误: ", s),
            Error::TomlDe(s) => prefixed("配置解析错误: ", s),
            Error::Json(s) => prefixed("JSON 错误: ", s),
            Error::MimeParse => crate::text::owned("邮件解析失败"),
            Error::Sqlite(s) => prefixed("缓存数据库错误: ", s),
            Error::UidValidityMismatch { expected, actual } => {
                let mut r = crate::text::owned("UIDVALIDITY 不一致：期望 ");
                crate::text::push_decimal(&mut r, *expected as u64);
                r.append("，实际 ");
                crate::text::push_decimal(&mut r, *actual as u64);
                r.append("。邮箱可能已重建，UID 已失效，请重新 search 后再操作");
                r
            },
            Error::Other(s) => crate::text::owned(s.as_str()),
        }
    }
}

/// Permanent errors are never classified as transient: a refused login, a
/// stale UIDVALIDITY, a configuration problem or an unconfirmed send would
/// only be repeated by a retry.
pub proof fn lemma_permanent_errors_not_transient(s: String, expected: u32, actual: u32)
    ensures
        !transient(Error::Config(s)),
        !transient(Error::OAuth(s)),
        !transient(Error::UidValidityMismatch { expected, actual }),
        !transient(Error::SendNotConfirmed),
        !transient(Error::MimeParse),
{
}

/// Network-layer IMAP failures are transient and are retried: a failed read
/// or write on the stream, a failed TLS handshake, a TLS failure and a lost
/// connection; a refusal or unusable answer from the server is permanent.
pub proof fn lemma_imap_network_failures_transient(text: String)
    ensures
        transient(Error::Imap(ImapFailure { kind: ImapFailureKind::Io, text })),
        transient(Error::Imap(ImapFailure { kind: ImapFailureKind::TlsHandshake, text })),
        transient(Error::Imap(ImapFailure { kind: ImapFailureKind::Tls, text })),
        transient(Error::Imap(ImapFailure { kind: ImapFailureKind::ConnectionLost, text })),
        !transient(Error::Imap(ImapFailure { kind: ImapFailureKind::Protocol, text })),
        transient(Error::Io(text)),
        transient(Error::Tls(text)),
        transient(Error::Http(text)),
{
}

} // verus!
