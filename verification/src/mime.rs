//! Reading a raw RFC 822 message: only the fields an agent needs are kept,
//! and an HTML body is only reported as present.
use crate::config::opt_chars;
use crate::error::Error;
use crate::model::MessageBody;
use crate::text::owned;
use mail_parser::{Address, MessageParser, MimeHeaders};
use vstd::prelude::*;

verus! {

/// What the MIME parser reports of a message, as plain values.
#[derive(Debug)]
pub struct ParsedMail {
    /// The decoded `Subject`.
    pub subject: Option<String>,
    /// The address of each mailbox of `From`, in order (`None` for a
    /// mailbox without an address).
    pub from: Vec<Option<String>>,
    /// The address of each mailbox of `To`, in order.
    pub to: Vec<Option<String>>,
    /// The `Date` in RFC 3339 form.
    pub date: Option<String>,
    /// The first text body.
    pub text: Option<String>,
    /// Whether the message has an HTML body.
    pub has_html: bool,
    /// The file name of each attachment, in order (`None` when unnamed).
    pub attachment_names: Vec<Option<String>>,
}

/// What `mail_parser` makes of the bytes of a message: `None` when it
/// cannot parse them.
pub uninterp spec fn mime_parsed(raw: Seq<u8>) -> Option<ParsedMail>;

/// `mail_parser::MessageParser::parse` with the default parser, followed by
/// reading the fields of `ParsedMail` off the parsed message. The parser is
/// a function of the bytes alone; its result is named `mime_parsed`.
#[verifier::external_body]
fn parse_mime(raw: &[u8]) -> (r: Option<ParsedMail>)
    ensures
        r == mime_parsed(raw@),
{
    let m = MessageParser::default().parse(raw)?;
    let list = |a: Option<&Address>| {
        a.map_or(Vec::new(), |a| a.iter().map(|x| x.address().map(str::to_string)).collect())
    };
    Some(ParsedMail {
        subject: m.subject().map(str::to_string),
        from: list(m.from()),
        to: list(m.to()),
        date: m.date().map(|d| d.to_rfc3339()),
        text: m.body_text(0).map(|c| c.into_owned()),
        has_html: m.body_html(0).is_some(),
        attachment_names: m.attachments().map(|a| a.attachment_name().map(str::to_string)).collect(),
    })
}

/// The characters of each string.
pub open spec fn string_views(v: Seq<String>) -> Seq<Seq<char>> {
    v.map_values(|s: String| s@)
}

/// The present entries of `v`, in order.
pub open spec fn present(v: Seq<Option<String>>) -> Seq<Seq<char>>
    decreases v.len(),
{
    if v.len() == 0 {
        Seq::empty()
    } else {
        match v.last() {
            Some(s) => present(v.drop_last()).push(s@),
            None => present(v.drop_last()),
        }
    }
}

/// The sender shown for a message: the address of the first `From`
/// mailbox, or nothing.
pub open spec fn first_address(from: Seq<Option<String>>) -> Seq<char> {
    if from.len() > 0 {
        match from[0] {
            Some(s) => s@,
            None => Seq::empty(),
        }
    } else {
        Seq::empty()
    }
}

/// `body` is what `read` reports for message `uid` parsed as `p`.
pub open spec fn body_matches(body: MessageBody, uid: u32, p: ParsedMail) -> bool {
    &&& body.uid == uid
    &&& body.from@ == first_address(p.from@)
    &&& string_views(body.to@) == present(p.to@)
    &&& body.subject@ == match p.subject {
        Some(s) => s@,
        None => Seq::empty(),
    }
    &&& opt_chars(body.date) == opt_chars(p.date)
    &&& opt_chars(body.text) == opt_chars(p.text)
    &&& body.has_html == p.has_html
    &&& string_views(body.attachments@) == present(p.attachment_names@)
}

/// The present entries of `v`, copied.
fn present_strings(v: &Vec<Option<String>>) -> (r: Vec<String>)
    ensures
        string_views(r@) == present(v@),
{
    let mut r: Vec<String> = Vec::new();
    let mut i: usize = 0;
    while i < v.len()
        invariant
            i <= v.len(),
            string_views(r@) == present(v@.take(i as int)),
        decreases v.len() - i,
    {
        assert(v@.take(i + 1).drop_last() =~= v@.take(i as int));
        assert(v@.take(i + 1).last() == v@[i as int]);
        match &v[i] {
            Some(s) => {
                let c = owned(s.as_str());
                r.push(c);
                assert(string_views(r@) =~= present(v@.take(i as int)).push(s@));
            },
            None => {},
        }
        i += 1;
    }
    assert(v@.take(i as int) =~= v@);
    r
}

/// The text of an optional string, copied.
fn copy_opt(o: &Option<String>) -> (r: Option<String>)
    ensures
        opt_chars(r) == opt_chars(*o),
{
    match o {
        Some(s) => Some(owned(s.as_str())),
        None => None,
    }
}

/// The `read` output of message `uid` from what the parser reported.
pub fn body_from_parsed(uid: u32, p: &ParsedMail) -> (body: MessageBody)
    ensures
        body_matches(body, uid, *p),
{
    let from = if p.from.len() > 0 {
        match &p.from[0] {
            Some(s) => owned(s.as_str()),
            None => String::new(),
        }
    } else {
        String::new()
    };
    let subject = match &p.subject {
        Some(s) => owned(s.as_str()),
        None => String::new(),
    };
    MessageBody {
        uid,
        from,
        to: present_strings(&p.to),
        subject,
        date: copy_opt(&p.date),
        text: copy_opt(&p.text),
        has_html: p.has_html,
        attachments: present_strings(&p.attachment_names),
    }
}

/// Parses the raw bytes of message `uid`; bytes the parser cannot read
/// give `MimeParse`.
pub fn parse(uid: u32, raw: &[u8]) -> (r: Result<MessageBody, Error>)
    ensures
        match mime_parsed(raw@) {
            Some(p) => r matches Ok(body) && body_matches(body, uid, p),
            None => r matches Err(e) && e is MimeParse,
        },
{
    match parse_mime(raw) {
        Some(p) => Ok(body_from_parsed(uid, &p)),
        None => Err(Error::MimeParse),
    }
}

} // verus!
