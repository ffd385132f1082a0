//! Composing an outgoing message with `lettre`'s builder while keeping, in
//! plain values, what has been handed to it: the `From` and `To` mailboxes
//! (as written), the subject, whether the body is plain text, and the body.
//! The builder itself is opaque; the record beside it is what contracts
//! speak of.
use crate::mime::string_views;
use lettre::message::header::ContentType;
use vstd::prelude::*;

verus! {

#[verifier::external_type_specification]
#[verifier::external_body]
pub struct ExMailbox(lettre::message::Mailbox);

#[verifier::external_type_specification]
#[verifier::external_body]
pub struct ExMessageBuilder(lettre::message::MessageBuilder);

#[verifier::external_type_specification]
#[verifier::external_body]
pub struct ExMessage(lettre::Message);

/// What has been handed to the builder.
pub struct DraftView {
    /// The `From` mailboxes, as written, in the order they were added.
    pub from: Seq<Seq<char>>,
    /// The `To` mailboxes, as written, in the order they were added.
    pub to: Seq<Seq<char>>,
    /// The subject, once set.
    pub subject: Option<Seq<char>>,
    /// Whether `Content-Type: text/plain` was set.
    pub plain_text: bool,
    /// The body, once the message is assembled.
    pub body: Option<Seq<char>>,
}

/// The characters of an optional string.
pub open spec fn opt_view(o: Option<String>) -> Option<Seq<char>> {
    match o {
        Some(s) => Some(s@),
        None => None,
    }
}

/// The plain record of what has been handed to the builder.
struct Draft {
    from: Vec<String>,
    to: Vec<String>,
    subject: Option<String>,
    plain_text: bool,
    body: Option<String>,
}

impl View for Draft {
    type V = DraftView;

    closed spec fn view(&self) -> DraftView {
        DraftView {
            from: string_views(self.from@),
            to: string_views(self.to@),
            subject: opt_view(self.subject),
            plain_text: self.plain_text,
            body: opt_view(self.body),
        }
    }
}

/// A mailbox parsed by `lettre`, with the text it was parsed from.
pub struct ParsedMailbox {
    text: String,
    mailbox: lettre::message::Mailbox,
}

impl ParsedMailbox {
    /// The text the mailbox was parsed from.
    pub closed spec fn text(&self) -> Seq<char> {
        self.text@
    }
}

/// A message builder with the record of what it holds.
pub struct Composer {
    builder: lettre::message::MessageBuilder,
    draft: Draft,
}

impl View for Composer {
    type V = DraftView;

    closed spec fn view(&self) -> DraftView {
        self.draft@
    }
}

/// An assembled message with the record of what it was built from.
pub struct Outgoing {
    pub message: lettre::Message,
    draft: Draft,
}

impl View for Outgoing {
    type V = DraftView;

    closed spec fn view(&self) -> DraftView {
        self.draft@
    }
}

/// Whether `lettre` reads `s` as a mailbox (`Name <user@domain>` or a bare
/// address).
pub uninterp spec fn mailbox_parses(s: Seq<char>) -> bool;

/// `<lettre::message::Mailbox as FromStr>::from_str`: the mailbox written
/// in `s` (kept with its text), or the display text of the
/// `AddressError`. The parser is a function of the text alone; whether it
/// succeeds is named `mailbox_parses`.
#[verifier::external_body]
pub(crate) fn parse_mailbox(s: &str) -> (r: Result<ParsedMailbox, String>)
    ensures
        r is Ok <==> mailbox_parses(s@),
        r matches Ok(p) ==> p.text() == s@,
{
    let mailbox = s.parse::<lettre::message::Mailbox>().map_err(|e| e.to_string())?;
    Ok(ParsedMailbox { text: s.to_string(), mailbox })
}

/// `lettre::Message::builder`: an empty builder, holding nothing yet.
#[verifier::external_body]
pub(crate) fn start() -> (r: Composer)
    ensures
        r@ == (DraftView {
            from: Seq::empty(),
            to: Seq::empty(),
            subject: None,
            plain_text: false,
            body: None,
        }),
{
    let draft = Draft { from: Vec::new(), to: Vec::new(), subject: None, plain_text: false, body: None };
    Composer { builder: lettre::Message::builder(), draft }
}

/// `MessageBuilder::from`: adds a `From` mailbox.
#[verifier::external_body]
pub(crate) fn add_from(c: Composer, m: ParsedMailbox) -> (r: Composer)
    ensures
        r@ == (DraftView { from: c@.from.push(m.text()), ..c@ }),
{
    let mut draft = c.draft;
    draft.from.push(m.text);
    Composer { builder: c.builder.from(m.mailbox), draft }
}

/// `MessageBuilder::subject`: sets the `Subject`.
#[verifier::external_body]
pub(crate) fn set_subject(c: Composer, subject: &str) -> (r: Composer)
    ensures
        r@ == (DraftView { subject: Some(subject@), ..c@ }),
{
    let mut draft = c.draft;
    draft.subject = Some(subject.to_string());
    Composer { builder: c.builder.subject(subject), draft }
}

/// `MessageBuilder::to`: adds a `To` mailbox.
#[verifier::external_body]
pub(crate) fn add_to(c: Composer, m: ParsedMailbox) -> (r: Composer)
    ensures
        r@ == (DraftView { to: c@.to.push(m.text()), ..c@ }),
{
    let mut draft = c.draft;
    draft.to.push(m.text);
    Composer { builder: c.builder.to(m.mailbox), draft }
}

/// `MessageBuilder::header` with `ContentType::TEXT_PLAIN`.
#[verifier::external_body]
pub(crate) fn set_plain_text(c: Composer) -> (r: Composer)
    ensures
        r@ == (DraftView { plain_text: true, ..c@ }),
{
    let mut draft = c.draft;
    draft.plain_text = true;
    Composer { builder: c.builder.header(ContentType::TEXT_PLAIN), draft }
}

/// `MessageBuilder::body` with a text body: the message, or the display
/// text of the envelope error. The builder fails only without a `From`
/// mailbox, with more than one `From` and no `Sender`, or without any
/// recipient; a composer never sets `Sender`, `Cc` or `Bcc`, and each
/// `add_from` and `add_to` adds exactly one mailbox. So the message is built
/// exactly when one `From` and at least one `To` were added.
#[verifier::external_body]
pub(crate) fn finish(c: Composer, body: String) -> (r: Result<Outgoing, String>)
    ensures
        r is Ok <==> (c@.from.len() == 1 && c@.to.len() > 0),
        r matches Ok(o) ==> o@ == (DraftView { body: Some(body@), ..c@ }),
{
    let message = c.builder.body(body.clone()).map_err(|e| e.to_string())?;
    let mut draft = c.draft;
    draft.body = Some(body);
    Ok(Outgoing { message, draft })
}

} // verus!
