//! Building an outgoing message. Building and sending are separate: under
//! the drafts-first policy a built message is saved as a draft unless the
//! send is confirmed, and only then handed to the SMTP transport.
use crate::compose::{
    add_from, add_to, finish, mailbox_parses, parse_mailbox, set_plain_text, set_subject, start,
    DraftView, Outgoing,
};
use crate::config::Account;
use crate::error::Error;
use crate::mime::string_views;
use vstd::prelude::*;

verus! {

/// Whether every address of `to` parses as a mailbox.
pub open spec fn all_parse(to: Seq<String>) -> bool {
    forall|i: int| 0 <= i < to.len() ==> mailbox_parses(#[trigger] to[i]@)
}

/// The message `build` hands to the builder: from the account's address
/// to each recipient in order, with the subject, as plain text, with the
/// body.
pub open spec fn draft_for(email: Seq<char>, to: Seq<String>, subject: Seq<char>, body: Seq<char>) -> DraftView {
    DraftView {
        from: seq![email],
        to: string_views(to),
        subject: Some(subject),
        plain_text: true,
        body: Some(body),
    }
}

/// Builds a plain-text message from the account's address to `to`.
/// An address that does not parse (the sender's first, then each recipient
/// in order) gives `Address`; a message without recipients cannot be
/// assembled and gives `MailBuild`.
pub fn build(account: &Account, to: &Vec<String>, subject: &str, body: &str) -> (r: Result<
    Outgoing,
    Error,
>)
    ensures
        r is Ok <==> (mailbox_parses(account.email@) && all_parse(to@) && to@.len() > 0),
        r matches Err(e) ==> e is Address || e is MailBuild,
        (r matches Err(e) && e is Address) <==> !(mailbox_parses(account.email@) && all_parse(
            to@,
        )),
        r matches Ok(o) ==> o@ == draft_for(account.email@, to@, subject@, body@),
{
    let from = match parse_mailbox(account.email.as_str()) {
        Ok(m) => m,
        Err(t) => return Err(Error::Address(t)),
    };
    let mut c = set_subject(add_from(start(), from), subject);
    let mut i: usize = 0;
    while i < to.len()
        invariant
            i <= to.len(),
            forall|k: int| 0 <= k < i ==> mailbox_parses(#[trigger] to@[k]@),
            c@.from =~= seq![account.email@],
            c@.to =~= string_views(to@.take(i as int)),
            c@.subject == Some(subject@),
            !c@.plain_text,
            c@.body is None,
        decreases to.len() - i,
    {
        match parse_mailbox(to[i].as_str()) {
            Ok(m) => {
                c = add_to(c, m);
                assert(string_views(to@.take(i + 1)) =~= string_views(to@.take(i as int)).push(
                    to@[i as int]@,
                ));
            },
            Err(t) => return Err(Error::Address(t)),
        }
        i += 1;
    }
    assert(to@.take(i as int) =~= to@);
    match finish(set_plain_text(c), crate::text::owned(body)) {
        Ok(o) => {
            assert(o@ =~= draft_for(account.email@, to@, subject@, body@));
            Ok(o)
        },
        Err(t) => Err(Error::MailBuild(t)),
    }
}

} // verus!
