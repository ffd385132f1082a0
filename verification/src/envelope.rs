//! Turning fetched IMAP data into message metadata: RFC 2047 header
//! decoding, sender formatting, bulk-mail detection and newest-first
//! ordering.
use vstd::prelude::*;
use vstd::utf8::{decode_utf8, valid_utf8};
use crate::model::MessageMeta;
use crate::text::{ascii_lower, chars_contain, chars_of, contains_seq, lower_ascii_char};

verus! {

broadcast use vstd::seq_lib::group_to_multiset_ensures;

// ---------------------------------------------------------------------
// Text of header bytes
// ---------------------------------------------------------------------

/// What `String::from_utf8_lossy` makes of some bytes.
pub uninterp spec fn utf8_lossy(raw: Seq<u8>) -> Seq<char>;

/// `String::from_utf8_lossy`: the bytes decoded as UTF-8, each invalid
/// sequence replaced by U+FFFD; valid UTF-8 decodes as itself.
#[verifier::external_body]
pub(crate) fn lossy_utf8(raw: &[u8]) -> (r: String)
    ensures
        r@ == utf8_lossy(raw@),
        valid_utf8(raw@) ==> r@ == decode_utf8(raw@),
{
    String::from_utf8_lossy(raw).into_owned()
}

/// What the RFC 2047 decoder (lenient about over-long encoded words) makes
/// of a header value: its text, or `None` when it refuses it.
pub uninterp spec fn rfc2047_decoding(raw: Seq<u8>) -> Option<Seq<char>>;

/// `rfc2047_decoder::Decoder::decode`, with over-long encoded words decoded
/// rather than refused: a function of the bytes alone.
#[verifier::external_body]
fn rfc2047_decode(raw: &[u8]) -> (r: Option<String>)
    ensures
        match r {
            Some(s) => rfc2047_decoding(raw@) == Some(s@),
            None => rfc2047_decoding(raw@) is None,
        },
{
    rfc2047_decoder::Decoder::new().too_long_encoded_word_strategy(
        rfc2047_decoder::RecoverStrategy::Decode,
    ).decode(raw).ok()
}

/// A header value decoded from RFC 2047 encoded words; when the decoder
/// refuses it, the bytes read as UTF-8 with replacement characters.
pub open spec fn decoded_word(raw: Seq<u8>) -> Seq<char> {
    match rfc2047_decoding(raw) {
        Some(s) => s,
        None => utf8_lossy(raw),
    }
}

/// Decodes RFC 2047 encoded words (`=?UTF-8?B?...?=`), falling back to a
/// lossy UTF-8 reading.
pub fn decode_word(raw: &[u8]) -> (r: String)
    ensures
        r@ == decoded_word(raw@),
{
    match rfc2047_decode(raw) {
        Some(s) => s,
        None => lossy_utf8(raw),
    }
}

// ---------------------------------------------------------------------
// Bulk mail
// ---------------------------------------------------------------------

/// Header bytes, each read as one character and ASCII-lowercased. The
/// markers searched for are ASCII, and ASCII bytes read the same in this
/// reading and in a lossy UTF-8 one.
pub open spec fn header_text(h: Seq<u8>) -> Seq<char> {
    h.map_values(|b: u8| ascii_lower(b as char))
}

/// A header block marks bulk mail when it holds `List-Unsubscribe`,
/// `List-Id:` or `Precedence: bulk|list|junk`, in any ASCII case.
pub open spec fn is_bulk_header(h: Seq<u8>) -> bool {
    let t = header_text(h);
    ||| contains_seq(t, "list-unsubscribe"@)
    ||| contains_seq(t, "list-id:"@)
    ||| contains_seq(t, "precedence: bulk"@)
    ||| contains_seq(t, "precedence:bulk"@)
    ||| contains_seq(t, "precedence: list"@)
    ||| contains_seq(t, "precedence: junk"@)
}

/// Whether a header block marks bulk or list mail.
pub fn detect_bulk(header: &[u8]) -> (r: bool)
    ensures
        r == is_bulk_header(header@),
        contains_seq(header@.map_values(|b: u8| ascii_lower(b as char)), "list-unsubscribe"@) ==> r,
        contains_seq(header@.map_values(|b: u8| ascii_lower(b as char)), "list-id:"@) ==> r,
        contains_seq(header@.map_values(|b: u8| ascii_lower(b as char)), "precedence: bulk"@) ==> r,
        contains_seq(header@.map_values(|b: u8| ascii_lower(b as char)), "precedence:bulk"@) ==> r,
        contains_seq(header@.map_values(|b: u8| ascii_lower(b as char)), "precedence: list"@) ==> r,
        contains_seq(header@.map_values(|b: u8| ascii_lower(b as char)), "precedence: junk"@) ==> r,
{
    let mut t: Vec<char> = Vec::new();
    let mut i: usize = 0;
    while i < header.len()
        invariant
            i <= header.len(),
            t@ == header_text(header@.take(i as int)),
        decreases header.len() - i,
    {
        let b = header[i];
        t.push(lower_ascii_char(b as char));
        assert(header_text(header@.take(i as int)).push(ascii_lower(b as char)) =~= header_text(
            header@.take(i + 1),
        ));
        i += 1;
    }
    assert(header@.take(header.len() as int) =~= header@);
    chars_contain(&t, &chars_of("list-unsubscribe")) || chars_contain(&t, &chars_of("list-id:"))
        || chars_contain(&t, &chars_of("precedence: bulk")) || chars_contain(
        &t,
        &chars_of("precedence:bulk"),
    ) || chars_contain(&t, &chars_of("precedence: list")) || chars_contain(
        &t,
        &chars_of("precedence: junk"),
    )
}

/// A header block holding any of the bulk markers, in any ASCII case, is
/// bulk mail: `List-Unsubscribe`, `List-Id:`, `Precedence: bulk` (also
/// without the space), `Precedence: list` and `Precedence: junk`.
pub proof fn lemma_bulk_markers(h: Seq<u8>)
    ensures
        contains_seq(h.map_values(|b: u8| ascii_lower(b as char)), "list-unsubscribe"@)
            ==> is_bulk_header(h),
        contains_seq(h.map_values(|b: u8| ascii_lower(b as char)), "list-id:"@) ==> is_bulk_header(h),
        contains_seq(h.map_values(|b: u8| ascii_lower(b as char)), "precedence: bulk"@)
            ==> is_bulk_header(h),
        contains_seq(h.map_values(|b: u8| ascii_lower(b as char)), "precedence:bulk"@)
            ==> is_bulk_header(h),
        contains_seq(h.map_values(|b: u8| ascii_lower(b as char)), "precedence: list"@)
            ==> is_bulk_header(h),
        contains_seq(h.map_values(|b: u8| ascii_lower(b as char)), "precedence: junk"@)
            ==> is_bulk_header(h),
{
    assert(h.map_values(|b: u8| ascii_lower(b as char)) =~= header_text(h));
}

/// ASCII lowercase of one byte.
pub open spec fn lower_byte(b: u8) -> u8 {
    if 65 <= b <= 90 {
        (b + 32) as u8
    } else {
        b
    }
}

/// Bulk detection ignores ASCII case: lowercasing the header bytes first
/// changes nothing.
pub proof fn lemma_bulk_case_insensitive(h: Seq<u8>)
    ensures
        is_bulk_header(h.map_values(|b: u8| lower_byte(b))) == is_bulk_header(h),
{
    let l = h.map_values(|b: u8| lower_byte(b));
    assert forall|i: int| 0 <= i < h.len() implies ascii_lower(l[i] as char) == ascii_lower(
        h[i] as char,
    ) by {
        let b = h[i];
        if 65 <= b <= 90 {
            assert((b as char) >= 'A' && (b as char) <= 'Z');
        }
    }
    assert(header_text(l) =~= header_text(h));
}

// ---------------------------------------------------------------------
// Addresses and fetched metadata
// ---------------------------------------------------------------------

/// An envelope address as fetched: display name (possibly RFC 2047
/// encoded), mailbox and host, each optional.
#[derive(Debug, Clone)]
pub struct AddressParts {
    pub name: Option<Vec<u8>>,
    pub mailbox: Option<Vec<u8>>,
    pub host: Option<Vec<u8>>,
}

/// The text of optional bytes, or nothing.
pub open spec fn lossy_or_empty(o: Option<Vec<u8>>) -> Seq<char> {
    match o {
        Some(b) => utf8_lossy(b@),
        None => Seq::empty(),
    }
}

/// `mailbox@host`, or the bare mailbox when there is no host.
pub open spec fn address_email(a: AddressParts) -> Seq<char> {
    let mailbox = lossy_or_empty(a.mailbox);
    let host = lossy_or_empty(a.host);
    if host.len() == 0 {
        mailbox
    } else {
        mailbox + "@"@ + host
    }
}

/// `Name <mailbox@host>`, or the bare address when there is no name.
pub open spec fn address_text(a: AddressParts) -> Seq<char> {
    match a.name {
        Some(n) => decoded_word(n@) + " <"@ + address_email(a) + ">"@,
        None => address_email(a),
    }
}

fn lossy_opt(o: &Option<Vec<u8>>) -> (r: String)
    ensures
        r@ == lossy_or_empty(*o),
{
    match o {
        Some(b) => lossy_utf8(b.as_slice()),
        None => String::new(),
    }
}

/// Formats an envelope address as `Name <mailbox@host>`.
pub fn format_address(a: &AddressParts) -> (r: String)
    ensures
        r@ == address_text(*a),
{
    let mailbox = lossy_opt(&a.mailbox);
    let host = lossy_opt(&a.host);
    let email = if host.as_str().is_empty() {
        mailbox
    } else {
        let mut e = mailbox;
        e.append("@");
        e.append(host.as_str());
        e
    };
    match &a.name {
        Some(n) => {
            let mut r = decode_word(n.as_slice());
            r.append(" <");
            r.append(email.as_str());
            r.append(">");
            r
        },
        None => email,
    }
}

/// What a metadata fetch returned for one message.
#[derive(Debug, Clone)]
pub struct FetchedMessage {
    pub uid: Option<u32>,
    pub subject: Option<Vec<u8>>,
    /// The envelope's `From` addresses, in order.
    pub from: Vec<AddressParts>,
    pub date: Option<Vec<u8>>,
    /// Whether the `\Seen` flag is set.
    pub seen: bool,
    pub size: Option<u32>,
    /// The raw header block, when it was fetched.
    pub header: Option<Vec<u8>>,
}

/// The UID of a fetched message (0 when the server sent none).
pub open spec fn fetched_uid(f: FetchedMessage) -> u32 {
    match f.uid {
        Some(u) => u,
        None => 0,
    }
}

/// `m` is the metadata record of fetched message `f`: decoded subject,
/// first sender, date text, unread unless `\Seen`, size, bulk markers.
pub open spec fn describes(m: MessageMeta, f: FetchedMessage) -> bool {
    &&& m.uid == fetched_uid(f)
    &&& m.subject@ == match f.subject {
        Some(s) => decoded_word(s@),
        None => Seq::empty(),
    }
    &&& m.from@ == if f.from@.len() > 0 {
        address_text(f.from@[0])
    } else {
        Seq::empty()
    }
    &&& match (m.date, f.date) {
        (Some(d), Some(b)) => d@ == utf8_lossy(b@),
        (None, None) => true,
        _ => false,
    }
    &&& m.unread == !f.seen
    &&& m.size == f.size
    &&& m.is_bulk == match f.header {
        Some(h) => is_bulk_header(h@),
        None => false,
    }
}

/// The metadata record of one fetched message.
pub fn meta_from_fetch(f: &FetchedMessage) -> (m: MessageMeta)
    ensures
        describes(m, *f),
{
    let subject = match &f.subject {
        Some(s) => decode_word(s.as_slice()),
        None => String::new(),
    };
    let from = if f.from.len() > 0 {
        format_address(&f.from[0])
    } else {
        String::new()
    };
    let date = match &f.date {
        Some(d) => Some(lossy_utf8(d.as_slice())),
        None => None,
    };
    let is_bulk = match &f.header {
        Some(h) => detect_bulk(h.as_slice()),
        None => false,
    };
    let uid = match f.uid {
        Some(u) => u,
        None => 0,
    };
    MessageMeta { uid, from, subject, date, unread: !f.seen, size: f.size, is_bulk }
}

/// Fetched messages in descending UID order.
pub open spec fn fetches_desc(s: Seq<FetchedMessage>) -> bool {
    forall|i: int, j: int| 0 <= i < j < s.len() ==> fetched_uid(s[i]) >= fetched_uid(s[j])
}

fn uid_key(f: &FetchedMessage) -> (k: u32)
    ensures
        k == fetched_uid(*f),
{
    match f.uid {
        Some(u) => u,
        None => 0,
    }
}

/// Moves the elements of `v` into a new vector in reverse order.
fn reversed(v: Vec<FetchedMessage>) -> (r: Vec<FetchedMessage>)
    ensures
        r@ == v@.reverse(),
{
    let ghost orig = v@;
    let mut v = v;
    let mut r: Vec<FetchedMessage> = Vec::new();
    while v.len() > 0
        invariant
            v@.len() <= orig.len(),
            v@ == orig.take(v@.len() as int),
            r@ == orig.skip(v@.len() as int).reverse(),
        decreases v@.len(),
    {
        let ghost n = v@.len();
        let x = v.pop().unwrap();
        assert(orig.take(n as int).subrange(0, n - 1) =~= orig.take(n - 1));
        assert(orig.skip(n - 1).reverse() =~= orig.skip(n as int).reverse().push(x));
        r.push(x);
    }
    assert(orig.skip(0) =~= orig);
    r
}

/// Merges two lists that are each newest first into one newest-first
/// list; on equal UIDs, elements of `a` come first.
fn merge_desc(a: Vec<FetchedMessage>, b: Vec<FetchedMessage>) -> (r: Vec<FetchedMessage>)
    requires
        fetches_desc(a@),
        fetches_desc(b@),
    ensures
        r@.to_multiset() == a@.to_multiset().add(b@.to_multiset()),
        fetches_desc(r@),
{
    let ghost ga = a@;
    let ghost gb = b@;
    let mut ra = reversed(a);
    let mut rb = reversed(b);
    proof {
        ga.lemma_reverse_to_multiset();
        gb.lemma_reverse_to_multiset();
    }
    let mut out: Vec<FetchedMessage> = Vec::new();
    while ra.len() > 0 || rb.len() > 0
        invariant
            out@.to_multiset().add(ra@.to_multiset()).add(rb@.to_multiset()) == ga.to_multiset().add(
                gb.to_multiset(),
            ),
            forall|i: int, j: int| 0 <= i < j < ra@.len() ==> fetched_uid(ra@[i]) <= fetched_uid(ra@[j]),
            forall|i: int, j: int| 0 <= i < j < rb@.len() ==> fetched_uid(rb@[i]) <= fetched_uid(rb@[j]),
            fetches_desc(out@),
            forall|i: int, j: int|
                0 <= i < out@.len() && 0 <= j < ra@.len() ==> fetched_uid(out@[i]) >= fetched_uid(
                    ra@[j],
                ),
            forall|i: int, j: int|
                0 <= i < out@.len() && 0 <= j < rb@.len() ==> fetched_uid(out@[i]) >= fetched_uid(
                    rb@[j],
                ),
        decreases ra@.len() + rb@.len(),
    {
        let take_a = if ra.len() == 0 {
            false
        } else if rb.len() == 0 {
            true
        } else {
            uid_key(&ra[ra.len() - 1]) >= uid_key(&rb[rb.len() - 1])
        };
        let ghost pa = ra@;
        let ghost pb = rb@;
        let ghost po = out@;
        let x = if take_a {
            ra.pop().unwrap()
        } else {
            rb.pop().unwrap()
        };
        proof {
            if take_a {
                assert(pa =~= ra@.push(x));
                assert forall|j: int| 0 <= j < ra@.len() implies fetched_uid(x) >= fetched_uid(
                    ra@[j],
                ) by {
                    assert(pa[j] == ra@[j]);
                }
                assert forall|j: int| 0 <= j < rb@.len() implies fetched_uid(x) >= fetched_uid(
                    rb@[j],
                ) by {
                    assert(fetched_uid(pb[j]) <= fetched_uid(pb[pb.len() - 1]));
                }
            } else {
                assert(pb =~= rb@.push(x));
                assert forall|j: int| 0 <= j < rb@.len() implies fetched_uid(x) >= fetched_uid(
                    rb@[j],
                ) by {
                    assert(pb[j] == rb@[j]);
                }
                assert forall|j: int| 0 <= j < ra@.len() implies fetched_uid(x) >= fetched_uid(
                    ra@[j],
                ) by {
                    assert(fetched_uid(pa[j]) <= fetched_uid(pa[pa.len() - 1]));
                }
            }
        }
        out.push(x);
        proof {
            assert(out@ =~= po.push(x));
            if take_a {
                assert(pa.to_multiset() =~= ra@.to_multiset().insert(x));
            } else {
                assert(pb.to_multiset() =~= rb@.to_multiset().insert(x));
            }
            assert(out@.to_multiset().add(ra@.to_multiset()).add(rb@.to_multiset())
                =~= po.to_multiset().add(pa.to_multiset()).add(pb.to_multiset()));
            assert forall|i: int, j: int| 0 <= i < j < out@.len() implies fetched_uid(out@[i])
                >= fetched_uid(out@[j]) by {
                if j == out@.len() - 1 && i < po.len() {
                    if take_a {
                        assert(fetched_uid(po[i]) >= fetched_uid(pa[pa.len() - 1]));
                    } else {
                        assert(fetched_uid(po[i]) >= fetched_uid(pb[pb.len() - 1]));
                    }
                }
            }
        }
    }
    assert(ra@.to_multiset() =~= vstd::multiset::Multiset::empty());
    assert(rb@.to_multiset() =~= vstd::multiset::Multiset::empty());
    assert(out@.to_multiset() =~= out@.to_multiset().add(ra@.to_multiset()).add(rb@.to_multiset()));
    out
}

/// Sorts fetched messages newest first (descending UID), by merging.
pub fn sort_fetches_desc(fs: Vec<FetchedMessage>) -> (r: Vec<FetchedMessage>)
    ensures
        r@.to_multiset() == fs@.to_multiset(),
        fetches_desc(r@),
    decreases fs@.len(),
{
    if fs.len() <= 1 {
        return fs;
    }
    let ghost orig = fs@;
    let mut left = fs;
    let mid = left.len() / 2;
    let right = left.split_off(mid);
    proof {
        vstd::seq_lib::lemma_multiset_commutative(left@, right@);
        assert(left@ + right@ =~= orig);
    }
    let l = sort_fetches_desc(left);
    let r = sort_fetches_desc(right);
    merge_desc(l, r)
}

/// The metadata of fetched messages, newest (highest UID) first. The fetch
/// answer may come in any order, so the order is restored here.
pub fn metas_newest_first(fetches: Vec<FetchedMessage>) -> (r: Vec<MessageMeta>)
    ensures
        exists|s: Seq<FetchedMessage>|
            {
                &&& s.to_multiset() == fetches@.to_multiset()
                &&& fetches_desc(s)
                &&& r@.len() == s.len()
                &&& forall|i: int| 0 <= i < s.len() ==> #[trigger] describes(r@[i], s[i])
            },
{
    let sorted = sort_fetches_desc(fetches);
    let mut r: Vec<MessageMeta> = Vec::new();
    let mut i: usize = 0;
    while i < sorted.len()
        invariant
            i <= sorted.len(),
            r@.len() == i,
            forall|k: int| 0 <= k < i ==> #[trigger] describes(r@[k], sorted@[k]),
        decreases sorted.len() - i,
    {
        r.push(meta_from_fetch(&sorted[i]));
        i += 1;
    }
    assert(sorted@.to_multiset() == fetches@.to_multiset() && fetches_desc(sorted@));
    r
}

/// The unread state of fetched messages: `(uid, !seen)`, the UID being 0
/// when the server sent none.
pub fn unread_states(entries: &Vec<(Option<u32>, bool)>) -> (r: Vec<(u32, bool)>)
    ensures
        r@.len() == entries@.len(),
        forall|i: int|
            0 <= i < entries@.len() ==> #[trigger] r@[i] == (
                match entries@[i].0 {
                    Some(u) => u,
                    None => 0u32,
                },
                !entries@[i].1,
            ),
{
    let mut r: Vec<(u32, bool)> = Vec::new();
    let mut i: usize = 0;
    while i < entries.len()
        invariant
            i <= entries.len(),
            r@.len() == i,
            forall|k: int|
                0 <= k < i ==> #[trigger] r@[k] == (
                    match entries@[k].0 {
                        Some(u) => u,
                        None => 0u32,
                    },
                    !entries@[k].1,
                ),
        decreases entries.len() - i,
    {
        let (uid, seen) = entries[i];
        let u = match uid {
            Some(u) => u,
            None => 0,
        };
        r.push((u, !seen));
        i += 1;
    }
    r
}

} // verus!
