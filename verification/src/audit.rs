//! The write-operation audit record: one JSON object per line, written
//! before the change it describes is carried out.
use crate::mailbox::{uid_set, uid_set_spec};
use crate::text::{decimal, push_decimal};
use vstd::prelude::*;

verus! {

/// The lower-case hexadecimal digit for `d` (`0 <= d < 16`).
pub open spec fn hex_lower(d: int) -> char {
    if d == 0 {
        '0'
    } else if d == 1 {
        '1'
    } else if d == 2 {
        '2'
    } else if d == 3 {
        '3'
    } else if d == 4 {
        '4'
    } else if d == 5 {
        '5'
    } else if d == 6 {
        '6'
    } else if d == 7 {
        '7'
    } else if d == 8 {
        '8'
    } else if d == 9 {
        '9'
    } else if d == 10 {
        'a'
    } else if d == 11 {
        'b'
    } else if d == 12 {
        'c'
    } else if d == 13 {
        'd'
    } else if d == 14 {
        'e'
    } else {
        'f'
    }
}

/// How one character stands inside a JSON string: quote and backslash are
/// escaped, the control characters with a short form use it, the other
/// control characters become `\u00xx`, and every other character stands
/// as it is.
pub open spec fn json_escaped(c: char) -> Seq<char> {
    if c == '"' {
        seq!['\\', '"']
    } else if c == '\\' {
        seq!['\\', '\\']
    } else if c == '\u{8}' {
        seq!['\\', 'b']
    } else if c == '\t' {
        seq!['\\', 't']
    } else if c == '\n' {
        seq!['\\', 'n']
    } else if c == '\u{c}' {
        seq!['\\', 'f']
    } else if c == '\r' {
        seq!['\\', 'r']
    } else if (c as int) < 0x20 {
        seq!['\\', 'u', '0', '0', hex_lower((c as int) / 16), hex_lower((c as int) % 16)]
    } else {
        seq![c]
    }
}

/// The escaped characters of `s`.
pub open spec fn json_escaped_all(s: Seq<char>) -> Seq<char>
    decreases s.len(),
{
    if s.len() == 0 {
        Seq::empty()
    } else {
        json_escaped_all(s.drop_last()) + json_escaped(s.last())
    }
}

/// `s` as a JSON string literal.
pub open spec fn json_quoted(s: Seq<char>) -> Seq<char> {
    seq!['"'] + json_escaped_all(s) + seq!['"']
}

/// `serde_json::to_string` on a string slice. Serialising a `&str` into the
/// in-memory buffer that `to_string` uses cannot fail (its only failures
/// come from the writer, and writing to a `Vec` does not fail); the text
/// is the string between double quotes with `"`, `\` and the control
/// characters escaped as `json_escaped` says.
#[verifier::external_body]
fn json_string(s: &str) -> (r: String)
    ensures
        r@ == json_quoted(s@),
{
    serde_json::to_string(s).unwrap_or_default()
}

/// The audit record of one write operation, as one line of JSON with its
/// keys in alphabetical order; a missing destination is `null`.
pub open spec fn audit_record(
    ts: u64,
    account: Seq<char>,
    action: Seq<char>,
    folder: Seq<char>,
    dest: Option<Seq<char>>,
    uids: Seq<u32>,
) -> Seq<char> {
    "{\"account\":"@ + json_quoted(account) + ",\"action\":"@ + json_quoted(action)
        + ",\"dest\":"@ + match dest {
        Some(d) => json_quoted(d),
        None => "null"@,
    } + ",\"folder\":"@ + json_quoted(folder) + ",\"ts\":"@ + decimal(ts as nat) + ",\"uids\":["@
        + uid_set_spec(uids) + "]}"@
}

/// Renders the audit record of one write operation made at `ts` (seconds
/// since the Unix epoch).
pub fn audit_line(
    ts: u64,
    account: &str,
    action: &str,
    folder: &str,
    dest: Option<&str>,
    uids: &Vec<u32>,
) -> (r: String)
    ensures
        r@ == audit_record(
            ts,
            account@,
            action@,
            folder@,
            match dest {
                Some(d) => Some(d@),
                None => None,
            },
            uids@,
        ),
{
    let mut r = String::new();
    r.append("{\"account\":");
    r.append(json_string(account).as_str());
    r.append(",\"action\":");
    r.append(json_string(action).as_str());
    r.append(",\"dest\":");
    match dest {
        Some(d) => r.append(json_string(d).as_str()),
        None => r.append("null"),
    }
    r.append(",\"folder\":");
    r.append(json_string(folder).as_str());
    r.append(",\"ts\":");
    push_decimal(&mut r, ts);
    r.append(",\"uids\":[");
    r.append(uid_set(uids).as_str());
    r.append("]}");
    r
}

// ---------------------------------------------------------------------
// One record per line
// ---------------------------------------------------------------------

/// `s` holds no line break.
pub open spec fn single_line(s: Seq<char>) -> bool {
    forall|i: int| 0 <= i < s.len() ==> s[i] != '\n' && s[i] != '\r'
}

proof fn lemma_single_line_concat(a: Seq<char>, b: Seq<char>)
    requires
        single_line(a),
        single_line(b),
    ensures
        single_line(a + b),
{
    assert forall|i: int| 0 <= i < (a + b).len() implies (a + b)[i] != '\n' && (a + b)[i]
        != '\r' by {
        if i < a.len() {
            assert((a + b)[i] == a[i]);
        } else {
            assert((a + b)[i] == b[i - a.len()]);
        }
    }
}

proof fn lemma_escaped_single_line(s: Seq<char>)
    ensures
        single_line(json_escaped_all(s)),
    decreases s.len(),
{
    if s.len() > 0 {
        lemma_escaped_single_line(s.drop_last());
        let c = s.last();
        lemma_single_line_concat(json_escaped_all(s.drop_last()), json_escaped(c));
    }
}

proof fn lemma_decimal_single_line(n: nat)
    ensures
        single_line(decimal(n)),
    decreases n,
{
    if n >= 10 {
        lemma_decimal_single_line(n / 10);
        lemma_single_line_concat(decimal(n / 10), seq![crate::text::digit_char((n % 10) as int)]);
    }
}

proof fn lemma_uid_set_single_line(uids: Seq<u32>)
    ensures
        single_line(uid_set_spec(uids)),
    decreases uids.len(),
{
    reveal_strlit(",");
    if uids.len() == 1 {
        lemma_decimal_single_line(uids[0] as nat);
    } else if uids.len() > 1 {
        lemma_uid_set_single_line(uids.drop_last());
        lemma_decimal_single_line(uids.last() as nat);
        lemma_single_line_concat(uid_set_spec(uids.drop_last()), ","@);
        lemma_single_line_concat(uid_set_spec(uids.drop_last()) + ","@, decimal(uids.last() as nat));
    }
}

/// The audit log is JSON Lines: a record never holds a line break, whatever
/// the account, folder or label names hold, so each record is exactly one
/// line of the log.
pub proof fn lemma_audit_record_single_line(
    ts: u64,
    account: Seq<char>,
    action: Seq<char>,
    folder: Seq<char>,
    dest: Option<Seq<char>>,
    uids: Seq<u32>,
)
    ensures
        single_line(audit_record(ts, account, action, folder, dest, uids)),
{
    reveal_strlit("{\"account\":");
    reveal_strlit(",\"action\":");
    reveal_strlit(",\"dest\":");
    reveal_strlit("null");
    reveal_strlit(",\"folder\":");
    reveal_strlit(",\"ts\":");
    reveal_strlit(",\"uids\":[");
    reveal_strlit("]}");
    lemma_escaped_single_line(account);
    lemma_escaped_single_line(action);
    lemma_escaped_single_line(folder);
    lemma_single_line_concat(seq!['"'], json_escaped_all(account));
    lemma_single_line_concat(seq!['"'] + json_escaped_all(account), seq!['"']);
    lemma_single_line_concat(seq!['"'], json_escaped_all(action));
    lemma_single_line_concat(seq!['"'] + json_escaped_all(action), seq!['"']);
    lemma_single_line_concat(seq!['"'], json_escaped_all(folder));
    lemma_single_line_concat(seq!['"'] + json_escaped_all(folder), seq!['"']);
    let d = match dest {
        Some(x) => json_quoted(x),
        None => "null"@,
    };
    match dest {
        Some(x) => {
            lemma_escaped_single_line(x);
            lemma_single_line_concat(seq!['"'], json_escaped_all(x));
            lemma_single_line_concat(seq!['"'] + json_escaped_all(x), seq!['"']);
        },
        None => {},
    }
    lemma_decimal_single_line(ts as nat);
    lemma_uid_set_single_line(uids);
    let p1 = "{\"account\":"@ + json_quoted(account);
    lemma_single_line_concat("{\"account\":"@, json_quoted(account));
    let p2 = p1 + ",\"action\":"@;
    lemma_single_line_concat(p1, ",\"action\":"@);
    let p3 = p2 + json_quoted(action);
    lemma_single_line_concat(p2, json_quoted(action));
    let p4 = p3 + ",\"dest\":"@;
    lemma_single_line_concat(p3, ",\"dest\":"@);
    let p5 = p4 + d;
    lemma_single_line_concat(p4, d);
    let p6 = p5 + ",\"folder\":"@;
    lemma_single_line_concat(p5, ",\"folder\":"@);
    let p7 = p6 + json_quoted(folder);
    lemma_single_line_concat(p6, json_quoted(folder));
    let p8 = p7 + ",\"ts\":"@;
    lemma_single_line_concat(p7, ",\"ts\":"@);
    let p9 = p8 + decimal(ts as nat);
    lemma_single_line_concat(p8, decimal(ts as nat));
    let p10 = p9 + ",\"uids\":["@;
    lemma_single_line_concat(p9, ",\"uids\":["@);
    let p11 = p10 + uid_set_spec(uids);
    lemma_single_line_concat(p10, uid_set_spec(uids));
    lemma_single_line_concat(p11, "]}"@);
}

} // verus!
