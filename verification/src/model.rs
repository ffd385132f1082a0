//! Output records and their tab-separated rendering. Listings carry
//! metadata only; bodies are fetched one at a time on request.
use vstd::prelude::*;
use crate::text::{decimal, push_char, push_decimal};

verus! {

/// Metadata of one message in a listing (no body).
#[derive(Debug, Clone)]
pub struct MessageMeta {
    pub uid: u32,
    pub from: String,
    pub subject: String,
    pub date: Option<String>,
    pub unread: bool,
    pub size: Option<u32>,
    /// Whether the message carries bulk-mail markers (`List-Unsubscribe`,
    /// `List-Id`, `Precedence: bulk|list|junk`).
    pub is_bulk: bool,
}

/// A search result, with the folder's UIDVALIDITY so that follow-up actions
/// can pin it.
#[derive(Debug, Clone)]
pub struct SearchResult {
    pub folder: String,
    pub uidvalidity: u32,
    pub messages: Vec<MessageMeta>,
}

/// The result of one account in a multi-account search; a failing account
/// reports its error and does not affect the others.
#[derive(Debug, Clone)]
pub struct AccountSearch {
    pub account: String,
    pub uidvalidity: Option<u32>,
    pub error: Option<String>,
    pub messages: Vec<MessageMeta>,
}

/// A full message as returned by `read`.
#[derive(Debug, Clone)]
pub struct MessageBody {
    pub uid: u32,
    pub from: String,
    pub to: Vec<String>,
    pub subject: String,
    pub date: Option<String>,
    pub text: Option<String>,
    /// Whether an HTML body exists (it is not returned).
    pub has_html: bool,
    pub attachments: Vec<String>,
}

/// A folder or label.
#[derive(Debug, Clone)]
pub struct FolderInfo {
    pub name: String,
    /// False for `\Noselect` hierarchy nodes.
    pub selectable: bool,
}

/// The uniform acknowledgement of a write operation.
#[derive(Debug, Clone)]
pub struct ActionResult {
    pub ok: bool,
    pub action: &'static str,
    pub uid: Option<u32>,
    pub detail: String,
}

// ---------------------------------------------------------------------
// TSV rendering
// ---------------------------------------------------------------------

/// A field character with tab, newline and carriage return turned into a
/// space, so that every record stays on one line.
pub open spec fn tsv_char(c: char) -> char {
    if c == '\t' || c == '\n' || c == '\r' {
        ' '
    } else {
        c
    }
}

/// A field with its separators neutralised.
pub open spec fn tsv_clean_spec(s: Seq<char>) -> Seq<char> {
    s.map_values(|c: char| tsv_char(c))
}

/// Appends `s` to `out` with tabs and line breaks turned into spaces.
pub fn push_clean(out: &mut String, s: &str)
    ensures
        final(out)@ == old(out)@ + tsv_clean_spec(s@),
{
    let v = crate::text::chars_of(s);
    let mut i: usize = 0;
    while i < v.len()
        invariant
            i <= v.len(),
            v@ == s@,
            out@ == old(out)@ + tsv_clean_spec(v@.take(i as int)),
        decreases v.len() - i,
    {
        let c = v[i];
        let d = if c == '\t' || c == '\n' || c == '\r' {
            ' '
        } else {
            c
        };
        push_char(out, d);
        assert(tsv_clean_spec(v@.take(i as int)).push(d) =~= tsv_clean_spec(v@.take(i + 1)));
        i += 1;
    }
    assert(v@.take(v.len() as int) =~= v@);
}

/// A field with tabs and line breaks turned into spaces.
pub fn tsv_clean(s: &str) -> (r: String)
    ensures
        r@ == tsv_clean_spec(s@),
{
    let mut r = String::new();
    push_clean(&mut r, s);
    r
}

/// How a boolean is displayed.
pub open spec fn bool_text(b: bool) -> Seq<char> {
    if b {
        "true"@
    } else {
        "false"@
    }
}

/// The characters of an optional string, or nothing.
pub open spec fn opt_text(o: Option<String>) -> Seq<char> {
    match o {
        Some(s) => s@,
        None => Seq::empty(),
    }
}

/// An optional number in decimal, or nothing.
pub open spec fn opt_num_text(o: Option<u32>) -> Seq<char> {
    match o {
        Some(n) => decimal(n as nat),
        None => Seq::empty(),
    }
}

/// The TSV row of one message: uid, from, subject, date, unread, size,
/// is_bulk.
pub open spec fn meta_row_spec(m: MessageMeta) -> Seq<char> {
    decimal(m.uid as nat) + "\t"@ + tsv_clean_spec(m.from@) + "\t"@ + tsv_clean_spec(m.subject@)
        + "\t"@ + tsv_clean_spec(opt_text(m.date)) + "\t"@ + bool_text(m.unread) + "\t"@
        + opt_num_text(m.size) + "\t"@ + bool_text(m.is_bulk)
}

fn push_bool(out: &mut String, b: bool)
    ensures
        final(out)@ == old(out)@ + bool_text(b),
{
    if b {
        out.append("true");
    } else {
        out.append("false");
    }
}

/// The TSV row of one message.
pub fn meta_row(m: &MessageMeta) -> (r: String)
    ensures
        r@ == meta_row_spec(*m),
{
    let mut r = String::new();
    push_decimal(&mut r, m.uid as u64);
    let ghost p1 = decimal(m.uid as nat);
    assert(r@ =~= p1);
    r.append("\t");
    push_clean(&mut r, m.from.as_str());
    let ghost p2 = p1 + "\t"@ + tsv_clean_spec(m.from@);
    assert(r@ =~= p2);
    r.append("\t");
    push_clean(&mut r, m.subject.as_str());
    let ghost p3 = p2 + "\t"@ + tsv_clean_spec(m.subject@);
    assert(r@ =~= p3);
    r.append("\t");
    match &m.date {
        Some(d) => push_clean(&mut r, d.as_str()),
        None => {},
    }
    let ghost p4 = p3 + "\t"@ + tsv_clean_spec(opt_text(m.date));
    assert(r@ =~= p4);
    r.append("\t");
    push_bool(&mut r, m.unread);
    let ghost p5 = p4 + "\t"@ + bool_text(m.unread);
    assert(r@ =~= p5);
    r.append("\t");
    match m.size {
        Some(n) => push_decimal(&mut r, n as u64),
        None => {},
    }
    let ghost p6 = p5 + "\t"@ + opt_num_text(m.size);
    assert(r@ =~= p6);
    r.append("\t");
    push_bool(&mut r, m.is_bulk);
    assert(r@ =~= p6 + "\t"@ + bool_text(m.is_bulk));
    r
}

/// Appends the TSV row of one message (without line end).
pub fn push_meta_row(out: &mut String, m: &MessageMeta)
    ensures
        final(out)@ == old(out)@ + meta_row_spec(*m),
{
    let row = meta_row(m);
    out.append(row.as_str());
}

/// The header line of message listings.
pub open spec fn meta_header() -> Seq<char> {
    "uid\tfrom\tsubject\tdate\tunread\tsize\tis_bulk"@
}

/// One line per message, each ending in a newline; every line is prefixed
/// with `prefix`.
pub open spec fn rows_spec(prefix: Seq<char>, ms: Seq<MessageMeta>) -> Seq<char>
    decreases ms.len(),
{
    if ms.len() == 0 {
        Seq::empty()
    } else {
        rows_spec(prefix, ms.drop_last()) + prefix + meta_row_spec(ms.last()) + "\n"@
    }
}

/// `key=value` pairs joined by tabs, values cleaned.
pub open spec fn pairs_spec(meta: Seq<(&str, String)>) -> Seq<char>
    decreases meta.len(),
{
    if meta.len() == 0 {
        Seq::empty()
    } else if meta.len() == 1 {
        meta[0].0@ + "="@ + tsv_clean_spec(meta[0].1@)
    } else {
        pairs_spec(meta.drop_last()) + "\t"@ + meta.last().0@ + "="@ + tsv_clean_spec(
            meta.last().1@,
        )
    }
}

/// The TSV document of a single-folder search: an optional `# k=v` comment
/// line, the header line, then one line per message.
pub open spec fn tsv_spec(meta: Seq<(&str, String)>, ms: Seq<MessageMeta>) -> Seq<char> {
    (if meta.len() == 0 {
        Seq::empty()
    } else {
        "# "@ + pairs_spec(meta) + "\n"@
    }) + meta_header() + "\n"@ + rows_spec(Seq::empty(), ms)
}

/// Appends a line per message, each prefixed with `prefix`.
fn push_rows(out: &mut String, prefix: &str, ms: &Vec<MessageMeta>)
    ensures
        final(out)@ == old(out)@ + rows_spec(prefix@, ms@),
{
    let mut i: usize = 0;
    while i < ms.len()
        invariant
            i <= ms.len(),
            out@ == old(out)@ + rows_spec(prefix@, ms@.take(i as int)),
        decreases ms.len() - i,
    {
        out.append(prefix);
        push_meta_row(out, &ms[i]);
        out.append("\n");
        assert(ms@.take(i + 1).drop_last() =~= ms@.take(i as int));
        assert(out@ =~= old(out)@ + rows_spec(prefix@, ms@.take(i + 1)));
        i += 1;
    }
    assert(ms@.take(ms.len() as int) =~= ms@);
}

/// The TSV document of a single-folder search.
pub fn tsv_document(meta: &Vec<(&str, String)>, messages: &Vec<MessageMeta>) -> (r: String)
    ensures
        r@ == tsv_spec(meta@, messages@),
{
    let mut r = String::new();
    if meta.len() > 0 {
        r.append("# ");
        let mut i: usize = 0;
        while i < meta.len()
            invariant
                0 < meta.len(),
                i <= meta.len(),
                r@ == "# "@ + pairs_spec(meta@.take(i as int)),
            decreases meta.len() - i,
        {
            if i > 0 {
                r.append("\t");
            }
            r.append(meta[i].0);
            r.append("=");
            push_clean(&mut r, meta[i].1.as_str());
            assert(meta@.take(i + 1).drop_last() =~= meta@.take(i as int));
            assert(r@ =~= "# "@ + pairs_spec(meta@.take(i + 1)));
            i += 1;
        }
        assert(meta@.take(meta.len() as int) =~= meta@);
        r.append("\n");
    }
    let ghost first = r@;
    assert(first =~= if meta@.len() == 0 {
        Seq::<char>::empty()
    } else {
        "# "@ + pairs_spec(meta@) + "\n"@
    });
    r.append("uid\tfrom\tsubject\tdate\tunread\tsize\tis_bulk");
    r.append("\n");
    let ghost second = r@;
    assert(second =~= first + meta_header() + "\n"@);
    push_rows(&mut r, "", messages);
    proof {
        reveal_strlit("");
        assert(""@ =~= Seq::<char>::empty());
    }
    assert(r@ =~= tsv_spec(meta@, messages@));
    r
}

/// The comment line of one account in a multi-account listing: its error,
/// else its UIDVALIDITY, else nothing.
pub open spec fn account_note_spec(a: AccountSearch) -> Seq<char> {
    match a.error {
        Some(e) => "# account="@ + tsv_clean_spec(a.account@) + "\terror="@ + tsv_clean_spec(e@)
            + "\n"@,
        None => match a.uidvalidity {
            Some(uv) => "# account="@ + tsv_clean_spec(a.account@) + "\tuidvalidity="@ + decimal(
                uv as nat,
            ) + "\n"@,
            None => Seq::empty(),
        },
    }
}

pub open spec fn account_notes_spec(accts: Seq<AccountSearch>) -> Seq<char>
    decreases accts.len(),
{
    if accts.len() == 0 {
        Seq::empty()
    } else {
        account_notes_spec(accts.drop_last()) + account_note_spec(accts.last())
    }
}

pub open spec fn account_rows_spec(accts: Seq<AccountSearch>) -> Seq<char>
    decreases accts.len(),
{
    if accts.len() == 0 {
        Seq::empty()
    } else {
        let a = accts.last();
        account_rows_spec(accts.drop_last()) + rows_spec(
            tsv_clean_spec(a.account@) + "\t"@,
            a.messages@,
        )
    }
}

/// The TSV document of a multi-account search: a `# folder=` line, one
/// comment line per account, the header with a leading `account` column,
/// then every account's messages.
pub open spec fn tsv_accounts_spec(folder: Seq<char>, accts: Seq<AccountSearch>) -> Seq<char> {
    "# folder="@ + tsv_clean_spec(folder) + "\n"@ + account_notes_spec(accts) + "account\t"@
        + meta_header() + "\n"@ + account_rows_spec(accts)
}

/// The TSV document of a multi-account search.
pub fn tsv_accounts_document(folder: &str, accounts: &Vec<AccountSearch>) -> (r: String)
    ensures
        r@ == tsv_accounts_spec(folder@, accounts@),
{
    let mut r = String::new();
    r.append("# folder=");
    push_clean(&mut r, folder);
    r.append("\n");
    let ghost head = r@;
    let mut i: usize = 0;
    while i < accounts.len()
        invariant
            i <= accounts.len(),
            r@ == head + account_notes_spec(accounts@.take(i as int)),
        decreases accounts.len() - i,
    {
        let a = &accounts[i];
        match &a.error {
            Some(e) => {
                r.append("# account=");
                push_clean(&mut r, a.account.as_str());
                r.append("\terror=");
                push_clean(&mut r, e.as_str());
                r.append("\n");
            },
            None => match a.uidvalidity {
                Some(uv) => {
                    r.append("# account=");
                    push_clean(&mut r, a.account.as_str());
                    r.append("\tuidvalidity=");
                    push_decimal(&mut r, uv as u64);
                    r.append("\n");
                },
                None => {},
            },
        }
        assert(accounts@.take(i + 1).drop_last() =~= accounts@.take(i as int));
        assert(r@ =~= head + account_notes_spec(accounts@.take(i + 1)));
        i += 1;
    }
    assert(accounts@.take(accounts.len() as int) =~= accounts@);
    r.append("account\t");
    r.append("uid\tfrom\tsubject\tdate\tunread\tsize\tis_bulk");
    r.append("\n");
    let ghost mid = r@;
    let mut k: usize = 0;
    while k < accounts.len()
        invariant
            k <= accounts.len(),
            r@ == mid + account_rows_spec(accounts@.take(k as int)),
        decreases accounts.len() - k,
    {
        let a = &accounts[k];
        let mut prefix = tsv_clean(a.account.as_str());
        prefix.append("\t");
        push_rows(&mut r, prefix.as_str(), &a.messages);
        assert(accounts@.take(k + 1).drop_last() =~= accounts@.take(k as int));
        assert(r@ =~= mid + account_rows_spec(accounts@.take(k + 1)));
        k += 1;
    }
    assert(accounts@.take(accounts.len() as int) =~= accounts@);
    assert(r@ =~= tsv_accounts_spec(folder@, accounts@));
    r
}

/// Cleaned fields never contain a tab or a line break, and keep their
/// length, so a TSV record always stays on one line with its columns intact.
pub proof fn lemma_tsv_clean_single_line(s: Seq<char>)
    ensures
        tsv_clean_spec(s).len() == s.len(),
        forall|i: int|
            0 <= i < s.len() ==> #[trigger] tsv_clean_spec(s)[i] != '\t' && tsv_clean_spec(s)[i]
                != '\n' && tsv_clean_spec(s)[i] != '\r',
{
}

proof fn lemma_rows_concat(p: Seq<char>, a: Seq<MessageMeta>, b: Seq<MessageMeta>)
    ensures
        rows_spec(p, a + b) == rows_spec(p, a) + rows_spec(p, b),
    decreases b.len(),
{
    if b.len() == 0 {
        assert(a + b =~= a);
        assert(rows_spec(p, a) + rows_spec(p, b) =~= rows_spec(p, a));
    } else {
        lemma_rows_concat(p, a, b.drop_last());
        assert((a + b).drop_last() =~= a + b.drop_last());
        assert((a + b).last() == b.last());
        assert(rows_spec(p, a) + (rows_spec(p, b.drop_last()) + p + meta_row_spec(b.last())
            + "\n"@) =~= rows_spec(p, a) + rows_spec(p, b.drop_last()) + p + meta_row_spec(b.last())
            + "\n"@);
    }
}

proof fn lemma_account_rows_concat(a: Seq<AccountSearch>, b: Seq<AccountSearch>)
    ensures
        account_rows_spec(a + b) == account_rows_spec(a) + account_rows_spec(b),
    decreases b.len(),
{
    if b.len() == 0 {
        assert(a + b =~= a);
        assert(account_rows_spec(a) + account_rows_spec(b) =~= account_rows_spec(a));
    } else {
        lemma_account_rows_concat(a, b.drop_last());
        assert((a + b).drop_last() =~= a + b.drop_last());
        assert((a + b).last() == b.last());
        let x = b.last();
        let r = rows_spec(tsv_clean_spec(x.account@) + "\t"@, x.messages@);
        assert(account_rows_spec(a) + (account_rows_spec(b.drop_last()) + r) =~= account_rows_spec(a)
            + account_rows_spec(b.drop_last()) + r);
    }
}

/// The rows of account `k` stand between those of the accounts before and
/// after it.
proof fn lemma_account_block(accts: Seq<AccountSearch>, k: int)
    requires
        0 <= k < accts.len(),
    ensures
        account_rows_spec(accts) == account_rows_spec(accts.take(k)) + rows_spec(
            tsv_clean_spec(accts[k].account@) + "\t"@,
            accts[k].messages@,
        ) + account_rows_spec(accts.skip(k + 1)),
{
    let a = accts[k];
    assert(accts =~= accts.take(k) + seq![a] + accts.skip(k + 1));
    lemma_account_rows_concat(accts.take(k) + seq![a], accts.skip(k + 1));
    lemma_account_rows_concat(accts.take(k), seq![a]);
    assert(seq![a].drop_last() =~= Seq::<AccountSearch>::empty());
    assert(account_rows_spec(Seq::<AccountSearch>::empty()) == Seq::<char>::empty());
    assert(account_rows_spec(seq![a]) =~= rows_spec(
        tsv_clean_spec(a.account@) + "\t"@,
        a.messages@,
    ));
}

/// Row `j` stands between the rows before and after it.
proof fn lemma_row_block(p: Seq<char>, ms: Seq<MessageMeta>, j: int)
    requires
        0 <= j < ms.len(),
    ensures
        rows_spec(p, ms) == rows_spec(p, ms.take(j)) + (p + meta_row_spec(ms[j]) + "\n"@)
            + rows_spec(p, ms.skip(j + 1)),
{
    assert(ms =~= ms.take(j) + seq![ms[j]] + ms.skip(j + 1));
    lemma_rows_concat(p, ms.take(j) + seq![ms[j]], ms.skip(j + 1));
    lemma_rows_concat(p, ms.take(j), seq![ms[j]]);
    assert(seq![ms[j]].drop_last() =~= Seq::<MessageMeta>::empty());
    assert(rows_spec(p, Seq::<MessageMeta>::empty()) == Seq::<char>::empty());
    assert(rows_spec(p, seq![ms[j]]) =~= p + meta_row_spec(ms[j]) + "\n"@);
}

/// Line `j` of account `a` in the multi-account listing: the account's
/// name (cleaned), a tab, the message's row and a newline.
pub open spec fn account_row_line(a: AccountSearch, j: int) -> Seq<char> {
    tsv_clean_spec(a.account@) + "\t"@ + meta_row_spec(a.messages@[j]) + "\n"@
}

/// In the multi-account listing, message `j` of account `k` is the line
/// that starts with account `k`'s own name. Before it come the header
/// lines, the rows of the accounts before `k` and the earlier messages of
/// account `k`; after it, its later messages and the accounts after `k`.
pub proof fn lemma_each_row_names_its_account(
    folder: Seq<char>,
    accts: Seq<AccountSearch>,
    k: int,
    j: int,
)
    requires
        0 <= k < accts.len(),
        0 <= j < accts[k].messages@.len(),
    ensures
        tsv_accounts_spec(folder, accts) == ("# folder="@ + tsv_clean_spec(folder) + "\n"@
            + account_notes_spec(accts) + "account\t"@ + meta_header() + "\n"@
            + account_rows_spec(accts.take(k)) + rows_spec(
            tsv_clean_spec(accts[k].account@) + "\t"@,
            accts[k].messages@.take(j),
        )) + account_row_line(accts[k], j) + (rows_spec(
            tsv_clean_spec(accts[k].account@) + "\t"@,
            accts[k].messages@.skip(j + 1),
        ) + account_rows_spec(accts.skip(k + 1))),
{
    let a = accts[k];
    let ms = a.messages@;
    let p = tsv_clean_spec(a.account@) + "\t"@;
    let h = "# folder="@ + tsv_clean_spec(folder) + "\n"@ + account_notes_spec(accts) + "account\t"@
        + meta_header() + "\n"@;
    lemma_account_block(accts, k);
    lemma_row_block(p, ms, j);
    let x = account_rows_spec(accts.take(k));
    let y = rows_spec(p, ms.take(j));
    let row = p + meta_row_spec(ms[j]) + "\n"@;
    let z = rows_spec(p, ms.skip(j + 1));
    let w = account_rows_spec(accts.skip(k + 1));
    assert(row == account_row_line(a, j));
    assert(tsv_accounts_spec(folder, accts) == h + account_rows_spec(accts));
    assert(account_rows_spec(accts) == x + (y + row + z) + w);
    lemma_regroup(h, x, y, row, z, w);
}

proof fn lemma_regroup(
    h: Seq<char>,
    x: Seq<char>,
    y: Seq<char>,
    row: Seq<char>,
    z: Seq<char>,
    w: Seq<char>,
)
    ensures
        h + (x + (y + row + z) + w) == (h + x + y) + row + (z + w),
{
    assert(h + (x + (y + row + z) + w) =~= (h + x + y) + row + (z + w));
}

} // verus!
