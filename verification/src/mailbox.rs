//! The decisions and encodings around IMAP mailbox commands: UIDVALIDITY
//! pinning, result ordering and limits, UID set syntax and batching, flag
//! and Gmail label commands.
use vstd::prelude::*;
use vstd::relations::{sorted_by, total_ordering};
use crate::error::Error;
use crate::text::{decimal, push_char, push_decimal};

verus! {

broadcast use vstd::seq_lib::group_to_multiset_ensures;

/// At most this many UIDs go into one `UID MOVE` / `UID STORE` command.
pub const UID_CHUNK: usize = 50;

// ---------------------------------------------------------------------
// UIDVALIDITY pinning
// ---------------------------------------------------------------------

/// The UIDVALIDITY a SELECT reported (0 when the server sent none).
pub open spec fn reported_validity(reported: Option<u32>) -> u32 {
    match reported {
        Some(v) => v,
        None => 0,
    }
}

/// Checks a selected folder's UIDVALIDITY against the one the caller saw
/// earlier. UIDs are only stable within one UIDVALIDITY, so a mismatch
/// means the mailbox was recreated and the caller's UIDs must not be used.
pub fn check_uidvalidity(expect: Option<u32>, reported: Option<u32>) -> (r: Result<u32, Error>)
    ensures
        match expect {
            Some(e) if e != reported_validity(reported) => r matches Err(
                Error::UidValidityMismatch { expected, actual },
            ) && expected == e && actual == reported_validity(reported),
            _ => r == Ok::<u32, Error>(reported_validity(reported)),
        },
{
    let actual = match reported {
        Some(v) => v,
        None => 0,
    };
    match expect {
        Some(expected) => {
            if expected != actual {
                return Err(Error::UidValidityMismatch { expected, actual });
            }
        },
        None => {},
    }
    Ok(actual)
}

// ---------------------------------------------------------------------
// Newest first
// ---------------------------------------------------------------------

/// Descending order of UIDs (newest first).
pub open spec fn uid_desc(a: u32, b: u32) -> bool {
    a >= b
}

proof fn lemma_uid_desc_total()
    ensures
        total_ordering(|a: u32, b: u32| uid_desc(a, b)),
{
}

/// `n`, capped at `limit`.
pub open spec fn capped(n: nat, limit: usize) -> int {
    if limit < n {
        limit as int
    } else {
        n as int
    }
}

/// `s` is in descending order.
pub open spec fn desc_sorted(s: Seq<u32>) -> bool {
    forall|i: int, j: int| 0 <= i < j < s.len() ==> s[i] >= s[j]
}

/// Moves the elements of `v` into a new vector in reverse order.
fn reversed_uids(v: Vec<u32>) -> (r: Vec<u32>)
    ensures
        r@ == v@.reverse(),
{
    let ghost orig = v@;
    let mut v = v;
    let mut r: Vec<u32> = Vec::new();
    while v.len() > 0
        invariant
            v@.len() <= orig.len(),
            v@ == orig.take(v@.len() as int),
            r@ == orig.skip(v@.len() as int).reverse(),
        decreases v@.len(),
    {
        let ghost n = v@.len();
        let x = v.pop().unwrap();
        assert(orig.take(n as int).subrange(0, n - 1) =~= orig.take(n - 1));
        assert(orig.skip(n - 1).reverse() =~= orig.skip(n as int).reverse().push(x));
        r.push(x);
    }
    assert(orig.skip(0) =~= orig);
    r
}

/// Merges two descending lists into one descending list.
fn merge_uids_desc(a: Vec<u32>, b: Vec<u32>) -> (r: Vec<u32>)
    requires
        desc_sorted(a@),
        desc_sorted(b@),
    ensures
        r@.to_multiset() == a@.to_multiset().add(b@.to_multiset()),
        desc_sorted(r@),
{
    let ghost ga = a@;
    let ghost gb = b@;
    let mut ra = reversed_uids(a);
    let mut rb = reversed_uids(b);
    proof {
        ga.lemma_reverse_to_multiset();
        gb.lemma_reverse_to_multiset();
    }
    let mut out: Vec<u32> = Vec::new();
    while ra.len() > 0 || rb.len() > 0
        invariant
            out@.to_multiset().add(ra@.to_multiset()).add(rb@.to_multiset()) == ga.to_multiset().add(
                gb.to_multiset(),
            ),
            forall|i: int, j: int| 0 <= i < j < ra@.len() ==> ra@[i] <= ra@[j],
            forall|i: int, j: int| 0 <= i < j < rb@.len() ==> rb@[i] <= rb@[j],
            desc_sorted(out@),
            forall|i: int, j: int|
                0 <= i < out@.len() && 0 <= j < ra@.len() ==> out@[i] >= ra@[j],
            forall|i: int, j: int|
                0 <= i < out@.len() && 0 <= j < rb@.len() ==> out@[i] >= rb@[j],
        decreases ra@.len() + rb@.len(),
    {
        let take_a = if ra.len() == 0 {
            false
        } else if rb.len() == 0 {
            true
        } else {
            ra[ra.len() - 1] >= rb[rb.len() - 1]
        };
        let ghost pa = ra@;
        let ghost pb = rb@;
        let ghost po = out@;
        let x = if take_a {
            ra.pop().unwrap()
        } else {
            rb.pop().unwrap()
        };
        proof {
            if take_a {
                assert(pa =~= ra@.push(x));
                assert forall|j: int| 0 <= j < ra@.len() implies x >= ra@[j] by {
                    assert(pa[j] == ra@[j]);
                }
                assert forall|j: int| 0 <= j < rb@.len() implies x >= rb@[j] by {
                    assert(pb[j] <= pb[pb.len() - 1]);
                }
            } else {
                assert(pb =~= rb@.push(x));
                assert forall|j: int| 0 <= j < rb@.len() implies x >= rb@[j] by {
                    assert(pb[j] == rb@[j]);
                }
                assert forall|j: int| 0 <= j < ra@.len() implies x >= ra@[j] by {
                    assert(pa[j] <= pa[pa.len() - 1]);
                }
            }
        }
        out.push(x);
        proof {
            assert(out@ =~= po.push(x));
            if take_a {
                assert(pa.to_multiset() =~= ra@.to_multiset().insert(x));
            } else {
                assert(pb.to_multiset() =~= rb@.to_multiset().insert(x));
            }
            assert(out@.to_multiset().add(ra@.to_multiset()).add(rb@.to_multiset())
                =~= po.to_multiset().add(pa.to_multiset()).add(pb.to_multiset()));
            assert forall|i: int, j: int| 0 <= i < j < out@.len() implies out@[i]
                >= out@[j] by {
                if j == out@.len() - 1 && i < po.len() {
                    if take_a {
                        assert(po[i] >= pa[pa.len() - 1]);
                    } else {
                        assert(po[i] >= pb[pb.len() - 1]);
                    }
                }
            }
        }
    }
    assert(ra@.to_multiset() =~= vstd::multiset::Multiset::empty());
    assert(rb@.to_multiset() =~= vstd::multiset::Multiset::empty());
    assert(out@.to_multiset() =~= out@.to_multiset().add(ra@.to_multiset()).add(rb@.to_multiset()));
    out
}

/// Sorts UIDs newest first (descending), by merging.
pub fn sort_uids_desc(fs: Vec<u32>) -> (r: Vec<u32>)
    ensures
        r@.to_multiset() == fs@.to_multiset(),
        desc_sorted(r@),
    decreases fs@.len(),
{
    if fs.len() <= 1 {
        return fs;
    }
    let ghost orig = fs@;
    let mut left = fs;
    let mid = left.len() / 2;
    let right = left.split_off(mid);
    proof {
        vstd::seq_lib::lemma_multiset_commutative(left@, right@);
        assert(left@ + right@ =~= orig);
    }
    let l = sort_uids_desc(left);
    let r = sort_uids_desc(right);
    merge_uids_desc(l, r)
}

/// The UIDs newest first, at most `limit` of them.
pub fn newest_first(uids: Vec<u32>, limit: usize) -> (r: Vec<u32>)
    ensures
        r@ == uids@.sort_by(|a: u32, b: u32| uid_desc(a, b)).take(capped(uids@.len(), limit)),
{
    let ghost orig = uids@;
    let mut sorted = sort_uids_desc(uids);
    proof {
        let leq = |a: u32, b: u32| uid_desc(a, b);
        lemma_uid_desc_total();
        assert(sorted_by(sorted@, leq));
        orig.lemma_sort_by_ensures(leq);
        vstd::seq_lib::lemma_sorted_unique(sorted@, orig.sort_by(leq), leq);
        assert(sorted@.len() == orig.len()) by {
            vstd::seq_lib::lemma_multiset_commutative(sorted@, orig);
            sorted@.to_multiset_ensures();
            orig.to_multiset_ensures();
        }
    }
    let ghost full = sorted@;
    if sorted.len() > limit {
        sorted.truncate(limit);
    }
    assert(sorted@ =~= full.take(capped(orig.len(), limit)));
    sorted
}

// ---------------------------------------------------------------------
// UID sets and batching
// ---------------------------------------------------------------------

/// An IMAP UID set: the UIDs in decimal, separated by commas.
pub open spec fn uid_set_spec(uids: Seq<u32>) -> Seq<char>
    decreases uids.len(),
{
    if uids.len() == 0 {
        Seq::empty()
    } else if uids.len() == 1 {
        decimal(uids[0] as nat)
    } else {
        uid_set_spec(uids.drop_last()) + ","@ + decimal(uids.last() as nat)
    }
}

/// The UID set of `uids[start..end]`.
fn uid_set_range(uids: &Vec<u32>, start: usize, end: usize) -> (r: String)
    requires
        start <= end <= uids.len(),
    ensures
        r@ == uid_set_spec(uids@.subrange(start as int, end as int)),
{
    let mut r = String::new();
    let mut i: usize = start;
    while i < end
        invariant
            start <= i <= end <= uids.len(),
            r@ == uid_set_spec(uids@.subrange(start as int, i as int)),
        decreases end - i,
    {
        let ghost prev = r@;
        if i > start {
            r.append(",");
        }
        push_decimal(&mut r, uids[i] as u64);
        assert(uids@.subrange(start as int, i + 1).drop_last() =~= uids@.subrange(
            start as int,
            i as int,
        ));
        if i == start {
            assert(prev =~= Seq::<char>::empty());
            assert(r@ =~= uid_set_spec(uids@.subrange(start as int, i + 1)));
        } else {
            assert(r@ =~= uid_set_spec(uids@.subrange(start as int, i + 1)));
        }
        i += 1;
    }
    r
}

/// The IMAP UID set of a list of UIDs (`1,2,3`).
pub fn uid_set(uids: &Vec<u32>) -> (r: String)
    ensures
        r@ == uid_set_spec(uids@),
{
    let r = uid_set_range(uids, 0, uids.len());
    assert(uids@.subrange(0, uids.len() as int) =~= uids@);
    r
}

/// How many batches a list of `n` UIDs is sent in.
pub open spec fn chunk_count(n: nat) -> nat {
    ((n + 49) / 50) as nat
}

/// The `k`-th batch: at most 50 consecutive UIDs.
pub open spec fn chunk(uids: Seq<u32>, k: int) -> Seq<u32> {
    let start = 50 * k;
    let end = if start + 50 < uids.len() {
        start + 50
    } else {
        uids.len() as int
    };
    uids.subrange(start, end)
}

/// The UID sets of the batches a command over `uids` is split into, in
/// order; each batch holds at most 50 UIDs.
pub fn uid_chunk_sets(uids: &Vec<u32>) -> (r: Vec<String>)
    ensures
        r@.len() == chunk_count(uids@.len()),
        forall|k: int| 0 <= k < r@.len() ==> #[trigger] r@[k]@ == uid_set_spec(chunk(uids@, k)),
{
    let mut r: Vec<String> = Vec::new();
    let mut start: usize = 0;
    while start < uids.len()
        invariant
            start <= uids.len(),
            start < uids.len() ==> start == 50 * r@.len(),
            start == uids.len() ==> r@.len() == chunk_count(uids@.len()),
            forall|k: int| 0 <= k < r@.len() ==> #[trigger] r@[k]@ == uid_set_spec(chunk(uids@, k)),
        decreases uids.len() - start,
    {
        let end = if uids.len() - start > UID_CHUNK {
            start + UID_CHUNK
        } else {
            uids.len()
        };
        let set = uid_set_range(uids, start, end);
        let ghost k = r@.len() as int;
        assert(chunk(uids@, k) == uids@.subrange(start as int, end as int));
        r.push(set);
        if end == uids.len() {
            let ghost n = uids@.len() as int;
            assert((n + 49) / 50 == k + 1) by (nonlinear_arith)
                requires
                    50 * k < n <= 50 * k + 50,
            ;
        }
        start = end;
    }
    if uids.len() == 0 {
        assert(chunk_count(0) == 0);
    }
    r
}

/// Every UID appears in exactly the batch its position falls in, and
/// batches never exceed 50 UIDs: the batches, in order, are the whole list.
pub proof fn lemma_chunks_cover(uids: Seq<u32>, i: int)
    requires
        0 <= i < uids.len(),
    ensures
        0 <= i / 50 < chunk_count(uids.len()),
        chunk(uids, i / 50)[i % 50] == uids[i],
        forall|k: int| 0 <= k < chunk_count(uids.len()) ==> #[trigger] chunk(uids, k).len() <= 50,
{
    assert forall|k: int| 0 <= k < chunk_count(uids.len()) implies #[trigger] chunk(
        uids,
        k,
    ).len() <= 50 by {
        assert(50 * k < uids.len());
    }
}

// ---------------------------------------------------------------------
// Flags and labels
// ---------------------------------------------------------------------

/// Strings joined by single spaces.
pub open spec fn space_joined(items: Seq<&str>) -> Seq<char>
    decreases items.len(),
{
    if items.len() == 0 {
        Seq::empty()
    } else if items.len() == 1 {
        items[0]@
    } else {
        space_joined(items.drop_last()) + " "@ + items.last()@
    }
}

/// The `UID STORE` item that adds flags: `+FLAGS (f1 f2 ...)`.
pub open spec fn add_flags_item(flags: Seq<&str>) -> Seq<char> {
    "+FLAGS ("@ + space_joined(flags) + ")"@
}

/// The `UID STORE` item that adds the given flags.
pub fn add_flags_command(flags: &Vec<&str>) -> (r: String)
    ensures
        r@ == add_flags_item(flags@),
{
    let mut r = crate::text::owned("+FLAGS (");
    let ghost head = r@;
    let mut i: usize = 0;
    while i < flags.len()
        invariant
            i <= flags.len(),
            r@ == head + space_joined(flags@.take(i as int)),
        decreases flags.len() - i,
    {
        if i > 0 {
            r.append(" ");
        }
        r.append(flags[i]);
        assert(flags@.take(i + 1).drop_last() =~= flags@.take(i as int));
        assert(r@ =~= head + space_joined(flags@.take(i + 1)));
        i += 1;
    }
    assert(flags@.take(flags.len() as int) =~= flags@);
    r.append(")");
    r
}

/// A label with backslashes and double quotes escaped.
pub open spec fn escape_label(s: Seq<char>) -> Seq<char>
    decreases s.len(),
{
    if s.len() == 0 {
        Seq::empty()
    } else {
        let c = s.last();
        escape_label(s.drop_last()) + if c == '\\' {
            seq!['\\', '\\']
        } else if c == '"' {
            seq!['\\', '"']
        } else {
            seq![c]
        }
    }
}

/// A label as an IMAP quoted string.
pub open spec fn quoted_label(s: Seq<char>) -> Seq<char> {
    seq!['"'] + escape_label(s) + seq!['"']
}

/// Quotes a Gmail label as an IMAP quoted string (safe with spaces and
/// hierarchy separators).
pub fn quote_label(label: &str) -> (r: String)
    ensures
        r@ == quoted_label(label@),
{
    let v = crate::text::chars_of(label);
    let mut r = String::new();
    push_char(&mut r, '"');
    let mut i: usize = 0;
    while i < v.len()
        invariant
            i <= v.len(),
            v@ == label@,
            r@ == seq!['"'] + escape_label(v@.take(i as int)),
        decreases v.len() - i,
    {
        let c = v[i];
        if c == '\\' {
            push_char(&mut r, '\\');
            push_char(&mut r, '\\');
        } else if c == '"' {
            push_char(&mut r, '\\');
            push_char(&mut r, '"');
        } else {
            push_char(&mut r, c);
        }
        assert(v@.take(i + 1).drop_last() =~= v@.take(i as int));
        assert(r@ =~= seq!['"'] + escape_label(v@.take(i + 1)));
        i += 1;
    }
    assert(v@.take(v.len() as int) =~= v@);
    push_char(&mut r, '"');
    r
}

/// The raw command that adds (`sign` `+`) or removes (`-`) one Gmail label
/// on a UID set, with the echo suppressed.
pub open spec fn label_command(set: Seq<char>, sign: char, label: Seq<char>) -> Seq<char> {
    "UID STORE "@ + set + seq![' ', sign] + "X-GM-LABELS.SILENT ("@ + quoted_label(label) + ")"@
}

fn label_command_exec(set: &String, sign: char, label: &String) -> (r: String)
    ensures
        r@ == label_command(set@, sign, label@),
{
    let mut r = crate::text::owned("UID STORE ");
    r.append(set.as_str());
    push_char(&mut r, ' ');
    push_char(&mut r, sign);
    r.append("X-GM-LABELS.SILENT (");
    let q = quote_label(label.as_str());
    r.append(q.as_str());
    r.append(")");
    assert(r@ =~= label_command(set@, sign, label@));
    r
}

/// The label commands for a UID set: one that adds each label in `add`,
/// then one that removes each label in `remove`.
pub fn label_commands(uids: &Vec<u32>, add: &Vec<String>, remove: &Vec<String>) -> (r: Vec<String>)
    ensures
        r@.len() == add@.len() + remove@.len(),
        forall|i: int|
            0 <= i < add@.len() ==> #[trigger] r@[i]@ == label_command(
                uid_set_spec(uids@),
                '+',
                add@[i]@,
            ),
        forall|i: int|
            0 <= i < remove@.len() ==> #[trigger] r@[add@.len() + i]@ == label_command(
                uid_set_spec(uids@),
                '-',
                remove@[i]@,
            ),
{
    let set = uid_set(uids);
    let mut r: Vec<String> = Vec::new();
    let mut i: usize = 0;
    while i < add.len()
        invariant
            i <= add.len(),
            set@ == uid_set_spec(uids@),
            r@.len() == i,
            forall|k: int|
                0 <= k < i ==> #[trigger] r@[k]@ == label_command(set@, '+', add@[k]@),
        decreases add.len() - i,
    {
        r.push(label_command_exec(&set, '+', &add[i]));
        i += 1;
    }
    let mut j: usize = 0;
    while j < remove.len()
        invariant
            j <= remove.len(),
            set@ == uid_set_spec(uids@),
            r@.len() == add@.len() + j,
            forall|k: int|
                0 <= k < add@.len() ==> #[trigger] r@[k]@ == label_command(set@, '+', add@[k]@),
            forall|k: int|
                0 <= k < j ==> #[trigger] r@[add@.len() + k]@ == label_command(
                    set@,
                    '-',
                    remove@[k]@,
                ),
        decreases remove.len() - j,
    {
        r.push(label_command_exec(&set, '-', &remove[j]));
        j += 1;
    }
    r
}

} // verus!

