//! Folder names on the wire use IMAP's modified UTF-7 (RFC 3501 §5.1.3);
//! users see UTF-8. Conversion both ways is done by `utf7_imap`; this
//! module says when its decoder accepts a name and lists folders by their
//! display names.
use vstd::prelude::*;
use crate::model::FolderInfo;
use crate::text::{chars_of, lemma_lex_refl, lemma_lex_total, lemma_lex_trans, lex_le, lex_le_exec};

verus! {

broadcast use vstd::seq_lib::group_to_multiset_ensures;

/// What `utf7_imap::encode_utf7_imap` makes of a display name.
pub uninterp spec fn utf7_encoding(name: Seq<char>) -> Seq<char>;

/// What `utf7_imap::decode_utf7_imap` makes of a wire name.
pub uninterp spec fn utf7_decoding(name: Seq<char>) -> Seq<char>;

/// `utf7_imap::encode_utf7_imap`: a display name in modified UTF-7. Names
/// of printable ASCII without `&` pass through unchanged.
#[verifier::external_body]
fn utf7_encode(name: &str) -> (r: String)
    ensures
        r@ == utf7_encoding(name@),
        (forall|i: int| 0 <= i < name@.len() ==> ' ' <= #[trigger] name@[i] <= '\u{7f}' && name@[i] != '&')
            ==> r@ == name@,
{
    utf7_imap::encode_utf7_imap(name.to_string())
}

/// `utf7_imap::decode_utf7_imap`: a wire name as UTF-8. The decoder
/// unwraps its base64 step, so names with an undecodable `&...-` group are
/// excluded; names without `&` pass through unchanged.
#[verifier::external_body]
fn utf7_decode(name: &str) -> (r: String)
    requires
        utf7_decodable(name@),
    ensures
        r@ == utf7_decoding(name@),
        (forall|i: int| 0 <= i < name@.len() ==> #[trigger] name@[i] != '&') ==> r@ == name@,
{
    utf7_imap::decode_utf7_imap(name.to_string())
}

/// A folder's display name as it goes on the wire (modified UTF-7). Plain
/// printable ASCII names without `&` are sent as they are.
pub fn wire(name: &str) -> (r: String)
    ensures
        r@ == utf7_encoding(name@),
        (forall|i: int| 0 <= i < name@.len() ==> ' ' <= #[trigger] name@[i] <= '\u{7f}' && name@[i] != '&')
            ==> r@ == name@,
{
    utf7_encode(name)
}

/// A folder's wire name (modified UTF-7) as displayed. Names without `&`
/// are displayed as they are.
pub fn human(name: &str) -> (r: String)
    requires
        utf7_decodable(name@),
    ensures
        r@ == utf7_decoding(name@),
        (forall|i: int| 0 <= i < name@.len() ==> #[trigger] name@[i] != '&') ==> r@ == name@,
{
    utf7_decode(name)
}

// ---------------------------------------------------------------------
// When the decoder accepts a name
// ---------------------------------------------------------------------

/// A character of the group alphabet (`,` stands for `/`).
pub open spec fn is_b64(c: char) -> bool {
    ('A' <= c && c <= 'Z') || ('a' <= c && c <= 'z') || ('0' <= c && c <= '9') || c == '+' || c
        == '/' || c == ','
}

/// The 6-bit value of a group character.
pub open spec fn b64_value(c: char) -> int {
    if 'A' <= c && c <= 'Z' {
        c as int - 'A' as int
    } else if 'a' <= c && c <= 'z' {
        c as int - 'a' as int + 26
    } else if '0' <= c && c <= '9' {
        c as int - '0' as int + 52
    } else if c == '+' {
        62
    } else {
        63
    }
}

/// How many `=` end the sequence.
pub open spec fn trailing_pads(g: Seq<char>) -> nat
    decreases g.len(),
{
    if g.len() > 0 && g.last() == '=' {
        trailing_pads(g.drop_last()) + 1
    } else {
        0
    }
}

/// The base64 decoding of a group, padded with `=` to a multiple of four,
/// succeeds: apart from trailing `=`, every character is in the alphabet;
/// with the added padding there are at most two `=`; and the bits of the
/// last symbol that fall outside the decoded bytes are zero.
pub open spec fn group_decodes(g: Seq<char>) -> bool {
    let n = g.len() as int;
    let pad = (4 - n % 4) % 4;
    let e = trailing_pads(g) as int;
    let s = n - e;
    &&& forall|i: int| 0 <= i < s ==> #[trigger] is_b64(g[i])
    &&& e + pad <= 2
    &&& s % 4 == 2 ==> b64_value(g[s - 1]) % 16 == 0
    &&& s % 4 == 3 ==> b64_value(g[s - 1]) % 4 == 0
}

/// The position of the first `c` in `s` at or after `from`.
pub open spec fn index_from(s: Seq<char>, c: char, from: int) -> Option<int>
    decreases s.len() - from,
{
    if from < 0 || from >= s.len() {
        None
    } else if s[from] == c {
        Some(from)
    } else {
        index_from(s, c, from + 1)
    }
}

/// A found position lies in the searched range and holds the character.
pub proof fn lemma_index_from(s: Seq<char>, c: char, from: int)
    ensures
        index_from(s, c, from) matches Some(k) ==> from <= k < s.len() && s[k] == c && forall|
            m: int,
        | from <= m < k ==> s[m] != c,
        from >= 0 && index_from(s, c, from) is None ==> forall|m: int|
            from <= m < s.len() ==> s[m] != c,
    decreases s.len() - from,
{
    if 0 <= from < s.len() && s[from] != c {
        lemma_index_from(s, c, from + 1);
    }
}

/// Every `&...-` group of the name (found left to right, without overlap)
/// is empty (the escaped `&`) or decodes.
pub open spec fn utf7_decodable(s: Seq<char>) -> bool
    decreases s.len(),
{
    match index_from(s, '&', 0) {
        None => true,
        Some(i) => match index_from(s, '-', i + 1) {
            None => true,
            Some(j) => {
                proof {
                    lemma_index_from(s, '&', 0);
                    lemma_index_from(s, '-', i + 1);
                }
                (j == i + 1 || group_decodes(s.subrange(i + 1, j))) && (j + 1 <= s.len()
                ==> utf7_decodable(s.skip(j + 1)))
            },
        },
    }
}

/// Searching a suffix is searching the whole from a later position.
pub proof fn lemma_index_from_skip(s: Seq<char>, c: char, p: int, f: int)
    requires
        0 <= p <= s.len(),
        0 <= f,
    ensures
        index_from(s.skip(p), c, f) == match index_from(s, c, f + p) {
            Some(k) => Some(k - p),
            None => None,
        },
    decreases s.len() - p - f,
{
    if f < s.len() - p && s.skip(p)[f] != c {
        lemma_index_from_skip(s, c, p, f + 1);
    }
}

/// `trailing_pads` counts exactly the run of `=` at the end.
proof fn lemma_trailing_pads(g: Seq<char>, e: int)
    requires
        0 <= e <= g.len(),
        forall|k: int| g.len() - e <= k < g.len() ==> g[k] == '=',
        e == g.len() || g[g.len() - 1 - e] != '=',
    ensures
        trailing_pads(g) == e,
    decreases e,
{
    if e > 0 {
        let d = g.drop_last();
        assert forall|k: int| d.len() - (e - 1) <= k < d.len() implies d[k] == '=' by {
            assert(d[k] == g[k]);
        }
        if e - 1 < d.len() {
            assert(d[d.len() - 1 - (e - 1)] == g[g.len() - 1 - e]);
        }
        lemma_trailing_pads(d, e - 1);
    }
}

fn b64_value_exec(c: char) -> (v: u32)
    requires
        is_b64(c),
    ensures
        v as int == b64_value(c),
{
    if 'A' <= c && c <= 'Z' {
        (c as u32) - ('A' as u32)
    } else if 'a' <= c && c <= 'z' {
        (c as u32) - ('a' as u32) + 26
    } else if '0' <= c && c <= '9' {
        (c as u32) - ('0' as u32) + 52
    } else if c == '+' {
        62
    } else {
        63
    }
}

/// Whether the group `v[start..end]` decodes.
fn group_decodes_exec(v: &Vec<char>, start: usize, end: usize) -> (r: bool)
    requires
        start <= end <= v.len(),
    ensures
        r == group_decodes(v@.subrange(start as int, end as int)),
{
    let ghost g = v@.subrange(start as int, end as int);
    let n = end - start;
    let mut e: usize = 0;
    while e < n && v[end - 1 - e] == '='
        invariant
            e <= n,
            n == end - start,
            end <= v.len(),
            g == v@.subrange(start as int, end as int),
            forall|k: int| g.len() - e <= k < g.len() ==> g[k] == '=',
        decreases n - e,
    {
        assert(g[g.len() - 1 - e] == v@[end - 1 - e]);
        e += 1;
    }
    proof {
        if e < n {
            assert(g[g.len() - 1 - e] == v@[end - 1 - e]);
        }
        lemma_trailing_pads(g, e as int);
    }
    let pad = (4 - n % 4) % 4;
    if e > 2 || e + pad > 2 {
        return false;
    }
    let s = n - e;
    let mut i: usize = 0;
    while i < s
        invariant
            i <= s,
            s == n - e,
            trailing_pads(g) == e,
            n == end - start,
            end <= v.len(),
            g == v@.subrange(start as int, end as int),
            forall|k: int| 0 <= k < i ==> #[trigger] is_b64(g[k]),
        decreases s - i,
    {
        let c = v[start + i];
        assert(g[i as int] == c);
        let ok = ('A' <= c && c <= 'Z') || ('a' <= c && c <= 'z') || ('0' <= c && c <= '9') || c
            == '+' || c == '/' || c == ',';
        if !ok {
            assert(!is_b64(g[i as int]));
            return false;
        }
        i += 1;
    }
    if s % 4 == 2 || s % 4 == 3 {
        let last = v[start + s - 1];
        assert(g[s - 1] == last);
        let value = b64_value_exec(last);
        if s % 4 == 2 && value % 16 != 0 {
            return false;
        }
        if s % 4 == 3 && value % 4 != 0 {
            return false;
        }
    }
    true
}

/// The first position of `c` in `v` at or after `from`.
fn find_from(v: &Vec<char>, c: char, from: usize) -> (r: Option<usize>)
    requires
        from <= v.len(),
    ensures
        r == match index_from(v@, c, from as int) {
            Some(k) => Some(k as usize),
            None => None::<usize>,
        },
{
    proof {
        lemma_index_from(v@, c, from as int);
    }
    let mut k: usize = from;
    while k < v.len()
        invariant
            from <= k <= v.len(),
            forall|m: int| from <= m < k ==> v@[m] != c,
        decreases v.len() - k,
    {
        if v[k] == c {
            proof {
                lemma_index_from(v@, c, from as int);
                if let Some(x) = index_from(v@, c, from as int) {
                    if x < k {
                        assert(v@[x] != c);
                    }
                }
            }
            return Some(k);
        }
        k += 1;
    }
    None
}

/// Whether the UTF-7 decoder accepts a wire folder name.
pub fn is_decodable_name(name: &str) -> (r: bool)
    ensures
        r == utf7_decodable(name@),
{
    let v = chars_of(name);
    let mut pos: usize = 0;
    assert(v@.skip(0) =~= v@);
    loop
        invariant
            pos <= v.len(),
            v@ == name@,
            utf7_decodable(name@) == utf7_decodable(v@.skip(pos as int)),
        decreases v.len() - pos,
    {
        let ghost t = v@.skip(pos as int);
        proof {
            lemma_index_from_skip(v@, '&', pos as int, 0);
        }
        let i = match find_from(&v, '&', pos) {
            None => return true,
            Some(i) => i,
        };
        proof {
            lemma_index_from(v@, '&', pos as int);
            lemma_index_from_skip(v@, '-', pos as int, i - pos + 1);
        }
        let j = match find_from(&v, '-', i + 1) {
            None => return true,
            Some(j) => j,
        };
        proof {
            lemma_index_from(v@, '-', i + 1);
            assert(t.subrange(i - pos + 1, j - pos) =~= v@.subrange(i + 1, j as int));
            assert(t.skip(j - pos + 1) =~= v@.skip(j + 1));
        }
        if j > i + 1 && !group_decodes_exec(&v, i + 1, j) {
            return false;
        }
        pos = j + 1;
    }
}

// ---------------------------------------------------------------------
// Folder listing
// ---------------------------------------------------------------------

/// Folders ordered by display name.
pub open spec fn names_sorted(fs: Seq<FolderInfo>) -> bool {
    forall|i: int, j: int| 0 <= i < j < fs.len() ==> lex_le(fs[i].name@, fs[j].name@)
}

/// The folders of `fs` whose display name is `t`, in order.
pub open spec fn named(fs: Seq<FolderInfo>, t: Seq<char>) -> Seq<FolderInfo>
    decreases fs.len(),
{
    if fs.len() == 0 {
        Seq::empty()
    } else if fs.last().name@ == t {
        named(fs.drop_last(), t).push(fs.last())
    } else {
        named(fs.drop_last(), t)
    }
}

proof fn lemma_named_concat(a: Seq<FolderInfo>, b: Seq<FolderInfo>, t: Seq<char>)
    ensures
        named(a + b, t) == named(a, t) + named(b, t),
    decreases b.len(),
{
    if b.len() == 0 {
        assert(a + b =~= a);
        assert(named(a, t) + named(b, t) =~= named(a, t));
    } else {
        lemma_named_concat(a, b.drop_last(), t);
        assert((a + b).drop_last() =~= a + b.drop_last());
        assert((a + b).last() == b.last());
        if b.last().name@ == t {
            assert(named(a, t) + named(b.drop_last(), t).push(b.last()) =~= (named(a, t) + named(
                b.drop_last(),
                t,
            )).push(b.last()));
        }
    }
}

proof fn lemma_named_none(s: Seq<FolderInfo>, t: Seq<char>)
    requires
        forall|i: int| 0 <= i < s.len() ==> #[trigger] s[i].name@ != t,
    ensures
        named(s, t) == Seq::<FolderInfo>::empty(),
    decreases s.len(),
{
    if s.len() > 0 {
        lemma_named_none(s.drop_last(), t);
    }
}

/// The folder list of a `LIST` answer: each `(wire name, \Noselect)`
/// entry becomes its display name and selectability, sorted by name.
pub fn folder_listing(entries: Vec<(String, bool)>) -> (r: Vec<FolderInfo>)
    requires
        forall|i: int| 0 <= i < entries@.len() ==> utf7_decodable(#[trigger] entries@[i].0@),
    ensures
        exists|d: Seq<FolderInfo>|
            #![trigger d.to_multiset()]
            {
                &&& d.len() == entries@.len()
                &&& forall|i: int|
                    0 <= i < d.len() ==> #[trigger] d[i].name@ == utf7_decoding(entries@[i].0@)
                        && d[i].selectable == !entries@[i].1
                &&& r@.to_multiset() == d.to_multiset()
                &&& names_sorted(r@)
                &&& forall|t: Seq<char>| #[trigger] named(r@, t) == named(d, t)
            },
{
    let mut decoded: Vec<FolderInfo> = Vec::new();
    let mut i: usize = 0;
    while i < entries.len()
        invariant
            i <= entries.len(),
            decoded@.len() == i,
            forall|k: int| 0 <= k < entries@.len() ==> utf7_decodable(#[trigger] entries@[k].0@),
            forall|k: int|
                #![trigger decoded@[k]]
                0 <= k < i ==> decoded@[k].name@ == utf7_decoding(entries@[k].0@)
                    && decoded@[k].selectable == !entries@[k].1,
        decreases entries.len() - i,
    {
        let name = human(entries[i].0.as_str());
        decoded.push(FolderInfo { name, selectable: !entries[i].1 });
        i += 1;
    }
    let ghost d = decoded@;
    assert(forall|i: int|
        0 <= i < d.len() ==> #[trigger] d[i].name@ == utf7_decoding(entries@[i].0@)
            && d[i].selectable == !entries@[i].1);
    let mut rest = decoded;
    let mut out: Vec<FolderInfo> = Vec::new();
    let mut k: usize = 0;
    assert(d.len() == rest.len());
    while rest.len() > 0
        invariant
            d.len() <= usize::MAX,
            d.len() == entries@.len(),
            forall|i: int|
                0 <= i < d.len() ==> #[trigger] d[i].name@ == utf7_decoding(entries@[i].0@)
                    && d[i].selectable == !entries@[i].1,
            k + rest@.len() == d.len(),
            rest@ == d.skip(k as int),
            out@.to_multiset() == d.take(k as int).to_multiset(),
            names_sorted(out@),
            forall|t: Seq<char>| #[trigger] named(out@, t) == named(d.take(k as int), t),
        decreases rest@.len(),
    {
        let x = rest.remove(0);
        assert(d.take(k + 1) =~= d.take(k as int).push(x));
        assert(rest@ =~= d.skip(k + 1));
        let xn = chars_of(x.name.as_str());
        let mut p: usize = 0;
        while p < out.len() && lex_le_exec(&chars_of(out[p].name.as_str()), &xn)
            invariant
                p <= out.len(),
                xn@ == x.name@,
                forall|m: int| 0 <= m < p ==> lex_le(#[trigger] out@[m].name@, x.name@),
            decreases out.len() - p,
        {
            p += 1;
        }
        let ghost before = out@;
        proof {
            if p < before.len() {
                lemma_lex_total(before[p as int].name@, x.name@);
            }
        }
        out.insert(p, x);
        proof {
            let ghost pre = before.take(p as int);
            let ghost post = before.skip(p as int);
            assert(before =~= pre + post);
            assert(out@ =~= pre + seq![x] + post);
            assert forall|t: Seq<char>| #[trigger] named(out@, t) == named(d.take(k + 1), t) by {
                lemma_named_concat(pre, seq![x], t);
                lemma_named_concat(pre + seq![x], post, t);
                lemma_named_concat(pre, post, t);
                assert(named(before, t) == named(d.take(k as int), t));
                assert(d.take(k + 1).drop_last() =~= d.take(k as int));
                assert(d.take(k + 1).last() == x);
                assert(seq![x].drop_last() =~= Seq::<FolderInfo>::empty());
                assert(seq![x].last() == x);
                assert(named(Seq::<FolderInfo>::empty(), t) == Seq::<FolderInfo>::empty());
                assert(named(seq![x].drop_last(), t) == Seq::<FolderInfo>::empty());
                if x.name@ == t {
                    assert forall|j: int| 0 <= j < post.len() implies #[trigger] post[j].name@ != t by {
                        assert(post[j] == before[p + j]);
                        if j > 0 {
                            assert(lex_le(before[p as int].name@, before[p + j].name@));
                        } else {
                            lemma_lex_refl(before[p as int].name@);
                        }
                    }
                    lemma_named_none(post, t);
                    assert(named(seq![x], t) =~= seq![x]);
                    assert(named(pre, t) + seq![x] + Seq::<FolderInfo>::empty() =~= named(pre, t).push(x));
                    assert(named(pre, t) + Seq::<FolderInfo>::empty() =~= named(pre, t));
                } else {
                    assert(named(seq![x], t) =~= Seq::<FolderInfo>::empty());
                    assert(named(pre, t) + Seq::<FolderInfo>::empty() =~= named(pre, t));
                }
            }
        }
        assert forall|i: int, j: int| 0 <= i < j < out@.len() implies lex_le(
            out@[i].name@,
            out@[j].name@,
        ) by {
            if j < p {
            } else if j == p {
                assert(lex_le(before[i].name@, x.name@));
            } else if i < p {
                assert(lex_le(before[i].name@, x.name@));
                assert(lex_le(x.name@, before[p as int].name@));
                if p < j - 1 {
                    assert(lex_le(before[p as int].name@, before[j - 1].name@));
                    lemma_lex_trans(x.name@, before[p as int].name@, before[j - 1].name@);
                }
                lemma_lex_trans(before[i].name@, x.name@, before[j - 1].name@);
            } else if i == p {
                assert(lex_le(x.name@, before[p as int].name@));
                if p < j - 1 {
                    assert(lex_le(before[p as int].name@, before[j - 1].name@));
                    lemma_lex_trans(x.name@, before[p as int].name@, before[j - 1].name@);
                }
            } else {
                assert(lex_le(before[i - 1].name@, before[j - 1].name@));
            }
        }
        k += 1;
    }
    assert(d.take(k as int) =~= d);
    assert(out@.to_multiset() == d.to_multiset());
    out
}

/// A character of RFC 3501's modified base64: `A`-`Z`, `a`-`z`, `0`-`9`,
/// `+` and `,` (which stands where base64 has `/`).
pub open spec fn modified_base64_symbol(c: char) -> bool {
    ('A' <= c && c <= 'Z') || ('a' <= c && c <= 'z') || ('0' <= c && c <= '9') || c == '+' || c
        == ','
}

/// A group of modified-base64 symbols of a length that base64 can produce
/// (not one more than a multiple of four), whose last symbol carries no
/// bits beyond the encoded bytes (as every encoder emits), is decoded.
pub proof fn lemma_modified_base64_group_decodes(g: Seq<char>)
    requires
        forall|i: int| 0 <= i < g.len() ==> modified_base64_symbol(#[trigger] g[i]),
        g.len() % 4 != 1,
        g.len() % 4 == 2 ==> b64_value(g.last()) % 16 == 0,
        g.len() % 4 == 3 ==> b64_value(g.last()) % 4 == 0,
    ensures
        group_decodes(g),
{
    if g.len() > 0 {
        assert(modified_base64_symbol(g[g.len() - 1]));
        assert(g.last() != '=');
    }
    assert(trailing_pads(g) == 0);
}

/// A wire name made of one such group between `&` and `-` (the form the
/// encoder gives a run of non-ASCII characters, e.g. `&j,dg0TDhMPww6w-`)
/// is accepted by the decoder.
pub proof fn lemma_encoded_group_name_decodable(g: Seq<char>)
    requires
        g.len() > 0,
        forall|i: int| 0 <= i < g.len() ==> modified_base64_symbol(#[trigger] g[i]),
        g.len() % 4 != 1,
        g.len() % 4 == 2 ==> b64_value(g.last()) % 16 == 0,
        g.len() % 4 == 3 ==> b64_value(g.last()) % 4 == 0,
    ensures
        utf7_decodable(seq!['&'] + g + seq!['-']),
{
    let s = seq!['&'] + g + seq!['-'];
    let j: int = g.len() as int + 1;
    assert(s[0] == '&');
    assert forall|m: int| 1 <= m < j implies s[m] != '-' by {
        assert(s[m] == g[m - 1]);
        assert(modified_base64_symbol(g[m - 1]));
    }
    assert(s[j] == '-');
    lemma_index_at(s, '-', 1, j);
    assert(s.subrange(1, j) =~= g);
    lemma_modified_base64_group_decodes(g);
    assert(s.skip(j + 1) =~= Seq::<char>::empty());
    assert(utf7_decodable(Seq::<char>::empty()));
}

/// The first `c` at or after `from` is at `k` when none comes before it.
proof fn lemma_index_at(s: Seq<char>, c: char, from: int, k: int)
    requires
        0 <= from <= k < s.len(),
        s[k] == c,
        forall|m: int| from <= m < k ==> s[m] != c,
    ensures
        index_from(s, c, from) == Some(k),
    decreases k - from,
{
    if from < k {
        lemma_index_at(s, c, from + 1, k);
    }
}

} // verus!
