//! The search query language: `is:unread`, `is:read`, `is:starred`,
//! `from:x`, `to:x`, `subject:x` and free words. It is translated into an
//! IMAP `SEARCH` criterion for live searches and evaluated locally, with
//! AND semantics, against cached metadata.
use vstd::prelude::*;
use crate::model::MessageMeta;
use crate::text::{
    char_views, chars_contain, chars_eq, chars_of, contains_seq, has_prefix, is_space,
    lemma_words_nonempty, push_chars, split_words, starts_with, string_of, suffix_from, words,
};

verus! {

/// Unicode lowercase of a string (`str::to_lowercase`).
pub uninterp spec fn unicode_lower(s: Seq<char>) -> Seq<char>;

/// `str::to_lowercase`: the Unicode lowercase mapping of the string, a
/// function of its characters alone.
#[verifier::external_body]
fn to_lowercase(s: &str) -> (r: String)
    ensures
        r@ == unicode_lower(s@),
{
    s.to_lowercase()
}

// ---------------------------------------------------------------------
// Translation into IMAP SEARCH
// ---------------------------------------------------------------------

/// The IMAP `SEARCH` key of one query token.
pub open spec fn search_key(t: Seq<char>) -> Seq<char> {
    if has_prefix(t, "from:"@) {
        "FROM \""@ + t.skip("from:"@.len() as int) + "\""@
    } else if has_prefix(t, "to:"@) {
        "TO \""@ + t.skip("to:"@.len() as int) + "\""@
    } else if has_prefix(t, "subject:"@) {
        "SUBJECT \""@ + t.skip("subject:"@.len() as int) + "\""@
    } else if t == "is:unread"@ {
        "UNSEEN"@
    } else if t == "is:read"@ {
        "SEEN"@
    } else if t == "is:starred"@ {
        "FLAGGED"@
    } else {
        "TEXT \""@ + t + "\""@
    }
}

/// The keys of the given tokens, joined by single spaces.
pub open spec fn joined_keys(ts: Seq<Seq<char>>) -> Seq<char>
    decreases ts.len(),
{
    if ts.len() == 0 {
        Seq::empty()
    } else if ts.len() == 1 {
        search_key(ts[0])
    } else {
        joined_keys(ts.drop_last()) + " "@ + search_key(ts.last())
    }
}

/// The IMAP `SEARCH` criterion of a query: `ALL` when there is no query or
/// it holds no token.
pub open spec fn criterion(query: Option<Seq<char>>) -> Seq<char> {
    match query {
        None => "ALL"@,
        Some(q) => if words(q).len() == 0 {
            "ALL"@
        } else {
            joined_keys(words(q))
        },
    }
}

/// `open`, `body`, `close`.
fn quoted_into(out: &mut String, open: &str, body: &Vec<char>, close: &str)
    ensures
        final(out)@ == old(out)@ + open@ + body@ + close@,
{
    out.append(open);
    push_chars(out, body);
    out.append(close);
}

/// Appends the IMAP `SEARCH` key of one token.
fn push_search_key(out: &mut String, t: &Vec<char>)
    ensures
        final(out)@ == old(out)@ + search_key(t@),
{
    let from = chars_of("from:");
    let to = chars_of("to:");
    let subject = chars_of("subject:");
    if starts_with(t, &from) {
        quoted_into(out, "FROM \"", &suffix_from(t, from.len()), "\"");
    } else if starts_with(t, &to) {
        quoted_into(out, "TO \"", &suffix_from(t, to.len()), "\"");
    } else if starts_with(t, &subject) {
        quoted_into(out, "SUBJECT \"", &suffix_from(t, subject.len()), "\"");
    } else if chars_eq(t, &chars_of("is:unread")) {
        out.append("UNSEEN");
    } else if chars_eq(t, &chars_of("is:read")) {
        out.append("SEEN");
    } else if chars_eq(t, &chars_of("is:starred")) {
        out.append("FLAGGED");
    } else {
        quoted_into(out, "TEXT \"", t, "\"");
    }
}

/// Translates a query into an IMAP `SEARCH` criterion.
pub fn translate_query(query: Option<&str>) -> (r: String)
    ensures
        r@ == criterion(match query {
            Some(q) => Some(q@),
            None => None,
        }),
{
    let q = match query {
        None => return crate::text::owned("ALL"),
        Some(q) => q,
    };
    let tokens = split_words(q);
    if tokens.len() == 0 {
        return crate::text::owned("ALL");
    }
    let mut r = String::new();
    let mut i: usize = 0;
    while i < tokens.len()
        invariant
            i <= tokens.len(),
            char_views(tokens@) == words(q@),
            r@ == joined_keys(words(q@).take(i as int)),
        decreases tokens.len() - i,
    {
        let ghost before = r@;
        if i > 0 {
            r.append(" ");
        }
        push_search_key(&mut r, &tokens[i]);
        let ghost ws = words(q@);
        assert(ws.take(i + 1).drop_last() =~= ws.take(i as int));
        assert(ws[i as int] == tokens@[i as int]@);
        if i == 0 {
            assert(before =~= Seq::<char>::empty());
            assert(r@ =~= joined_keys(ws.take(1)));
        } else {
            assert(r@ =~= joined_keys(ws.take(i + 1)));
        }
        i += 1;
    }
    assert(words(q@).take(tokens.len() as int) =~= words(q@));
    r
}

// ---------------------------------------------------------------------
// Local evaluation against cached metadata
// ---------------------------------------------------------------------

/// Whether one query token matches a message. Tokens the cache cannot
/// answer (`to:`, `is:starred`) fall back to a subject/sender substring
/// match. Text comparisons ignore case.
pub open spec fn token_matches(m: MessageMeta, t: Seq<char>) -> bool {
    if t == "is:unread"@ {
        m.unread
    } else if t == "is:read"@ {
        !m.unread
    } else if has_prefix(t, "from:"@) {
        contains_seq(unicode_lower(m.from@), unicode_lower(t.skip("from:"@.len() as int)))
    } else if has_prefix(t, "subject:"@) {
        contains_seq(unicode_lower(m.subject@), unicode_lower(t.skip("subject:"@.len() as int)))
    } else {
        contains_seq(unicode_lower(m.subject@), unicode_lower(t)) || contains_seq(
            unicode_lower(m.from@),
            unicode_lower(t),
        )
    }
}

/// Every token matches the message.
pub open spec fn all_tokens_match(m: MessageMeta, ts: Seq<Seq<char>>) -> bool {
    forall|i: int| 0 <= i < ts.len() ==> #[trigger] token_matches(m, ts[i])
}

/// Every token of the query matches the message; no query matches all.
pub open spec fn query_matches(m: MessageMeta, query: Option<Seq<char>>) -> bool {
    match query {
        None => true,
        Some(q) => all_tokens_match(m, words(q)),
    }
}

/// Whether `needle`, lowercased, occurs in `hay`, lowercased.
fn contains_ignoring_case(hay: &String, needle: &Vec<char>) -> (r: bool)
    ensures
        r == contains_seq(unicode_lower(hay@), unicode_lower(needle@)),
{
    let h = chars_of(to_lowercase(hay.as_str()).as_str());
    let n = chars_of(to_lowercase(string_of(needle).as_str()).as_str());
    chars_contain(&h, &n)
}

fn token_matches_exec(m: &MessageMeta, t: &Vec<char>) -> (r: bool)
    ensures
        r == token_matches(*m, t@),
{
    let from = chars_of("from:");
    let subject = chars_of("subject:");
    if chars_eq(t, &chars_of("is:unread")) {
        m.unread
    } else if chars_eq(t, &chars_of("is:read")) {
        !m.unread
    } else if starts_with(t, &from) {
        contains_ignoring_case(&m.from, &suffix_from(t, from.len()))
    } else if starts_with(t, &subject) {
        contains_ignoring_case(&m.subject, &suffix_from(t, subject.len()))
    } else {
        contains_ignoring_case(&m.subject, t) || contains_ignoring_case(&m.from, t)
    }
}

/// Whether a cached message matches the query (all tokens must match).
pub fn cached_match(m: &MessageMeta, query: Option<&str>) -> (r: bool)
    ensures
        r == query_matches(*m, match query {
            Some(q) => Some(q@),
            None => None,
        }),
{
    let q = match query {
        None => return true,
        Some(q) => q,
    };
    let tokens = split_words(q);
    let mut i: usize = 0;
    while i < tokens.len()
        invariant
            i <= tokens.len(),
            char_views(tokens@) == words(q@),
            query == Some(q),
            forall|k: int| 0 <= k < i ==> #[trigger] token_matches(*m, words(q@)[k]),
        decreases tokens.len() - i,
    {
        assert(words(q@)[i as int] == tokens@[i as int]@);
        if !token_matches_exec(m, &tokens[i]) {
            assert(!token_matches(*m, words(q@)[i as int]));
            assert(!all_tokens_match(*m, words(q@)));
            return false;
        }
        i += 1;
    }
    assert(all_tokens_match(*m, words(q@)));
    true
}

/// The messages matching the query, in the order given.
pub open spec fn matching(ms: Seq<MessageMeta>, query: Option<Seq<char>>) -> Seq<MessageMeta>
    decreases ms.len(),
{
    if ms.len() == 0 {
        ms
    } else if query_matches(ms.last(), query) {
        matching(ms.drop_last(), query).push(ms.last())
    } else {
        matching(ms.drop_last(), query)
    }
}

/// The first `limit` cached messages that match the query.
pub fn filter_cached(messages: Vec<MessageMeta>, query: Option<&str>, limit: usize) -> (r: Vec<
    MessageMeta,
>)
    ensures
        ({
            let all = matching(messages@, match query {
                Some(q) => Some(q@),
                None => None,
            });
            r@ == all.take(if limit < all.len() {
                limit as int
            } else {
                all.len() as int
            })
        }),
{
    let ghost q = match query {
        Some(q) => Some(q@),
        None => None,
    };
    let ghost orig = messages@;
    let mut rest = messages;
    let mut kept: Vec<MessageMeta> = Vec::new();
    let mut k: usize = 0;
    assert(orig.len() == rest.len());
    while rest.len() > 0
        invariant
            orig.len() <= usize::MAX,
            k + rest@.len() == orig.len(),
            rest@ == orig.skip(k as int),
            kept@ == matching(orig.take(k as int), q),
            q == match query {
                Some(q) => Some(q@),
                None => None::<Seq<char>>,
            },
        decreases rest@.len(),
    {
        let m = rest.remove(0);
        assert(orig.take(k + 1).drop_last() =~= orig.take(k as int));
        assert(orig.take(k + 1).last() == m);
        assert(rest@ =~= orig.skip(k + 1));
        if cached_match(&m, query) {
            kept.push(m);
        }
        k += 1;
    }
    assert(orig.take(k as int) =~= orig);
    let ghost all = kept@;
    if kept.len() > limit {
        kept.truncate(limit);
    }
    assert(kept@ =~= all.take(if limit < all.len() {
        limit as int
    } else {
        all.len() as int
    }));
    kept
}

// ---------------------------------------------------------------------
// Laws
// ---------------------------------------------------------------------

/// The words of `a`, a space, then `b` are the words of `a` followed by the
/// words of `b`.
pub proof fn lemma_words_concat(a: Seq<char>, b: Seq<char>)
    ensures
        words(a.push(' ') + b) == words(a) + words(b),
    decreases b.len(),
{
    let s = a.push(' ') + b;
    if b.len() == 0 {
        assert(s =~= a.push(' '));
        assert(s.drop_last() =~= a);
        assert(words(b) =~= Seq::<Seq<char>>::empty());
        assert(words(a) + words(b) =~= words(a));
    } else {
        let b0 = b.drop_last();
        lemma_words_concat(a, b0);
        assert(s.drop_last() =~= a.push(' ') + b0);
        let c = b.last();
        assert(s.last() == c);
        let prev = words(a) + words(b0);
        if is_space(c) {
        } else if b.len() == 1 {
            assert(s[s.len() - 2] == ' ');
            assert(words(b) == words(b0).push(seq![c]));
            assert(prev.push(seq![c]) =~= words(a) + words(b0).push(seq![c]));
        } else if is_space(b[b.len() - 2]) {
            assert(s[s.len() - 2] == b[b.len() - 2]);
            assert(prev.push(seq![c]) =~= words(a) + words(b0).push(seq![c]));
        } else {
            assert(s[s.len() - 2] == b[b.len() - 2]);
            assert(b0.last() == b[b.len() - 2]);
            lemma_words_nonempty(b0);
            let wb = words(b0);
            assert(prev.update(prev.len() - 1, prev.last().push(c)) =~= words(a) + wb.update(
                wb.len() - 1,
                wb.last().push(c),
            ));
        }
    }
}

/// AND semantics: a query made of two parts separated by a space matches
/// exactly the messages that both parts match.
pub proof fn lemma_query_and(m: MessageMeta, a: Seq<char>, b: Seq<char>)
    ensures
        query_matches(m, Some(a.push(' ') + b)) == (query_matches(m, Some(a)) && query_matches(
            m,
            Some(b),
        )),
{
    lemma_words_concat(a, b);
    let q = a.push(' ') + b;
    let wa = words(a);
    let wb = words(b);
    let w = words(q);
    assert(w == wa + wb);
    if query_matches(m, Some(a)) && query_matches(m, Some(b)) {
        assert forall|i: int| 0 <= i < w.len() implies #[trigger] token_matches(m, w[i]) by {
            if i < wa.len() {
                assert(w[i] == wa[i]);
            } else {
                assert(w[i] == wb[i - wa.len()]);
            }
        }
    }
    if query_matches(m, Some(q)) {
        let all_w = forall|k: int| 0 <= k < w.len() ==> #[trigger] token_matches(m, w[k]);
        assert(all_w);
        assert forall|i: int| 0 <= i < wa.len() implies #[trigger] token_matches(m, wa[i]) by {
            assert(w[i] == wa[i]);
        }
        assert forall|i: int| 0 <= i < wb.len() implies #[trigger] token_matches(m, wb[i]) by {
            assert(w[i + wa.len()] == wb[i]);
        }
    }
}

/// Without a query, or with a query of only whitespace, a live search
/// lists everything.
pub proof fn lemma_empty_query_lists_all(q: Seq<char>)
    requires
        forall|i: int| 0 <= i < q.len() ==> is_space(#[trigger] q[i]),
    ensures
        criterion(Some(q)) == "ALL"@,
        criterion(None) == "ALL"@,
    decreases q.len(),
{
    if q.len() > 0 {
        lemma_empty_query_lists_all(q.drop_last());
    }
}

/// A non-empty run of non-space characters is one word.
proof fn lemma_single_word(t: Seq<char>)
    requires
        t.len() > 0,
        forall|i: int| 0 <= i < t.len() ==> !is_space(#[trigger] t[i]),
    ensures
        words(t) == seq![t],
    decreases t.len(),
{
    if t.len() == 1 {
        assert(t.drop_last() =~= Seq::<char>::empty());
        assert(words(t.drop_last()) =~= Seq::<Seq<char>>::empty());
        assert(seq![t.last()] =~= t);
    } else {
        let d = t.drop_last();
        assert forall|i: int| 0 <= i < d.len() implies !is_space(#[trigger] d[i]) by {
            assert(d[i] == t[i]);
        }
        lemma_single_word(d);
        assert(!is_space(t[t.len() - 2]));
        assert(!is_space(t.last()));
        assert(d.push(t.last()) =~= t);
    }
}

/// Offline matching of a free word (one token that is neither `is:unread`
/// nor `is:read` and has no `from:` or `subject:` prefix): the message
/// matches exactly when the word, ignoring case, occurs in its subject or
/// in its sender.
pub proof fn lemma_free_word_matches_subject_or_sender(m: MessageMeta, t: Seq<char>)
    requires
        t.len() > 0,
        forall|i: int| 0 <= i < t.len() ==> !is_space(#[trigger] t[i]),
        t != "is:unread"@,
        t != "is:read"@,
        !has_prefix(t, "from:"@),
        !has_prefix(t, "subject:"@),
    ensures
        query_matches(m, Some(t)) == (contains_seq(unicode_lower(m.subject@), unicode_lower(t))
            || contains_seq(unicode_lower(m.from@), unicode_lower(t))),
{
    lemma_single_word(t);
    let w = words(t);
    assert(w[0] == t);
    if query_matches(m, Some(t)) {
        assert(token_matches(m, w[0]));
    }
}

/// Offline matching of `from:x`: the message matches exactly when `x`,
/// ignoring case, occurs in its sender.
pub proof fn lemma_from_token_matches_sender(m: MessageMeta, t: Seq<char>)
    requires
        t.len() > 0,
        forall|i: int| 0 <= i < t.len() ==> !is_space(#[trigger] t[i]),
        has_prefix(t, "from:"@),
    ensures
        query_matches(m, Some(t)) == contains_seq(
            unicode_lower(m.from@),
            unicode_lower(t.skip(5)),
        ),
{
    reveal_strlit("from:");
    reveal_strlit("is:unread");
    reveal_strlit("is:read");
    lemma_single_word(t);
    let w = words(t);
    assert(w[0] == t);
    assert(t.take(5) == "from:"@);
    assert(t.take(5)[0] == t[0]);
    assert(t[0] == 'f');
    assert(t != "is:unread"@ && t != "is:read"@) by {
        assert("is:unread"@[0] == 'i');
        assert("is:read"@[0] == 'i');
    }
    if query_matches(m, Some(t)) {
        assert(token_matches(m, w[0]));
    }
}

} // verus!
