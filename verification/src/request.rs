//! Request lines: `COMMAND<TAB>query`.

use vstd::prelude::*;

use crate::text::{
    all_ws, chars_of, is_whitespace, is_word_start, lemma_word_first_chars, lemma_word_starts,
    spans_in_bounds, spans_view, split_spans, string_of, word_spans, words,
};

verus! {

/// The index of the first occurrence of `c` in `s`, if any.
pub open spec fn first_index_of(s: Seq<char>, c: char) -> Option<int>
    decreases s.len(),
{
    if s.len() == 0 {
        None
    } else if s[0] == c {
        Some(0)
    } else {
        match first_index_of(s.drop_first(), c) {
            Some(i) => Some(i + 1),
            None => None,
        }
    }
}

/// How many times `c` occurs in `s`.
pub open spec fn count_char(s: Seq<char>, c: char) -> nat
    decreases s.len(),
{
    if s.len() == 0 {
        0
    } else {
        count_char(s.drop_first(), c) + if s[0] == c {
            1nat
        } else {
            0nat
        }
    }
}

/// The command and query of a line split at its first tab, as
/// `line.splitn(2, '\t')` gives them; a line without a tab is all command
/// and has an empty query.
pub open spec fn command_and_query(s: Seq<char>) -> (Seq<char>, Seq<char>) {
    match first_index_of(s, '\t') {
        Some(p) => (s.subrange(0, p), s.subrange(p + 1, s.len() as int)),
        None => (s, Seq::empty()),
    }
}

proof fn lemma_first_index(s: Seq<char>, c: char, i: int)
    requires
        0 <= i <= s.len(),
        forall|j: int| 0 <= j < i ==> s[j] != c,
        i == s.len() || s[i] == c,
    ensures
        i < s.len() ==> first_index_of(s, c) == Some(i),
        i == s.len() ==> first_index_of(s, c) is None,
        count_char(s.subrange(0, i), c) == 0,
    decreases i,
{
    if i > 0 {
        let t = s.drop_first();
        lemma_first_index(t, c, i - 1);
        assert(s.subrange(0, i).drop_first() =~= t.subrange(0, i - 1));
    } else {
        assert(s.subrange(0, 0).len() == 0);
    }
}

proof fn lemma_count_split(s: Seq<char>, c: char, p: int)
    requires
        0 <= p <= s.len(),
    ensures
        count_char(s, c) == count_char(s.subrange(0, p), c) + count_char(
            s.subrange(p, s.len() as int),
            c,
        ),
    decreases p,
{
    if p == 0 {
        assert(s.subrange(0, s.len() as int) =~= s);
    } else {
        let t = s.drop_first();
        lemma_count_split(t, c, p - 1);
        assert(s.subrange(0, p).drop_first() =~= t.subrange(0, p - 1));
        assert(s.subrange(p, s.len() as int) =~= t.subrange(p - 1, t.len() as int));
    }
}

/// Finds the first `c` in `s`.
fn find_char(s: &Vec<char>, c: char) -> (r: Option<usize>)
    ensures
        r matches Some(p) ==> first_index_of(s@, c) == Some(p as int) && p < s@.len() && s@[p as int] == c
            && count_char(s@.subrange(0, p as int), c) == 0,
        r is None ==> first_index_of(s@, c) is None && count_char(s@, c) == 0,
{
    let mut i: usize = 0;
    while i < s.len()
        invariant
            i <= s@.len(),
            forall|j: int| 0 <= j < i ==> s@[j] != c,
        decreases s@.len() - i,
    {
        if s[i] == c {
            proof {
                lemma_first_index(s@, c, i as int);
            }
            return Some(i);
        }
        i = i + 1;
    }
    proof {
        lemma_first_index(s@, c, i as int);
        assert(s@.subrange(0, i as int) =~= s@);
    }
    None
}

/// A request's command and query: the line split at its first tab.
pub struct Request {
    pub command: String,
    pub query: String,
}

/// Splits a line at its first tab (`line.splitn(2, '\t')`); without a tab the
/// whole line is the command and the query is empty.
pub fn split_request(line: &str) -> (r: Request)
    ensures
        (r.command@, r.query@) == command_and_query(line@),
{
    let cs = chars_of(line);
    match find_char(&cs, '\t') {
        Some(p) => {
            let command = string_of(&cs, 0, p);
            let query = string_of(&cs, p + 1, cs.len());
            Request { command, query }
        },
        None => {
            let command = string_of(&cs, 0, cs.len());
            let query = String::new();
            proof {
                assert(cs@.subrange(0, cs@.len() as int) =~= cs@);
            }
            Request { command, query }
        },
    }
}

/// Splits a line into exactly two tab-separated fields, as
/// `line.split("\t")` followed by a check that two fields came out; `None`
/// when the line does not hold exactly one tab.
pub fn split_two_fields(line: &str) -> (r: Option<Request>)
    ensures
        r is Some <==> count_char(line@, '\t') == 1,
        r matches Some(q) ==> (q.command@, q.query@) == command_and_query(line@),
{
    let cs = chars_of(line);
    match find_char(&cs, '\t') {
        Some(p) => {
            let n = cs.len();
            assert(p < n);
            let rest = crate::text::sub_vec(&cs, p + 1, n);
            let more = find_char(&rest, '\t');
            proof {
                lemma_count_split(cs@, '\t', p as int);
                let t = cs@.subrange(p as int, cs@.len() as int);
                assert(t.drop_first() =~= rest@);
                assert(t[0] == '\t');
                if let Some(q) = more {
                    lemma_count_split(rest@, '\t', q as int);
                    let u = rest@.subrange(q as int, rest@.len() as int);
                    assert(u[0] == '\t');
                }
            }
            if more.is_some() {
                None
            } else {
                let command = string_of(&cs, 0, p);
                let query = string_of(&cs, p + 1, cs.len());
                Some(Request { command, query })
            }
        },
        None => None,
    }
}

/// Whether no word of `q` lacks a leading `-`: a query with nothing but
/// negated words, or none at all, has no positive term to rank.
pub open spec fn no_positive_terms(q: Seq<char>) -> bool {
    forall|k: int| 0 <= k < words(q).len() ==> (#[trigger] words(q)[k])[0] == '-'
}

/// Whether every whitespace-separated word of `query` starts with `-`
/// (true of a blank query).
pub fn has_no_positive_terms(query: &str) -> (r: bool)
    ensures
        r == no_positive_terms(query@),
{
    let cs = chars_of(query);
    let spans = split_spans(&cs);
    let mut k: usize = 0;
    while k < spans.len()
        invariant
            cs@ == query@,
            spans_view(spans@) == word_spans(cs@),
            spans_in_bounds(cs@, word_spans(cs@)),
            k <= spans@.len(),
            forall|j: int| 0 <= j < k ==> (#[trigger] words(cs@)[j])[0] == '-',
        decreases spans@.len() - k,
    {
        let (lo, hi) = spans[k];
        proof {
            assert(word_spans(cs@)[k as int] == (lo as int, hi as int));
            assert(words(cs@)[k as int] == cs@.subrange(lo as int, hi as int));
        }
        if cs[lo] != '-' {
            return false;
        }
        k = k + 1;
    }
    true
}

/// Whether a line is blank: `line.trim().is_empty()`.
pub fn is_blank(line: &str) -> (r: bool)
    ensures
        r == all_ws(line@),
{
    let cs = chars_of(line);
    let mut i: usize = 0;
    while i < cs.len()
        invariant
            cs@ == line@,
            i <= cs@.len(),
            forall|j: int| 0 <= j < i ==> crate::text::is_ws(#[trigger] cs@[j]),
        decreases cs@.len() - i,
    {
        if !is_whitespace(cs[i]) {
            return false;
        }
        i = i + 1;
    }
    true
}


proof fn lemma_first_index_of_some(s: Seq<char>, c: char)
    requires
        s.contains(c),
    ensures
        first_index_of(s, c) matches Some(p) && 0 <= p < s.len() && s[p] == c && forall|j: int|
            0 <= j < p ==> s[j] != c,
    decreases s.len(),
{
    if s[0] != c {
        let t = s.drop_first();
        let i = choose|i: int| 0 <= i < s.len() && s[i] == c;
        assert(t[i - 1] == c);
        lemma_first_index_of_some(t, c);
        let p = first_index_of(t, c)->0;
        assert forall|j: int| 0 <= j < p + 1 implies s[j] != c by {
            if j > 0 {
                assert(s[j] == t[j - 1]);
            }
        }
    }
}

/// A line that holds a tab is its command, a tab and its query; the command
/// holds no tab.
pub proof fn request_line_rejoins(line: Seq<char>)
    requires
        line.contains('\t'),
    ensures
        command_and_query(line).0 + seq!['\t'] + command_and_query(line).1 == line,
        !command_and_query(line).0.contains('\t'),
{
    lemma_first_index_of_some(line, '\t');
    let p = first_index_of(line, '\t')->0;
    assert(line.subrange(0, p) + seq!['\t'] + line.subrange(p + 1, line.len() as int) =~= line);
    assert forall|j: int| 0 <= j < p implies line.subrange(0, p)[j] != '\t' by {
        assert(line.subrange(0, p)[j] == line[j]);
    }
}

proof fn lemma_blank_has_no_words(s: Seq<char>)
    requires
        all_ws(s),
    ensures
        word_spans(s).len() == 0,
    decreases s.len(),
{
    if s.len() > 0 {
        let t = s.drop_last();
        assert forall|i: int| 0 <= i < t.len() implies crate::text::is_ws(#[trigger] t[i]) by {
            assert(t[i] == s[i]);
        }
        lemma_blank_has_no_words(t);
        assert(crate::text::is_ws(s[s.len() - 1]));
    }
}

/// A blank query has no words, so no positive term.
pub proof fn blank_query_has_no_positive_terms(q: Seq<char>)
    requires
        all_ws(q),
    ensures
        words(q).len() == 0,
        no_positive_terms(q),
{
    lemma_blank_has_no_words(q);
}


/// A query has no positive term exactly when every one of its words starts
/// with `-`: every non-whitespace character at the start of the query or
/// right after whitespace is a `-`.
pub proof fn negation_only_law(q: Seq<char>)
    ensures
        no_positive_terms(q) <==> (forall|i: int| #[trigger] is_word_start(q, i) ==> q[i] == '-'),
{
    lemma_word_starts(q);
    lemma_word_first_chars(q);
    if no_positive_terms(q) {
        assert forall|i: int| #[trigger] is_word_start(q, i) implies q[i] == '-' by {
            let k = choose|k: int| 0 <= k < word_spans(q).len() && (#[trigger] word_spans(q)[k]).0 == i;
            assert(words(q)[k][0] == '-');
        }
    }
    if forall|i: int| #[trigger] is_word_start(q, i) ==> q[i] == '-' {
        assert forall|k: int| 0 <= k < words(q).len() implies (#[trigger] words(q)[k])[0] == '-' by {
            assert(is_word_start(q, word_spans(q)[k].0));
        }
    }
}

} // verus!
