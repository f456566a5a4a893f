//! Wildcard phrase queries: `"a* b"~3` becomes a regex phrase query with slop 3.

use vstd::prelude::*;

use tantivy::query::RegexPhraseQuery;
use tantivy::schema::Field;

use crate::text::{
    all_digits, chars_of, digits_value, is_ws, last_index_of, parse_u32, parse_u32_range,
    rfind_char, split_words, sub_vec, trim, trim_bounds, trim_end, trim_start, words,
};

verus! {

/// A field of a tantivy index schema.
#[verifier::external_type_specification]
#[verifier::external_body]
pub struct ExField(Field);

/// A tantivy phrase query whose terms are regular expressions.
#[verifier::external_type_specification]
#[verifier::external_body]
pub struct ExRegexPhraseQuery(RegexPhraseQuery);

/// How many term expansions a wildcard phrase query may make in all.
pub const MAX_EXPANSIONS: u32 = 1_000_000;

/// The query text and slop of `q`: a trailing `~N` whose `N` parses as a
/// `u32` (after trimming) is removed and becomes the slop, and the text
/// before it is trimmed; otherwise the text is `q` and the slop 0.
pub open spec fn slop_split(q: Seq<char>) -> (Seq<char>, u32) {
    match last_index_of(q, '~') {
        Some(p) => match parse_u32(trim(q.subrange(p + 1, q.len() as int))) {
            Some(v) => (trim(q.subrange(0, p)), v),
            None => (q, 0u32),
        },
        None => (q, 0u32),
    }
}

/// `q` without one leading `"` and then without one trailing `"`.
pub open spec fn strip_quotes(q: Seq<char>) -> Seq<char> {
    let a = if q.len() > 0 && q[0] == '"' {
        q.drop_first()
    } else {
        q
    };
    if a.len() > 0 && a.last() == '"' {
        a.drop_last()
    } else {
        a
    }
}

/// The phrase's words, before wildcard translation.
pub open spec fn phrase_words(q: Seq<char>) -> Seq<Seq<char>> {
    words(strip_quotes(slop_split(q).0))
}

/// The phrase's slop.
pub open spec fn phrase_slop(q: Seq<char>) -> u32 {
    slop_split(q).1
}

/// The characters that `regex_syntax::is_meta_character` accepts.
pub open spec fn is_regex_meta(c: char) -> bool {
    ||| c == '\\'
    ||| c == '.'
    ||| c == '+'
    ||| c == '*'
    ||| c == '?'
    ||| c == '('
    ||| c == ')'
    ||| c == '|'
    ||| c == '['
    ||| c == ']'
    ||| c == '{'
    ||| c == '}'
    ||| c == '^'
    ||| c == '$'
    ||| c == '#'
    ||| c == '&'
    ||| c == '-'
    ||| c == '~'
}

/// The regex for a wildcard term: each `*` becomes `.*`, every other regex
/// meta character is escaped with `\`, and the remaining characters stay.
pub open spec fn wildcard_regex(s: Seq<char>) -> Seq<char>
    decreases s.len(),
{
    if s.len() == 0 {
        seq![]
    } else {
        let c = s.last();
        wildcard_regex(s.drop_last()) + if c == '*' {
            seq!['.', '*']
        } else if is_regex_meta(c) {
            seq!['\\', c]
        } else {
            seq![c]
        }
    }
}

/// `tantivy::query::wildcard_query_to_regex_str`. Its source is
/// `regex::escape(term).replace(r"\*", ".*")`: `regex::escape` puts a `\`
/// before each character that `regex_syntax::is_meta_character` accepts, and
/// the only `\*` pairs in that output are the escaped stars. The contract
/// states that per-character result.
#[verifier::external_body]
fn wildcard_query_to_regex_str(term: &str) -> (r: String)
    ensures
        r@ == wildcard_regex(term@),
{
    tantivy::query::wildcard_query_to_regex_str(term)
}

/// The words and slop of a wildcard phrase query string.
pub struct PhraseParts {
    pub words: Vec<String>,
    pub slop: u32,
}

/// Splits a wildcard phrase query such as `"a* b"~3` into its words and slop.
pub fn parse_phrase(query: &str) -> (r: PhraseParts)
    ensures
        r.slop == phrase_slop(query@),
        r.words@.len() == phrase_words(query@).len(),
        forall|k: int|
            0 <= k < r.words@.len() ==> (#[trigger] r.words@[k])@ == phrase_words(query@)[k],
{
    let cs = chars_of(query);
    let n = cs.len();
    let mut lo: usize = 0;
    let mut hi: usize = n;
    let mut slop: u32 = 0;
    if let Some(p) = rfind_char(&cs, '~') {
        let tail = sub_vec(&cs, p + 1, n);
        let (a, b) = trim_bounds(&tail);
        if let Some(v) = parse_u32_range(&tail, a, b) {
            let head = sub_vec(&cs, 0, p);
            let (c, d) = trim_bounds(&head);
            slop = v;
            lo = c;
            hi = d;
            proof {
                assert(head@.subrange(c as int, d as int) =~= cs@.subrange(c as int, d as int));
            }
        }
    }
    proof {
        assert(cs@.subrange(0, n as int) =~= cs@);
        assert(slop_split(query@).0 == cs@.subrange(lo as int, hi as int));
    }
    let ghost body = cs@.subrange(lo as int, hi as int);
    if lo < hi && cs[lo] == '"' {
        lo = lo + 1;
        proof {
            assert(body.drop_first() =~= cs@.subrange(lo as int, hi as int));
        }
    }
    let ghost body2 = cs@.subrange(lo as int, hi as int);
    if lo < hi && cs[hi - 1] == '"' {
        hi = hi - 1;
        proof {
            assert(body2.drop_last() =~= cs@.subrange(lo as int, hi as int));
        }
    }
    proof {
        assert(strip_quotes(slop_split(query@).0) == cs@.subrange(lo as int, hi as int));
    }
    let text = sub_vec(&cs, lo, hi);
    let words = split_words(&text);
    PhraseParts { words, slop }
}

/// The regexes of the given wildcard words, in order.
pub fn regex_terms(words: &Vec<String>) -> (r: Vec<String>)
    ensures
        r@.len() == words@.len(),
        forall|k: int| 0 <= k < r@.len() ==> (#[trigger] r@[k])@ == wildcard_regex(words@[k]@),
{
    let mut r: Vec<String> = Vec::new();
    let mut k: usize = 0;
    while k < words.len()
        invariant
            k <= words@.len(),
            r@.len() == k,
            forall|j: int| 0 <= j < k ==> (#[trigger] r@[j])@ == wildcard_regex(words@[j]@),
        decreases words@.len() - k,
    {
        let t = wildcard_query_to_regex_str(words[k].as_str());
        r.push(t);
        k = k + 1;
    }
    r
}

/// What a wildcard phrase query is made of: the regexes of its words in
/// order, its slop, and how many term expansions it may make in all.
pub struct PhraseQueryParts {
    pub terms: Vec<String>,
    pub slop: u32,
    pub max_expansions: u32,
}

/// `p` is what the wildcard query string `q` makes: the regexes of its words,
/// its slop, and `MAX_EXPANSIONS`.
pub open spec fn parts_of(p: PhraseQueryParts, q: Seq<char>) -> bool {
    &&& p.slop == phrase_slop(q)
    &&& p.max_expansions == MAX_EXPANSIONS
    &&& p.terms@.len() == phrase_words(q).len()
    &&& forall|k: int|
        0 <= k < p.terms@.len() ==> (#[trigger] p.terms@[k])@ == wildcard_regex(phrase_words(q)[k])
}

/// The parts of the phrase query for a wildcard query string; `None` when
/// the phrase has fewer than two words, which tantivy refuses.
pub fn regex_phrase_parts(query: &str) -> (r: Option<PhraseQueryParts>)
    ensures
        r is None <==> phrase_words(query@).len() < 2,
        r matches Some(p) ==> parts_of(p, query@),
{
    let parts = parse_phrase(query);
    if parts.words.len() < 2 {
        return None;
    }
    let terms = regex_terms(&parts.words);
    Some(PhraseQueryParts { terms, slop: parts.slop, max_expansions: MAX_EXPANSIONS })
}

/// A tantivy regex phrase query, with the field and parts it was built from.
pub struct RegexPhrase {
    field: Field,
    parts: PhraseQueryParts,
    query: RegexPhraseQuery,
}

impl RegexPhrase {
    /// The field the query targets.
    pub closed spec fn field_spec(&self) -> Field {
        self.field
    }

    /// The terms, slop and expansion limit the query holds.
    pub closed spec fn parts_spec(&self) -> PhraseQueryParts {
        self.parts
    }

    /// The field the query targets.
    pub fn field(&self) -> (r: Field)
        ensures
            r == self.field_spec(),
    {
        self.field
    }

    /// The terms, slop and expansion limit the query holds.
    pub fn parts(&self) -> (r: &PhraseQueryParts)
        ensures
            *r == self.parts_spec(),
    {
        &self.parts
    }

    /// The tantivy query.
    pub fn query(&self) -> &RegexPhraseQuery {
        &self.query
    }

    /// The tantivy query, given up.
    pub fn into_query(self) -> RegexPhraseQuery {
        self.query
    }
}

/// Builds the tantivy query from its parts: `RegexPhraseQuery::new(field,
/// terms)` (which asserts that there are at least two terms), then
/// `set_max_expansions` and `set_slop`. tantivy's source stores the field,
/// the terms in order (at offsets 0, 1, ...), the expansion limit and the slop
/// exactly as given, so the query holds `field` and `parts`; the contract
/// states that the result carries them.
#[verifier::external_body]
fn build_regex_phrase(field: Field, parts: PhraseQueryParts) -> (r: RegexPhrase)
    requires
        parts.terms@.len() > 1,
    ensures
        r.field_spec() == field,
        r.parts_spec() == parts,
{
    let mut query = RegexPhraseQuery::new(field, parts.terms.clone());
    query.set_max_expansions(parts.max_expansions);
    query.set_slop(parts.slop);
    RegexPhrase { field, parts, query }
}

/// Builds the regex phrase query for a wildcard query string: its words,
/// translated by `wildcard_query_to_regex_str`, with the parsed slop and
/// `MAX_EXPANSIONS`, on `field`. `None` when the phrase has fewer than two
/// words, which tantivy refuses.
pub fn regex_phrase_query(query: &str, field: Field) -> (r: Option<RegexPhrase>)
    ensures
        r is None <==> phrase_words(query@).len() < 2,
        r matches Some(q) ==> q.field_spec() == field && parts_of(q.parts_spec(), query@),
{
    match regex_phrase_parts(query) {
        Some(parts) => Some(build_regex_phrase(field, parts)),
        None => None,
    }
}

proof fn lemma_last_index_absent(s: Seq<char>, c: char)
    requires
        !s.contains(c),
    ensures
        last_index_of(s, c) is None,
    decreases s.len(),
{
    if s.len() > 0 {
        assert(s[s.len() - 1] == s.last());
        assert(!s.drop_last().contains(c)) by {
            if s.drop_last().contains(c) {
                let i = choose|i: int| 0 <= i < s.drop_last().len() && s.drop_last()[i] == c;
                assert(s[i] == c);
            }
        }
        lemma_last_index_absent(s.drop_last(), c);
    }
}

proof fn lemma_last_index_before_digits(q: Seq<char>, d: Seq<char>)
    requires
        all_digits(d),
    ensures
        last_index_of(q + seq!['~'] + d, '~') == Some(q.len() as int),
    decreases d.len(),
{
    let s = q + seq!['~'] + d;
    if d.len() == 0 {
        assert(s.last() == '~');
    } else {
        assert(s.last() == d.last());
        assert(d[d.len() - 1] == d.last());
        assert(s.drop_last() =~= q + seq!['~'] + d.drop_last());
        assert(all_digits(d.drop_last())) by {
            assert forall|i: int| 0 <= i < d.drop_last().len() implies '0' <= #[trigger] d.drop_last()[i] <= '9' by {
                assert(d.drop_last()[i] == d[i]);
            }
        }
        lemma_last_index_before_digits(q, d.drop_last());
    }
}

proof fn lemma_trim_start_keeps(s: Seq<char>, c: char)
    requires
        !s.contains(c),
    ensures
        !trim_start(s).contains(c),
    decreases s.len(),
{
    if s.len() > 0 && is_ws(s[0]) {
        let t = s.drop_first();
        assert(!t.contains(c)) by {
            if t.contains(c) {
                let i = choose|i: int| 0 <= i < t.len() && t[i] == c;
                assert(s[i + 1] == c);
            }
        }
        lemma_trim_start_keeps(t, c);
    }
}

proof fn lemma_trim_end_keeps(s: Seq<char>, c: char)
    requires
        !s.contains(c),
    ensures
        !trim_end(s).contains(c),
    decreases s.len(),
{
    if s.len() > 0 && is_ws(s.last()) {
        let t = s.drop_last();
        assert(!t.contains(c)) by {
            if t.contains(c) {
                let i = choose|i: int| 0 <= i < t.len() && t[i] == c;
                assert(s[i] == c);
            }
        }
        lemma_trim_end_keeps(t, c);
    }
}

proof fn lemma_trim_digits(d: Seq<char>)
    requires
        all_digits(d),
    ensures
        trim(d) == d,
{
    if d.len() > 0 {
        assert('0' <= d[0] <= '9');
        assert(d[d.len() - 1] == d.last());
        assert('0' <= d[d.len() - 1] <= '9');
    }
}

/// A wildcard query string ending in `~N` (N a decimal number that fits in
/// a `u32`, its prefix holding no `~`) has slop N and the same words as its
/// trimmed prefix, which on its own has slop 0; so the phrase queries built
/// from the two hold the same terms and expansion limit, and differ only in
/// their slop.
pub proof fn slop_suffix_law(q: Seq<char>, d: Seq<char>)
    requires
        !q.contains('~'),
        d.len() > 0,
        all_digits(d),
        digits_value(d) <= u32::MAX,
    ensures
        phrase_words(q + seq!['~'] + d) == phrase_words(trim(q)),
        phrase_slop(q + seq!['~'] + d) == digits_value(d) as u32,
        phrase_slop(trim(q)) == 0,
        forall|p1: PhraseQueryParts, p2: PhraseQueryParts|
            parts_of(p1, q + seq!['~'] + d) && parts_of(p2, trim(q)) ==> {
                &&& p1.terms@.len() == p2.terms@.len()
                &&& forall|k: int| 0 <= k < p1.terms@.len() ==> (#[trigger] p1.terms@[k])@ == p2.terms@[k]@
                &&& p1.slop == digits_value(d) as u32
                &&& p2.slop == 0
                &&& p1.max_expansions == p2.max_expansions
            },
{
    let s = q + seq!['~'] + d;
    let p = q.len() as int;
    lemma_last_index_before_digits(q, d);
    assert(s.subrange(p + 1, s.len() as int) =~= d);
    assert(s.subrange(0, p) =~= q);
    lemma_trim_digits(d);
    assert('0' <= d[0] <= '9');
    assert(parse_u32(d) == Some(digits_value(d) as u32));
    lemma_trim_start_keeps(q, '~');
    lemma_trim_end_keeps(trim_start(q), '~');
    lemma_last_index_absent(trim(q), '~');
}

} // verus!
