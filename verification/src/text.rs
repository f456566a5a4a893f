//! Character-level helpers over `&str`, stated on the string's `Seq<char>` view.

use vstd::prelude::*;

verus! {

broadcast use vstd::string::group_string_axioms;

/// Unicode `White_Space` characters, the set that `char::is_whitespace` tests.
pub open spec fn is_ws(c: char) -> bool {
    ||| c == '\t'
    ||| c == '\n'
    ||| c == '\u{0B}'
    ||| c == '\u{0C}'
    ||| c == '\r'
    ||| c == ' '
    ||| c == '\u{85}'
    ||| c == '\u{A0}'
    ||| c == '\u{1680}'
    ||| ('\u{2000}' <= c && c <= '\u{200A}')
    ||| c == '\u{2028}'
    ||| c == '\u{2029}'
    ||| c == '\u{202F}'
    ||| c == '\u{205F}'
    ||| c == '\u{3000}'
}

/// Whether `c` is a whitespace character.
pub fn is_whitespace(c: char) -> (res: bool)
    ensures
        res == is_ws(c),
{
    c == '\t' || c == '\n' || c == '\u{0B}' || c == '\u{0C}' || c == '\r' || c == ' '
        || c == '\u{85}' || c == '\u{A0}' || c == '\u{1680}' || ('\u{2000}' <= c && c
        <= '\u{200A}') || c == '\u{2028}' || c == '\u{2029}' || c == '\u{202F}' || c
        == '\u{205F}' || c == '\u{3000}'
}

/// The characters of `s`, in order.
pub fn chars_of(s: &str) -> (v: Vec<char>)
    ensures
        v@ == s@,
{
    let mut v: Vec<char> = Vec::new();
    for c in it: s.chars()
        invariant
            it.seq() == s@,
            v@ == it.seq().take(it.index()),
    {
        v.push(c);
    }
    v
}


/// `s` without its leading whitespace.
pub open spec fn trim_start(s: Seq<char>) -> Seq<char>
    decreases s.len(),
{
    if s.len() > 0 && is_ws(s[0]) {
        trim_start(s.drop_first())
    } else {
        s
    }
}

/// `s` without its trailing whitespace.
pub open spec fn trim_end(s: Seq<char>) -> Seq<char>
    decreases s.len(),
{
    if s.len() > 0 && is_ws(s.last()) {
        trim_end(s.drop_last())
    } else {
        s
    }
}

/// `s` without leading and trailing whitespace (what `str::trim` gives).
pub open spec fn trim(s: Seq<char>) -> Seq<char> {
    trim_end(trim_start(s))
}

/// Whether every character of `s` is whitespace.
pub open spec fn all_ws(s: Seq<char>) -> bool {
    forall|i: int| 0 <= i < s.len() ==> is_ws(#[trigger] s[i])
}

proof fn lemma_trim_start_at(s: Seq<char>, k: int)
    requires
        0 <= k <= s.len(),
        forall|i: int| 0 <= i < k ==> is_ws(#[trigger] s[i]),
        k == s.len() || !is_ws(s[k]),
    ensures
        trim_start(s) == s.subrange(k, s.len() as int),
    decreases k,
{
    if k == 0 {
        assert(s.subrange(0, s.len() as int) =~= s);
    } else {
        let t = s.drop_first();
        assert forall|i: int| 0 <= i < k - 1 implies is_ws(#[trigger] t[i]) by {
            assert(t[i] == s[i + 1]);
        }
        lemma_trim_start_at(t, k - 1);
        assert(t.subrange(k - 1, t.len() as int) =~= s.subrange(k, s.len() as int));
    }
}

proof fn lemma_trim_end_at(s: Seq<char>, k: int)
    requires
        0 <= k <= s.len(),
        forall|i: int| k <= i < s.len() ==> is_ws(#[trigger] s[i]),
        k == 0 || !is_ws(s[k - 1]),
    ensures
        trim_end(s) == s.subrange(0, k),
    decreases s.len() - k,
{
    if k == s.len() {
        assert(s.subrange(0, k) =~= s);
    } else {
        let t = s.drop_last();
        assert forall|i: int| k <= i < t.len() implies is_ws(#[trigger] t[i]) by {
            assert(t[i] == s[i]);
        }
        lemma_trim_end_at(t, k);
        assert(t.subrange(0, k) =~= s.subrange(0, k));
    }
}

/// The bounds `(lo, hi)` such that `trim(s)` is `s[lo..hi]`.
pub fn trim_bounds(s: &Vec<char>) -> (r: (usize, usize))
    ensures
        r.0 <= r.1 <= s@.len(),
        trim(s@) == s@.subrange(r.0 as int, r.1 as int),
        all_ws(s@) <==> r.0 == r.1,
{
    let n = s.len();
    let mut lo: usize = 0;
    while lo < n && is_whitespace(s[lo])
        invariant
            n == s@.len(),
            lo <= n,
            forall|i: int| 0 <= i < lo ==> is_ws(#[trigger] s@[i]),
        decreases n - lo,
    {
        lo = lo + 1;
    }
    let mut hi: usize = n;
    while hi > lo && is_whitespace(s[hi - 1])
        invariant
            n == s@.len(),
            lo <= hi <= n,
            forall|i: int| hi <= i < n ==> is_ws(#[trigger] s@[i]),
        decreases hi - lo,
    {
        hi = hi - 1;
    }
    proof {
        lemma_trim_start_at(s@, lo as int);
        let t = s@.subrange(lo as int, n as int);
        assert forall|i: int| hi - lo <= i < t.len() implies is_ws(#[trigger] t[i]) by {
            assert(t[i] == s@[lo + i]);
            if lo == n {
            } else {
                assert(lo + i >= hi);
            }
        }
        if lo < n {
            assert(!is_ws(s@[lo as int]));
        }
        lemma_trim_end_at(t, (hi - lo) as int);
        assert(t.subrange(0, (hi - lo) as int) =~= s@.subrange(lo as int, hi as int));
        if lo == hi {
            assert forall|i: int| 0 <= i < s@.len() implies is_ws(#[trigger] s@[i]) by {
                if i >= lo {
                    assert(i >= hi);
                }
            }
        } else {
            assert(!is_ws(s@[lo as int]));
        }
    }
    (lo, hi)
}


/// The `[start, end)` index ranges of the maximal runs of non-whitespace
/// characters of `s`, left to right: the pieces `str::split_whitespace` yields.
pub open spec fn word_spans(s: Seq<char>) -> Seq<(int, int)>
    decreases s.len(),
{
    if s.len() == 0 {
        seq![]
    } else {
        let n = s.len() - 1;
        let prev = word_spans(s.drop_last());
        if is_ws(s[n]) {
            prev
        } else if n >= 1 && !is_ws(s[n - 1]) {
            prev.update(prev.len() - 1, (prev.last().0, n + 1))
        } else {
            prev.push((n, n + 1))
        }
    }
}

/// The words of `s`: the character runs that `word_spans` delimits.
pub open spec fn words(s: Seq<char>) -> Seq<Seq<char>> {
    word_spans(s).map_values(|sp: (int, int)| s.subrange(sp.0, sp.1))
}

/// Every span is a non-empty in-bounds index range of `s`.
pub open spec fn spans_in_bounds(s: Seq<char>, sp: Seq<(int, int)>) -> bool {
    forall|k: int| 0 <= k < sp.len() ==> 0 <= (#[trigger] sp[k]).0 < sp[k].1 <= s.len()
}

proof fn lemma_word_spans_in_bounds(s: Seq<char>)
    ensures
        spans_in_bounds(s, word_spans(s)),
    decreases s.len(),
{
    if s.len() > 0 {
        let n = s.len() - 1;
        let t = s.drop_last();
        lemma_word_spans_in_bounds(t);
        if !is_ws(s[n]) && n >= 1 && !is_ws(s[n - 1]) {
            assert(t.last() == s[n - 1]);
            lemma_word_spans_last(t);
        }
    }
}

proof fn lemma_word_spans_last(s: Seq<char>)
    requires
        s.len() > 0,
        !is_ws(s.last()),
    ensures
        word_spans(s).len() > 0,
        word_spans(s).last().1 == s.len(),
        word_spans(s).last().0 < s.len(),
    decreases s.len(),
{
    let n = s.len() - 1;
    if n >= 1 && !is_ws(s[n - 1]) {
        let t = s.drop_last();
        assert(t.last() == s[n - 1]);
        lemma_word_spans_last(t);
    }
}

/// Whether a word of `s` starts at `i`: a non-whitespace character at the
/// start of `s` or right after whitespace.
pub open spec fn is_word_start(s: Seq<char>, i: int) -> bool {
    &&& 0 <= i < s.len()
    &&& !is_ws(s[i])
    &&& (i == 0 || is_ws(s[i - 1]))
}

/// The words of `s` start exactly at its word starts: each span begins at a
/// word start, and each word start begins some span.
pub proof fn lemma_word_starts(s: Seq<char>)
    ensures
        forall|k: int|
            0 <= k < word_spans(s).len() ==> is_word_start(s, (#[trigger] word_spans(s)[k]).0),
        forall|i: int|
            is_word_start(s, i) ==> exists|k: int|
                0 <= k < word_spans(s).len() && (#[trigger] word_spans(s)[k]).0 == i,
    decreases s.len(),
{
    if s.len() > 0 {
        let n = s.len() - 1;
        let t = s.drop_last();
        let prev = word_spans(t);
        lemma_word_starts(t);
        lemma_word_spans_in_bounds(t);
        assert forall|i: int| 0 <= i < n implies (is_word_start(s, i) <==> is_word_start(t, i)) by {
            assert(t[i] == s[i]);
            if i > 0 {
                assert(t[i - 1] == s[i - 1]);
            }
        }
        let sp = word_spans(s);
        if is_ws(s[n]) {
            assert(sp == prev);
            assert forall|k: int| 0 <= k < sp.len() implies is_word_start(s, (#[trigger] sp[k]).0) by {
                assert(is_word_start(t, prev[k].0));
            }
            assert forall|i: int| is_word_start(s, i) implies exists|k: int|
                0 <= k < sp.len() && (#[trigger] sp[k]).0 == i by {
                assert(i < n);
                assert(is_word_start(t, i));
            }
        } else if n >= 1 && !is_ws(s[n - 1]) {
            assert(t.last() == s[n - 1]);
            lemma_word_spans_last(t);
            assert(sp == prev.update(prev.len() - 1, (prev.last().0, n + 1)));
            assert forall|k: int| 0 <= k < sp.len() implies is_word_start(s, (#[trigger] sp[k]).0) by {
                assert(sp[k].0 == prev[k].0);
                assert(is_word_start(t, prev[k].0));
            }
            assert forall|i: int| is_word_start(s, i) implies exists|k: int|
                0 <= k < sp.len() && (#[trigger] sp[k]).0 == i by {
                assert(i < n);
                assert(is_word_start(t, i));
                let k = choose|k: int| 0 <= k < prev.len() && (#[trigger] prev[k]).0 == i;
                assert(sp[k].0 == i);
            }
        } else {
            assert(sp == prev.push((n, n + 1)));
            assert forall|k: int| 0 <= k < sp.len() implies is_word_start(s, (#[trigger] sp[k]).0) by {
                if k < prev.len() {
                    assert(sp[k] == prev[k]);
                    assert(is_word_start(t, prev[k].0));
                } else {
                    assert(sp[k].0 == n);
                }
            }
            assert forall|i: int| is_word_start(s, i) implies exists|k: int|
                0 <= k < sp.len() && (#[trigger] sp[k]).0 == i by {
                if i == n {
                    assert(sp[prev.len() as int].0 == n);
                } else {
                    assert(is_word_start(t, i));
                    let k = choose|k: int| 0 <= k < prev.len() && (#[trigger] prev[k]).0 == i;
                    assert(sp[k] == prev[k]);
                }
            }
        }
    }
}

/// Each word of `s` is non-empty and begins with the character at the start
/// of its span.
pub proof fn lemma_word_first_chars(s: Seq<char>)
    ensures
        words(s).len() == word_spans(s).len(),
        forall|k: int|
            0 <= k < words(s).len() ==> (#[trigger] words(s)[k]).len() > 0 && words(s)[k][0]
                == s[word_spans(s)[k].0],
{
    lemma_word_spans_in_bounds(s);
    assert forall|k: int| 0 <= k < words(s).len() implies (#[trigger] words(s)[k]).len() > 0
        && words(s)[k][0] == s[word_spans(s)[k].0] by {
        let sp = word_spans(s)[k];
        assert(words(s)[k] == s.subrange(sp.0, sp.1));
    }
}

pub open spec fn spans_view(v: Seq<(usize, usize)>) -> Seq<(int, int)> {
    v.map_values(|p: (usize, usize)| (p.0 as int, p.1 as int))
}


/// The word spans of `s`, as `str::split_whitespace` delimits them.
pub fn split_spans(s: &Vec<char>) -> (r: Vec<(usize, usize)>)
    ensures
        spans_view(r@) == word_spans(s@),
        spans_in_bounds(s@, word_spans(s@)),
{
    let n = s.len();
    let mut r: Vec<(usize, usize)> = Vec::new();
    let mut i: usize = 0;
    while i < n
        invariant
            n == s@.len(),
            i <= n,
            spans_view(r@) == word_spans(s@.take(i as int)),
            forall|k: int| 0 <= k < r@.len() ==> (#[trigger] r@[k]).1 <= i,
        decreases n - i,
    {
        let ghost t = s@.take(i as int + 1);
        proof {
            assert(t.drop_last() =~= s@.take(i as int));
            assert(t[i as int] == s@[i as int]);
        }
        if !is_whitespace(s[i]) {
            if i >= 1 && !is_whitespace(s[i - 1]) {
                proof {
                    let u = s@.take(i as int);
                    assert(u.last() == s@[i - 1]);
                    lemma_word_spans_last(u);
                    assert(t[i - 1] == s@[i - 1]);
                }
                let last = r.len() - 1;
                let start = r[last].0;
                r.set(last, (start, i + 1));
                proof {
                    assert(spans_view(r@) =~= word_spans(t));
                }
            } else {
                r.push((i, i + 1));
                proof {
                    if i >= 1 {
                        assert(t[i - 1] == s@[i - 1]);
                    }
                    assert(spans_view(r@) =~= word_spans(t));
                }
            }
        }
        i = i + 1;
    }
    proof {
        assert(s@.take(n as int) =~= s@);
        lemma_word_spans_in_bounds(s@);
    }
    r
}


/// Appends `c` to `s`: a call of `String::push`.
#[verifier::external_body]
fn push_char(s: &mut String, c: char)
    ensures
        final(s)@ == old(s)@.push(c),
{
    s.push(c);
}

/// A new `String` holding `s[lo..hi]`.
pub fn string_of(s: &Vec<char>, lo: usize, hi: usize) -> (r: String)
    requires
        lo <= hi <= s@.len(),
    ensures
        r@ == s@.subrange(lo as int, hi as int),
{
    let mut r = String::new();
    let mut i = lo;
    while i < hi
        invariant
            lo <= i <= hi <= s@.len(),
            r@ == s@.subrange(lo as int, i as int),
        decreases hi - i,
    {
        push_char(&mut r, s[i]);
        proof {
            assert(r@ =~= s@.subrange(lo as int, i + 1));
        }
        i = i + 1;
    }
    r
}

/// Whether the characters `s[lo..hi]` are exactly those of `lit`.
pub fn range_is(s: &Vec<char>, lo: usize, hi: usize, lit: &str) -> (r: bool)
    requires
        lo <= hi <= s@.len(),
    ensures
        r == (s@.subrange(lo as int, hi as int) == lit@),
{
    let l = chars_of(lit);
    if hi - lo != l.len() {
        return false;
    }
    let mut i: usize = 0;
    while i < l.len()
        invariant
            lo <= hi <= s@.len(),
            hi - lo == l@.len(),
            l@ == lit@,
            i <= l@.len(),
            forall|j: int| 0 <= j < i ==> s@[lo + j] == #[trigger] l@[j],
        decreases l@.len() - i,
    {
        if s[lo + i] != l[i] {
            assert(s@.subrange(lo as int, hi as int)[i as int] != lit@[i as int]);
            return false;
        }
        i = i + 1;
    }
    assert(s@.subrange(lo as int, hi as int) =~= lit@);
    true
}

/// Whether `s` is exactly `lit`.
pub fn chars_are(s: &Vec<char>, lit: &str) -> (r: bool)
    ensures
        r == (s@ == lit@),
{
    let r = range_is(s, 0, s.len(), lit);
    assert(s@.subrange(0, s@.len() as int) =~= s@);
    r
}

/// The index of the last occurrence of `c` in `s`, if any.
pub open spec fn last_index_of(s: Seq<char>, c: char) -> Option<int>
    decreases s.len(),
{
    if s.len() == 0 {
        None
    } else if s.last() == c {
        Some(s.len() - 1)
    } else {
        last_index_of(s.drop_last(), c)
    }
}

/// Finds the last occurrence of `c` in `s` (what `str::rfind` gives, counted in characters).
pub fn rfind_char(s: &Vec<char>, c: char) -> (r: Option<usize>)
    ensures
        r matches Some(p) ==> last_index_of(s@, c) == Some(p as int),
        r is None ==> last_index_of(s@, c) is None,
        r matches Some(p) ==> p < s@.len() && s@[p as int] == c,
{
    let mut i = s.len();
    assert(s@.take(i as int) =~= s@);
    while i > 0
        invariant
            i <= s@.len(),
            last_index_of(s@, c) == last_index_of(s@.take(i as int), c),
        decreases i,
    {
        let ghost t = s@.take(i as int);
        assert(t.drop_last() =~= s@.take(i - 1));
        if s[i - 1] == c {
            return Some(i - 1);
        }
        i = i - 1;
    }
    None
}

/// The value of a run of ASCII decimal digits.
pub open spec fn digits_value(s: Seq<char>) -> int
    decreases s.len(),
{
    if s.len() == 0 {
        0
    } else {
        digits_value(s.drop_last()) * 10 + (s.last() as int - '0' as int)
    }
}

/// Whether `s` consists of ASCII decimal digits only.
pub open spec fn all_digits(s: Seq<char>) -> bool {
    forall|i: int| 0 <= i < s.len() ==> '0' <= #[trigger] s[i] <= '9'
}

/// What `<u32 as FromStr>::from_str` accepts: an optional `+`, then one or
/// more ASCII digits whose value fits in a `u32`.
pub open spec fn parse_u32(s: Seq<char>) -> Option<u32> {
    let d = if s.len() > 0 && s[0] == '+' {
        s.drop_first()
    } else {
        s
    };
    if d.len() > 0 && all_digits(d) && digits_value(d) <= u32::MAX {
        Some(digits_value(d) as u32)
    } else {
        None
    }
}

proof fn lemma_digits_value_nonneg(s: Seq<char>)
    requires
        all_digits(s),
    ensures
        digits_value(s) >= 0,
    decreases s.len(),
{
    if s.len() > 0 {
        lemma_digits_value_nonneg(s.drop_last());
    }
}

/// Parses `s[lo..hi]` as a `u32` in the way `str::parse::<u32>` does.
pub fn parse_u32_range(s: &Vec<char>, lo: usize, hi: usize) -> (r: Option<u32>)
    requires
        lo <= hi <= s@.len(),
    ensures
        r == parse_u32(s@.subrange(lo as int, hi as int)),
{
    let ghost w = s@.subrange(lo as int, hi as int);
    let mut start = lo;
    if lo < hi && s[lo] == '+' {
        start = lo + 1;
    }
    let ghost d = s@.subrange(start as int, hi as int);
    proof {
        if lo < hi && s@[lo as int] == '+' {
            assert(d =~= w.drop_first());
        } else {
            assert(d =~= w);
        }
    }
    if start == hi {
        return None;
    }
    let bound: u64 = 4294967296;
    let mut value: u64 = 0;
    let mut i = start;
    while i < hi
        invariant
            lo <= start <= i <= hi <= s@.len(),
            d == s@.subrange(start as int, hi as int),
            w == s@.subrange(lo as int, hi as int),
            w.len() > 0 && w[0] == '+' ==> d == w.drop_first(),
            !(w.len() > 0 && w[0] == '+') ==> d == w,
            d.len() > 0,
            bound == 4294967296,
            value <= bound,
            all_digits(s@.subrange(start as int, i as int)),
            value == if digits_value(s@.subrange(start as int, i as int)) < bound {
                digits_value(s@.subrange(start as int, i as int))
            } else {
                bound as int
            },
        decreases hi - i,
    {
        let c = s[i];
        if c < '0' || c > '9' {
            assert(d[i - start] == c);
            assert(!('0' <= d[i - start] <= '9'));
            assert(!all_digits(d));
            return None;
        }
        let ghost p = s@.subrange(start as int, i as int);
        let ghost q = s@.subrange(start as int, i + 1);
        proof {
            assert(q.drop_last() =~= p);
            assert(all_digits(q));
            lemma_digits_value_nonneg(p);
        }
        let digit = (c as u32 - '0' as u32) as u64;
        if value >= bound {
            value = bound;
        } else {
            let next = value * 10 + digit;
            if next >= bound {
                value = bound;
            } else {
                value = next;
            }
        }
        i = i + 1;
    }
    proof {
        assert(s@.subrange(start as int, i as int) =~= d);
        lemma_digits_value_nonneg(d);
    }
    if value >= bound {
        None
    } else {
        Some(value as u32)
    }
}


/// A new vector holding `s[lo..hi]`.
pub fn sub_vec(s: &Vec<char>, lo: usize, hi: usize) -> (r: Vec<char>)
    requires
        lo <= hi <= s@.len(),
    ensures
        r@ == s@.subrange(lo as int, hi as int),
{
    let mut r: Vec<char> = Vec::new();
    let mut i = lo;
    while i < hi
        invariant
            lo <= i <= hi <= s@.len(),
            r@ == s@.subrange(lo as int, i as int),
        decreases hi - i,
    {
        r.push(s[i]);
        proof {
            assert(r@ =~= s@.subrange(lo as int, i + 1));
        }
        i = i + 1;
    }
    r
}

/// Whether `c` occurs in `s`.
pub fn has_char(s: &Vec<char>, c: char) -> (r: bool)
    ensures
        r == s@.contains(c),
{
    let mut i: usize = 0;
    while i < s.len()
        invariant
            i <= s@.len(),
            forall|j: int| 0 <= j < i ==> s@[j] != c,
        decreases s@.len() - i,
    {
        if s[i] == c {
            assert(s@[i as int] == c);
            return true;
        }
        i = i + 1;
    }
    false
}

/// The words of `s`, as `str::split_whitespace` yields them.
pub fn split_words(s: &Vec<char>) -> (r: Vec<String>)
    ensures
        r@.len() == words(s@).len(),
        forall|k: int| 0 <= k < r@.len() ==> (#[trigger] r@[k])@ == words(s@)[k],
        forall|k: int| 0 <= k < r@.len() ==> (#[trigger] r@[k])@.len() > 0,
{
    let spans = split_spans(s);
    let ghost ws = words(s@);
    let mut r: Vec<String> = Vec::new();
    let mut k: usize = 0;
    while k < spans.len()
        invariant
            spans_view(spans@) == word_spans(s@),
            spans_in_bounds(s@, word_spans(s@)),
            ws == words(s@),
            k <= spans@.len(),
            r@.len() == k,
            forall|j: int| 0 <= j < k ==> (#[trigger] r@[j])@ == ws[j],
            forall|j: int| 0 <= j < k ==> (#[trigger] r@[j])@.len() > 0,
        decreases spans@.len() - k,
    {
        let (lo, hi) = spans[k];
        proof {
            assert(word_spans(s@)[k as int] == (lo as int, hi as int));
        }
        let w = string_of(s, lo, hi);
        r.push(w);
        k = k + 1;
    }
    r
}

} // verus!
