//! Character-level text parsing: whitespace, trimming, splitting, lines and
//! unsigned decimal numbers, with the meaning the standard library gives them.
use vstd::prelude::*;
use crate::text::{occurs_at, occurs_at_exec, index_of_from, lemma_index_of_from_bounds, lemma_index_of_from_is, lemma_index_of_from_none};

verus! {

/// Unicode `White_Space`, the set `char::is_whitespace` tests.
pub open spec fn is_ws(c: char) -> bool {
    ||| '\t' <= c <= '\r'
    ||| c == ' '
    ||| c == '\u{85}'
    ||| c == '\u{a0}'
    ||| c == '\u{1680}'
    ||| '\u{2000}' <= c <= '\u{200a}'
    ||| c == '\u{2028}'
    ||| c == '\u{2029}'
    ||| c == '\u{202f}'
    ||| c == '\u{205f}'
    ||| c == '\u{3000}'
}

/// Whether `c` is white space.
pub fn is_whitespace(c: char) -> (r: bool)
    ensures
        r == is_ws(c),
{
    ('\t' <= c && c <= '\r') || c == ' ' || c == '\u{85}' || c == '\u{a0}' || c == '\u{1680}'
        || ('\u{2000}' <= c && c <= '\u{200a}') || c == '\u{2028}' || c == '\u{2029}'
        || c == '\u{202f}' || c == '\u{205f}' || c == '\u{3000}'
}

/// `s` without its leading white space.
pub open spec fn trim_start_spec(s: Seq<char>) -> Seq<char>
    decreases s.len(),
{
    if s.len() > 0 && is_ws(s[0]) { trim_start_spec(s.drop_first()) } else { s }
}

/// `s` without its trailing white space.
pub open spec fn trim_end_spec(s: Seq<char>) -> Seq<char>
    decreases s.len(),
{
    if s.len() > 0 && is_ws(s.last()) { trim_end_spec(s.drop_last()) } else { s }
}

/// `s` without leading and trailing white space, as `str::trim` gives it.
pub open spec fn trim_spec(s: Seq<char>) -> Seq<char> {
    trim_end_spec(trim_start_spec(s))
}

/// `v` without leading and trailing white space.
pub fn trim_chars(v: &Vec<char>) -> (r: Vec<char>)
    ensures
        r@ == trim_spec(v@),
{
    let n = v.len();
    let mut a: usize = 0;
    assert(v@.subrange(0, n as int) =~= v@);
    while a < n && is_whitespace(v[a])
        invariant
            n == v@.len(),
            a <= n,
            trim_start_spec(v@) == trim_start_spec(v@.subrange(a as int, n as int)),
        decreases n - a,
    {
        assert(v@.subrange(a as int, n as int).drop_first() =~= v@.subrange(a + 1, n as int));
        a = a + 1;
    }
    assert(trim_start_spec(v@.subrange(a as int, n as int)) == v@.subrange(a as int, n as int));
    let mut b: usize = n;
    while b > a && is_whitespace(v[b - 1])
        invariant
            n == v@.len(),
            a <= b <= n,
            trim_end_spec(v@.subrange(a as int, n as int)) == trim_end_spec(v@.subrange(a as int, b as int)),
        decreases b - a,
    {
        assert(v@.subrange(a as int, b as int).drop_last() =~= v@.subrange(a as int, b - 1));
        b = b - 1;
    }
    let mut r: Vec<char> = Vec::new();
    let mut i: usize = a;
    while i < b
        invariant
            a <= i <= b <= n,
            n == v@.len(),
            r@ == v@.subrange(a as int, i as int),
        decreases b - i,
    {
        r.push(v[i]);
        i = i + 1;
        assert(r@ =~= v@.subrange(a as int, i as int));
    }
    r
}

/// Whether `s` begins with `p`.
pub open spec fn starts_with_spec(s: Seq<char>, p: Seq<char>) -> bool {
    p.len() <= s.len() && s.subrange(0, p.len() as int) == p
}

/// Whether `s` begins with `p`.
pub fn starts_with_chars(s: &Vec<char>, p: &Vec<char>) -> (r: bool)
    ensures
        r == starts_with_spec(s@, p@),
{
    occurs_at_exec(s, p, 0)
}

/// The elements of `v` from position `a` up to `b`.
pub fn slice_chars(v: &Vec<char>, a: usize, b: usize) -> (r: Vec<char>)
    requires
        a <= b <= v@.len(),
    ensures
        r@ == v@.subrange(a as int, b as int),
{
    let mut r: Vec<char> = Vec::new();
    let mut i: usize = a;
    while i < b
        invariant
            a <= i <= b <= v@.len(),
            r@ == v@.subrange(a as int, i as int),
        decreases b - i,
    {
        r.push(v[i]);
        i = i + 1;
        assert(r@ =~= v@.subrange(a as int, i as int));
    }
    r
}

/// The elements of `v` from position `start` on.
pub fn suffix_from(v: &Vec<char>, start: usize) -> (r: Vec<char>)
    requires
        start <= v@.len(),
    ensures
        r@ == v@.subrange(start as int, v@.len() as int),
{
    let mut r: Vec<char> = Vec::new();
    let mut i: usize = start;
    while i < v.len()
        invariant
            start <= i <= v@.len(),
            r@ == v@.subrange(start as int, i as int),
        decreases v.len() - i,
    {
        r.push(v[i]);
        i = i + 1;
        assert(r@ =~= v@.subrange(start as int, i as int));
    }
    r
}

/// The pieces of `s` between occurrences of `sep`, as `str::split` with a
/// character yields them (always at least one piece).
pub open spec fn split_spec(s: Seq<char>, sep: char) -> Seq<Seq<char>>
    decreases s.len(),
{
    match index_of_from(s, sep, 0) {
        Some(i) => if 0 <= i < s.len() {
            seq![s.subrange(0, i)] + split_spec(s.subrange(i + 1, s.len() as int), sep)
        } else {
            seq![s]
        },
        None => seq![s],
    }
}

/// The deep view of a vector of character vectors.
pub open spec fn views(v: Seq<Vec<char>>) -> Seq<Seq<char>> {
    v.map_values(|x: Vec<char>| x@)
}

proof fn lemma_views_push(v: Seq<Vec<char>>, x: Vec<char>)
    ensures
        views(v.push(x)) == views(v).push(x@),
{
    assert(views(v.push(x)) =~= views(v).push(x@));
}

proof fn lemma_split_step(s: Seq<char>, sep: char, start: int, i: int)
    requires
        0 <= start <= i < s.len(),
        s[i] == sep,
        forall|j: int| start <= j < i ==> s[j] != sep,
    ensures
        split_spec(s.subrange(start, s.len() as int), sep)
            == seq![s.subrange(start, i)] + split_spec(s.subrange(i + 1, s.len() as int), sep),
{
    let t = s.subrange(start, s.len() as int);
    lemma_index_of_from_is(t, sep, 0, i - start);
    assert(t.subrange(0, i - start) =~= s.subrange(start, i));
    assert(t.subrange(i - start + 1, t.len() as int) =~= s.subrange(i + 1, s.len() as int));
}

proof fn lemma_split_last(s: Seq<char>, sep: char, start: int)
    requires
        0 <= start <= s.len(),
        forall|j: int| start <= j < s.len() ==> s[j] != sep,
    ensures
        split_spec(s.subrange(start, s.len() as int), sep) == seq![s.subrange(start, s.len() as int)],
{
    let t = s.subrange(start, s.len() as int);
    lemma_index_of_from_none(t, sep, 0);
}

/// The pieces of `s` between occurrences of `sep`.
pub fn split_chars(s: &Vec<char>, sep: char) -> (r: Vec<Vec<char>>)
    ensures
        views(r@) == split_spec(s@, sep),
{
    let n = s.len();
    let mut pieces: Vec<Vec<char>> = Vec::new();
    let mut cur: Vec<char> = Vec::new();
    let mut start: usize = 0;
    let mut i: usize = 0;
    assert(s@.subrange(0, n as int) =~= s@);
    while i < n
        invariant
            n == s@.len(),
            start <= i <= n,
            cur@ == s@.subrange(start as int, i as int),
            forall|j: int| start <= j < i ==> s@[j] != sep,
            views(pieces@) + split_spec(s@.subrange(start as int, n as int), sep) == split_spec(s@, sep),
        decreases n - i,
    {
        if s[i] == sep {
            proof {
                lemma_split_step(s@, sep, start as int, i as int);
                lemma_views_push(pieces@, cur);
                assert(views(pieces@.push(cur)) + split_spec(s@.subrange(i + 1, n as int), sep)
                    =~= views(pieces@) + split_spec(s@.subrange(start as int, n as int), sep));
            }
            pieces.push(cur);
            cur = Vec::new();
            start = i + 1;
            i = i + 1;
            assert(cur@ =~= s@.subrange(start as int, i as int));
        } else {
            cur.push(s[i]);
            i = i + 1;
            assert(cur@ =~= s@.subrange(start as int, i as int));
        }
    }
    proof {
        lemma_split_last(s@, sep, start as int);
        lemma_views_push(pieces@, cur);
        assert(views(pieces@.push(cur)) =~= views(pieces@) + split_spec(s@.subrange(start as int, n as int), sep));
    }
    pieces.push(cur);
    pieces
}

/// A line with its `\r` before the newline removed.
pub open spec fn strip_cr(line: Seq<char>) -> Seq<char> {
    if line.len() > 0 && line.last() == '\r' { line.drop_last() } else { line }
}

/// The lines of `s`, as `str::lines` yields them: pieces between newlines,
/// a `\r` ending a terminated line dropped, no empty piece after a final newline.
pub open spec fn lines_spec(s: Seq<char>) -> Seq<Seq<char>> {
    let pieces = split_spec(s, '\n');
    let terminated = pieces.drop_last().map_values(|p: Seq<char>| strip_cr(p));
    if pieces.last().len() == 0 { terminated } else { terminated.push(pieces.last()) }
}

pub proof fn lemma_split_nonempty(s: Seq<char>, sep: char)
    ensures
        split_spec(s, sep).len() >= 1,
    decreases s.len(),
{
    match index_of_from(s, sep, 0) {
        Some(i) => if 0 <= i < s.len() {
            lemma_split_nonempty(s.subrange(i + 1, s.len() as int), sep);
        },
        None => {},
    }
}

/// The lines of `s`.
pub fn lines_chars(s: &Vec<char>) -> (r: Vec<Vec<char>>)
    ensures
        views(r@) == lines_spec(s@),
{
    let pieces = split_chars(s, '\n');
    proof {
        lemma_split_nonempty(s@, '\n');
    }
    let m = pieces.len();
    let mut out: Vec<Vec<char>> = Vec::new();
    let mut i: usize = 0;
    while i + 1 < m
        invariant
            m == pieces@.len(),
            m >= 1,
            i < m,
            views(pieces@) == split_spec(s@, '\n'),
            views(out@) == views(pieces@).subrange(0, i as int).map_values(|p: Seq<char>| strip_cr(p)),
        decreases m - i,
    {
        let p = &pieces[i];
        let mut line: Vec<char> = p.clone();
        assert(line@ == p@);
        if line.len() > 0 && line[line.len() - 1] == '\r' {
            line.pop();
        }
        assert(line@ =~= strip_cr(views(pieces@)[i as int]));
        proof {
            lemma_views_push(out@, line);
        }
        out.push(line);
        i = i + 1;
        assert(views(out@) =~= views(pieces@).subrange(0, i as int).map_values(|p: Seq<char>| strip_cr(p)));
    }
    assert(views(pieces@).drop_last() =~= views(pieces@).subrange(0, i as int));
    let last = pieces[m - 1].clone();
    if last.len() == 0 {
        out
    } else {
        proof {
            lemma_views_push(out@, last);
        }
        out.push(last);
        out
    }
}

/// Whether `c` is an ASCII decimal digit.
pub open spec fn is_digit(c: char) -> bool {
    '0' <= c <= '9'
}

/// The number that a sequence of decimal digits spells.
pub open spec fn digits_value(d: Seq<char>) -> nat
    decreases d.len(),
{
    if d.len() == 0 { 0 } else { digits_value(d.drop_last()) * 10 + ((d.last() as nat) - 48) as nat }
}

/// The digits of an unsigned number: `s` without one leading `+`.
pub open spec fn unsigned_digits(s: Seq<char>) -> Seq<char> {
    if s.len() > 0 && s[0] == '+' { s.drop_first() } else { s }
}

/// What parsing `s` as an unsigned integer no larger than `max` gives, as
/// `str::parse` does for the unsigned types: an optional `+`, then at least
/// one decimal digit and nothing else, of a value that fits.
pub open spec fn parse_unsigned_spec(s: Seq<char>, max: nat) -> Option<nat> {
    let d = unsigned_digits(s);
    if d.len() == 0 {
        None
    } else if !(forall|i: int| 0 <= i < d.len() ==> is_digit(d[i])) {
        None
    } else if digits_value(d) > max {
        None
    } else {
        Some(digits_value(d))
    }
}

proof fn lemma_digits_monotone(d: Seq<char>, k: int)
    requires
        0 <= k <= d.len(),
        forall|i: int| 0 <= i < d.len() ==> is_digit(d[i]),
    ensures
        digits_value(d.subrange(0, k)) <= digits_value(d),
    decreases d.len() - k,
{
    if k < d.len() {
        lemma_digits_monotone(d, k + 1);
        assert(d.subrange(0, k + 1).drop_last() =~= d.subrange(0, k));
    } else {
        assert(d.subrange(0, k) =~= d);
    }
}

proof fn lemma_parse_nondigit(s: Seq<char>, max: nat, d: Seq<char>, k: int)
    requires
        d == unsigned_digits(s),
        0 <= k < d.len(),
        !is_digit(d[k]),
    ensures
        parse_unsigned_spec(s, max) is None,
{
}

proof fn lemma_parse_overflow(s: Seq<char>, max: nat, d: Seq<char>, k: int)
    requires
        d == unsigned_digits(s),
        0 <= k <= d.len(),
        digits_value(d.subrange(0, k)) > max,
    ensures
        parse_unsigned_spec(s, max) is None,
{
    if forall|i: int| 0 <= i < d.len() ==> is_digit(d[i]) {
        lemma_digits_monotone(d, k);
    }
}

/// Parse the characters of `v` as an unsigned integer no larger than `max`.
pub fn parse_unsigned(v: &Vec<char>, max: u64) -> (r: Option<u64>)
    requires
        max >= 9,
    ensures
        match r {
            Some(x) => parse_unsigned_spec(v@, max as nat) == Some(x as nat),
            None => parse_unsigned_spec(v@, max as nat) is None,
        },
{
    let n = v.len();
    let start: usize = if n > 0 && v[0] == '+' { 1 } else { 0 };
    let ghost d = unsigned_digits(v@);
    assert(d =~= v@.subrange(start as int, n as int));
    if start == n {
        return None;
    }
    let mut val: u64 = 0;
    let mut i: usize = start;
    while i < n
        invariant
            n == v@.len(),
            start <= i <= n,
            d == v@.subrange(start as int, n as int),
            d == unsigned_digits(v@),
            forall|j: int| start <= j < i ==> is_digit(v@[j]),
            val as nat == digits_value(v@.subrange(start as int, i as int)),
            val <= max,
            max >= 9,
        decreases n - i,
    {
        let c = v[i];
        if !('0' <= c && c <= '9') {
            proof {
                lemma_parse_nondigit(v@, max as nat, d, (i - start) as int);
            }
            return None;
        }
        let digit: u64 = (c as u32 - 48) as u64;
        assert(v@.subrange(start as int, i + 1).drop_last() =~= v@.subrange(start as int, i as int));
        if val > (max - digit) / 10 {
            proof {
                assert(val * 10 + digit > max) by (nonlinear_arith)
                    requires
                        val > (max - digit) / 10,
                        digit <= 9,
                        digit <= max,
                ;
                assert(d.subrange(0, (i + 1 - start) as int) =~= v@.subrange(start as int, i + 1));
                lemma_parse_overflow(v@, max as nat, d, (i + 1 - start) as int);
            }
            return None;
        }
        proof {
            assert(val * 10 + digit <= max) by (nonlinear_arith)
                requires
                    val <= (max - digit) / 10,
                    digit <= max,
            ;
        }
        val = val * 10 + digit;
        i = i + 1;
    }
    assert(v@.subrange(start as int, n as int) =~= d);
    Some(val)
}


/// The length of the leading run of non-white-space characters of `s`.
pub open spec fn word_len(s: Seq<char>) -> nat
    decreases s.len(),
{
    if s.len() == 0 || is_ws(s[0]) { 0 } else { 1 + word_len(s.drop_first()) }
}

/// The white-space separated words of `s`, as `str::split_whitespace` yields them.
pub open spec fn split_ws_spec(s: Seq<char>) -> Seq<Seq<char>>
    decreases s.len(),
{
    let t = trim_start_spec(s);
    if t.len() == 0 {
        Seq::empty()
    } else {
        let w = word_len(t);
        if 0 < w <= t.len() && t.len() <= s.len() {
            seq![t.subrange(0, w as int)] + split_ws_spec(t.subrange(w as int, t.len() as int))
        } else {
            Seq::empty()
        }
    }
}

proof fn lemma_trim_start_suffix(s: Seq<char>)
    ensures
        trim_start_spec(s).len() <= s.len(),
        exists|k: int| 0 <= k <= s.len() && trim_start_spec(s) == s.subrange(k, s.len() as int)
            && forall|j: int| 0 <= j < k ==> is_ws(s[j]),
        trim_start_spec(s).len() > 0 ==> !is_ws(trim_start_spec(s)[0]),
    decreases s.len(),
{
    if s.len() > 0 && is_ws(s[0]) {
        lemma_trim_start_suffix(s.drop_first());
        let k = choose|k: int| 0 <= k <= s.drop_first().len() && trim_start_spec(s.drop_first())
            == s.drop_first().subrange(k, s.drop_first().len() as int)
            && forall|j: int| 0 <= j < k ==> is_ws(s.drop_first()[j]);
        assert(s.drop_first().subrange(k, s.drop_first().len() as int) =~= s.subrange(k + 1, s.len() as int));
        assert forall|j: int| 0 <= j < k + 1 implies is_ws(s[j]) by {
            if j > 0 {
                assert(s[j] == s.drop_first()[j - 1]);
            }
        }
    } else {
        assert(s.subrange(0, s.len() as int) =~= s);
    }
}

proof fn lemma_word_len(s: Seq<char>)
    ensures
        word_len(s) <= s.len(),
        forall|j: int| 0 <= j < word_len(s) ==> !is_ws(s[j]),
        word_len(s) < s.len() ==> is_ws(s[word_len(s) as int]),
    decreases s.len(),
{
    if s.len() > 0 && !is_ws(s[0]) {
        lemma_word_len(s.drop_first());
        assert forall|j: int| 0 <= j < word_len(s) implies !is_ws(s[j]) by {
            if j > 0 {
                assert(s[j] == s.drop_first()[j - 1]);
            }
        }
        if word_len(s) < s.len() {
            assert(s[word_len(s) as int] == s.drop_first()[word_len(s.drop_first()) as int]);
        }
    }
}

proof fn lemma_word_len_exact(s: Seq<char>, w: int)
    requires
        0 <= w <= s.len(),
        forall|j: int| 0 <= j < w ==> !is_ws(s[j]),
        w < s.len() ==> is_ws(s[w]),
    ensures
        word_len(s) == w,
    decreases s.len(),
{
    if w > 0 {
        assert forall|j: int| 0 <= j < w - 1 implies !is_ws(s.drop_first()[j]) by {
            assert(s.drop_first()[j] == s[j + 1]);
        }
        if w - 1 < s.drop_first().len() {
            assert(s.drop_first()[w - 1] == s[w]);
        }
        lemma_word_len_exact(s.drop_first(), w - 1);
    }
}

proof fn lemma_trim_start_exact(s: Seq<char>, k: int)
    requires
        0 <= k <= s.len(),
        forall|j: int| 0 <= j < k ==> is_ws(s[j]),
        k < s.len() ==> !is_ws(s[k]),
    ensures
        trim_start_spec(s) == s.subrange(k, s.len() as int),
    decreases s.len(),
{
    if k > 0 {
        assert forall|j: int| 0 <= j < k - 1 implies is_ws(s.drop_first()[j]) by {
            assert(s.drop_first()[j] == s[j + 1]);
        }
        if k - 1 < s.drop_first().len() {
            assert(s.drop_first()[k - 1] == s[k]);
        }
        lemma_trim_start_exact(s.drop_first(), k - 1);
        assert(s.drop_first().subrange(k - 1, s.drop_first().len() as int) =~= s.subrange(k, s.len() as int));
    } else {
        assert(s.subrange(0, s.len() as int) =~= s);
    }
}

/// The white-space separated words of `v`.
pub fn split_whitespace_chars(v: &Vec<char>) -> (r: Vec<Vec<char>>)
    ensures
        views(r@) == split_ws_spec(v@),
{
    let n = v.len();
    let mut out: Vec<Vec<char>> = Vec::new();
    let mut i: usize = 0;
    assert(v@.subrange(0, n as int) =~= v@);
    while i < n
        invariant
            n == v@.len(),
            i <= n,
            views(out@) + split_ws_spec(v@.subrange(i as int, n as int)) == split_ws_spec(v@),
        decreases n - i,
    {
        let ghost rest = v@.subrange(i as int, n as int);
        let mut a: usize = i;
        while a < n && is_whitespace(v[a])
            invariant
                n == v@.len(),
                i <= a <= n,
                forall|j: int| i <= j < a ==> is_ws(v@[j]),
            decreases n - a,
        {
            a = a + 1;
        }
        proof {
            lemma_trim_start_exact(rest, (a - i) as int);
            assert(rest.subrange((a - i) as int, rest.len() as int) =~= v@.subrange(a as int, n as int));
        }
        if a == n {
            proof {
                assert(v@.subrange(a as int, n as int).len() == 0);
                assert(split_ws_spec(rest) =~= Seq::<Seq<char>>::empty());
                assert(views(out@) + split_ws_spec(v@.subrange(n as int, n as int)) =~= views(out@));
                assert(v@.subrange(n as int, n as int) =~= rest.subrange(rest.len() as int, rest.len() as int));
            }
            i = n;
            proof {
                assert(split_ws_spec(v@.subrange(n as int, n as int)) =~= Seq::<Seq<char>>::empty()) by {
                    assert(trim_start_spec(v@.subrange(n as int, n as int)).len() == 0);
                }
            }
        } else {
            let mut b: usize = a;
            let mut word: Vec<char> = Vec::new();
            while b < n && !is_whitespace(v[b])
                invariant
                    n == v@.len(),
                    a <= b <= n,
                    word@ == v@.subrange(a as int, b as int),
                    forall|j: int| a <= j < b ==> !is_ws(v@[j]),
                decreases n - b,
            {
                word.push(v[b]);
                b = b + 1;
                assert(word@ =~= v@.subrange(a as int, b as int));
            }
            proof {
                let t = v@.subrange(a as int, n as int);
                lemma_word_len_exact(t, (b - a) as int);
                assert(t.subrange(0, (b - a) as int) =~= word@);
                assert(t.subrange((b - a) as int, t.len() as int) =~= v@.subrange(b as int, n as int));
                lemma_views_push(out@, word);
                assert(views(out@.push(word)) + split_ws_spec(v@.subrange(b as int, n as int))
                    =~= views(out@) + split_ws_spec(rest));
            }
            out.push(word);
            i = b;
        }
    }
    out
}

} // verus!
