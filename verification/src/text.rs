//! Character-level text model: whitespace, trimming, line splitting,
//! whitespace tokenisation and substring search, over `Seq<char>`,
//! with executable counterparts that work on index ranges of a `Vec<char>`.
use vstd::prelude::*;

verus! {

broadcast use vstd::string::group_string_axioms;

/// Unicode `White_Space`, the set that `char::is_whitespace` recognises.
pub open spec fn is_ws(c: char) -> bool {
    ||| ('\u{9}' <= c && c <= '\u{d}')
    ||| c == ' '
    ||| c == '\u{85}'
    ||| c == '\u{a0}'
    ||| c == '\u{1680}'
    ||| ('\u{2000}' <= c && c <= '\u{200a}')
    ||| c == '\u{2028}'
    ||| c == '\u{2029}'
    ||| c == '\u{202f}'
    ||| c == '\u{205f}'
    ||| c == '\u{3000}'
}

pub fn is_whitespace_char(c: char) -> (r: bool)
    ensures
        r == is_ws(c),
{
    ('\u{9}' <= c && c <= '\u{d}') || c == ' ' || c == '\u{85}' || c == '\u{a0}' || c
        == '\u{1680}' || ('\u{2000}' <= c && c <= '\u{200a}') || c == '\u{2028}' || c
        == '\u{2029}' || c == '\u{202f}' || c == '\u{205f}' || c == '\u{3000}'
}

/// The classes of characters over which runs are measured.
#[derive(Clone, Copy, PartialEq, Eq, Structural)]
pub enum CharClass {
    Whitespace,
    NotWhitespace,
    NotNewline,
    PathSeparator,
    NotPathSeparator,
    NotExponentMark,
}

pub open spec fn in_class(c: char, cls: CharClass) -> bool {
    match cls {
        CharClass::Whitespace => is_ws(c),
        CharClass::NotWhitespace => !is_ws(c),
        CharClass::NotNewline => c != '\n',
        CharClass::PathSeparator => c == '/' || c == '\\',
        CharClass::NotPathSeparator => !(c == '/' || c == '\\'),
        CharClass::NotExponentMark => !(c == 'e' || c == 'E'),
    }
}

fn char_in_class(c: char, cls: CharClass) -> (r: bool)
    ensures
        r == in_class(c, cls),
{
    match cls {
        CharClass::Whitespace => is_whitespace_char(c),
        CharClass::NotWhitespace => !is_whitespace_char(c),
        CharClass::NotNewline => c != '\n',
        CharClass::PathSeparator => c == '/' || c == '\\',
        CharClass::NotPathSeparator => !(c == '/' || c == '\\'),
        CharClass::NotExponentMark => !(c == 'e' || c == 'E'),
    }
}

/// Length of the longest prefix of `s` whose characters are all in `cls`.
pub open spec fn span(s: Seq<char>, cls: CharClass) -> nat
    decreases s.len(),
{
    if s.len() > 0 && in_class(s[0], cls) {
        1 + span(s.drop_first(), cls)
    } else {
        0
    }
}

/// Length of the longest suffix of `s` whose characters are all in `cls`.
pub open spec fn rspan(s: Seq<char>, cls: CharClass) -> nat
    decreases s.len(),
{
    if s.len() > 0 && in_class(s.last(), cls) {
        1 + rspan(s.drop_last(), cls)
    } else {
        0
    }
}

pub proof fn lemma_span(s: Seq<char>, cls: CharClass)
    ensures
        span(s, cls) <= s.len(),
        forall|j: int| 0 <= j < span(s, cls) ==> in_class(#[trigger] s[j], cls),
        span(s, cls) < s.len() ==> !in_class(s[span(s, cls) as int], cls),
    decreases s.len(),
{
    if s.len() > 0 && in_class(s[0], cls) {
        lemma_span(s.drop_first(), cls);
        assert forall|j: int| 0 <= j < span(s, cls) implies in_class(#[trigger] s[j], cls) by {
            if j > 0 {
                assert(s[j] == s.drop_first()[j - 1]);
            }
        }
    }
}

pub proof fn lemma_rspan(s: Seq<char>, cls: CharClass)
    ensures
        rspan(s, cls) <= s.len(),
    decreases s.len(),
{
    if s.len() > 0 && in_class(s.last(), cls) {
        lemma_rspan(s.drop_last(), cls);
    }
}

/// `str::trim_start`, `str::trim_end` and `str::trim`.
pub open spec fn trim_start(s: Seq<char>) -> Seq<char> {
    s.skip(span(s, CharClass::Whitespace) as int)
}

pub open spec fn trim_end(s: Seq<char>) -> Seq<char> {
    s.take(s.len() - rspan(s, CharClass::Whitespace))
}

pub open spec fn trim(s: Seq<char>) -> Seq<char> {
    trim_end(trim_start(s))
}

/// `str::starts_with` with a string pattern.
pub open spec fn starts_with(s: Seq<char>, p: Seq<char>) -> bool {
    p.len() <= s.len() && s.take(p.len() as int) == p
}

/// `p` occurs in `s` at position `i`.
pub open spec fn occurs_at(s: Seq<char>, p: Seq<char>, i: int) -> bool {
    0 <= i && i + p.len() <= s.len() && s.subrange(i, i + p.len()) == p
}

/// First position at or after `i` where `p` occurs in `s`.
pub open spec fn find_from(s: Seq<char>, p: Seq<char>, i: int) -> Option<int>
    decreases s.len() + 1 - i,
{
    if i < 0 || i + p.len() > s.len() {
        None
    } else if occurs_at(s, p, i) {
        Some(i)
    } else {
        find_from(s, p, i + 1)
    }
}

/// `str::find` with a string pattern (positions are in characters).
pub open spec fn find(s: Seq<char>, p: Seq<char>) -> Option<int> {
    find_from(s, p, 0)
}

/// `str::contains` with a string pattern.
pub open spec fn contains(s: Seq<char>, p: Seq<char>) -> bool {
    find(s, p) is Some
}

pub proof fn lemma_find_from(s: Seq<char>, p: Seq<char>, i: int)
    requires
        0 <= i,
    ensures
        find_from(s, p, i) matches Some(k) ==> i <= k && occurs_at(s, p, k) && forall|j: int|
            i <= j < k ==> !occurs_at(s, p, j),
        find_from(s, p, i) is None ==> forall|j: int| i <= j ==> !occurs_at(s, p, j),
    decreases s.len() + 1 - i,
{
    if i + p.len() > s.len() {
    } else if occurs_at(s, p, i) {
    } else {
        lemma_find_from(s, p, i + 1);
    }
}

/// `str::lines`: split at `\n`, drop a `\r` that precedes the `\n`,
/// and yield no final empty line after a trailing line ending.
pub open spec fn strip_cr(s: Seq<char>) -> Seq<char> {
    if s.len() > 0 && s.last() == '\r' {
        s.drop_last()
    } else {
        s
    }
}

pub open spec fn lines(s: Seq<char>) -> Seq<Seq<char>>
    decreases s.len(),
{
    if s.len() == 0 {
        seq![]
    } else {
        let k = span(s, CharClass::NotNewline);
        if k < s.len() {
            seq![strip_cr(s.take(k as int))] + lines(s.skip(k + 1int))
        } else {
            seq![s]
        }
    }
}

/// `str::split_whitespace`.
pub open spec fn split_ws(s: Seq<char>) -> Seq<Seq<char>>
    decreases s.len(),
{
    let t = trim_start(s);
    if t.len() == 0 {
        seq![]
    } else {
        let k = span(t, CharClass::NotWhitespace);
        proof {
            lemma_span(s, CharClass::Whitespace);
            lemma_span(t, CharClass::NotWhitespace);
            assert(t[0] == s[span(s, CharClass::Whitespace) as int]);
        }
        seq![t.take(k as int)] + split_ws(t.skip(k as int))
    }
}

/// The run of `cls` characters at the start of `x + z`: that of `x`, and
/// when it covers all of `x`, that of `z` after it.
pub proof fn lemma_span_concat(x: Seq<char>, z: Seq<char>, cls: CharClass)
    ensures
        span(x, cls) < x.len() ==> span(x + z, cls) == span(x, cls),
        span(x, cls) == x.len() ==> span(x + z, cls) == x.len() + span(z, cls),
    decreases x.len(),
{
    lemma_span(x, cls);
    if x.len() > 0 {
        assert((x + z)[0] == x[0]);
        assert((x + z).drop_first() =~= x.drop_first() + z);
        if in_class(x[0], cls) {
            lemma_span_concat(x.drop_first(), z, cls);
        }
    } else {
        assert(x + z =~= z);
    }
}

/// Splitting at a line ending: the lines of `x\n` followed by `y` are
/// those of `x\n` and then those of `y`.
pub proof fn lemma_lines_concat(x: Seq<char>, y: Seq<char>)
    ensures
        lines(x.push('\n') + y) == lines(x.push('\n')) + lines(y),
    decreases x.len(),
{
    let s = x.push('\n') + y;
    let t = x.push('\n');
    let nl: Seq<char> = seq!['\n'];
    lemma_span(x, CharClass::NotNewline);
    let k = span(x, CharClass::NotNewline);
    assert(t =~= x + nl);
    assert(s =~= x + (nl + y));
    lemma_span_concat(x, nl, CharClass::NotNewline);
    lemma_span_concat(x, nl + y, CharClass::NotNewline);
    if k < x.len() {
        assert(s.take(k as int) =~= t.take(k as int));
        let x2 = x.skip(k + 1int);
        assert(s.skip(k + 1int) =~= x2.push('\n') + y);
        assert(t.skip(k + 1int) =~= x2.push('\n'));
        lemma_lines_concat(x2, y);
        assert(lines(s) =~= lines(t) + lines(y));
    } else {
        assert(span(nl, CharClass::NotNewline) == 0);
        assert(span(nl + y, CharClass::NotNewline) == 0) by {
            assert((nl + y)[0] == '\n');
        }
        assert(s.take(k as int) =~= x);
        assert(t.take(k as int) =~= x);
        assert(s.skip(k + 1int) =~= y);
        assert(t.skip(k + 1int) =~= Seq::<char>::empty());
        assert(span(t, CharClass::NotNewline) == x.len());
        assert(lines(Seq::<char>::empty()) =~= Seq::<Seq<char>>::empty());
        assert(lines(t) =~= seq![strip_cr(x)]);
        assert(lines(s) =~= lines(t) + lines(y));
    }
}

/// Ending a text with a line ending either adds an empty last line (when
/// the text is empty or already ends in one) or ends the last line (which
/// may then lose a trailing `\r`).
pub proof fn lemma_lines_newline_end(a: Seq<char>)
    ensures
        lines(a.push('\n')) == lines(a).push(seq![]) || (lines(a).len() > 0 && lines(a.push('\n'))
            == lines(a).drop_last().push(strip_cr(lines(a).last()))),
    decreases a.len(),
{
    let t = a.push('\n');
    let nl: Seq<char> = seq!['\n'];
    assert(t =~= a + nl);
    lemma_span(a, CharClass::NotNewline);
    lemma_span_concat(a, nl, CharClass::NotNewline);
    let k = span(a, CharClass::NotNewline);
    assert(span(nl, CharClass::NotNewline) == 0);
    if a.len() == 0 {
        assert(t =~= nl);
        assert(nl.take(0) =~= Seq::<char>::empty());
        assert(nl.skip(1) =~= Seq::<char>::empty());
        assert(strip_cr(Seq::<char>::empty()) =~= Seq::<char>::empty());
        assert(t[0] == '\n');
        assert(span(t, CharClass::NotNewline) == 0);
        assert(lines(Seq::<char>::empty()) =~= Seq::<Seq<char>>::empty());
        assert(lines(t) == seq![strip_cr(t.take(0))] + lines(t.skip(1)));
        assert(lines(t) =~= seq![Seq::<char>::empty()]);
        assert(lines(a) =~= Seq::<Seq<char>>::empty());
        assert(lines(t) =~= lines(a).push(seq![]));
    } else if k == a.len() {
        assert(t.take(k as int) =~= a);
        assert(t.skip(k + 1int) =~= Seq::<char>::empty());
        assert(span(t, CharClass::NotNewline) == k);
        assert(lines(Seq::<char>::empty()) =~= Seq::<Seq<char>>::empty());
        assert(lines(t) == seq![strip_cr(t.take(k as int))] + lines(t.skip(k + 1int)));
        assert(lines(t) =~= seq![strip_cr(a)]);
        assert(lines(a) =~= seq![a]);
        assert(lines(t) =~= lines(a).drop_last().push(strip_cr(lines(a).last())));
    } else {
        let a2 = a.skip(k + 1int);
        assert(t.take(k as int) =~= a.take(k as int));
        assert(t.skip(k + 1int) =~= a2.push('\n'));
        let h = strip_cr(a.take(k as int));
        assert(lines(a) == seq![h] + lines(a2));
        assert(lines(t) == seq![h] + lines(a2.push('\n')));
        lemma_lines_newline_end(a2);
        if lines(a2.push('\n')) == lines(a2).push(seq![]) {
            assert(lines(t) =~= lines(a).push(seq![]));
        } else {
            assert(lines(t) =~= lines(a).drop_last().push(strip_cr(lines(a).last())));
        }
    }
}

/// Dropping a trailing `\r` does not change the trimmed text.
pub proof fn lemma_trim_strip_cr(s: Seq<char>)
    ensures
        trim(strip_cr(s)) == trim(s),
{
    if s.len() > 0 && s.last() == '\r' {
        let y = s.drop_last();
        let cr: Seq<char> = seq!['\r'];
        assert(s =~= y + cr);
        lemma_span(y, CharClass::Whitespace);
        lemma_span_concat(y, cr, CharClass::Whitespace);
        let p = span(y, CharClass::Whitespace);
        assert(cr.drop_first() =~= Seq::<char>::empty());
        assert(is_ws(cr[0]));
        assert(span(Seq::<char>::empty(), CharClass::Whitespace) == 0);
        assert(span(cr, CharClass::Whitespace) == 1 + span(cr.drop_first(), CharClass::Whitespace));
        assert(span(cr, CharClass::Whitespace) == 1);
        if p < y.len() {
            let ts = trim_start(y);
            assert(trim_start(s) =~= ts.push('\r'));
            assert(ts.push('\r').drop_last() =~= ts);
            assert(rspan(ts.push('\r'), CharClass::Whitespace) == 1 + rspan(ts, CharClass::Whitespace));
            lemma_rspan(ts, CharClass::Whitespace);
            assert(trim_end(ts.push('\r')) =~= trim_end(ts));
        } else {
            assert(trim_start(s) =~= Seq::<char>::empty());
            assert(trim_start(y) =~= Seq::<char>::empty());
        }
    }
}

/// The view of the text between character positions `r.0` and `r.1`.
pub open spec fn range_view(v: Seq<char>, r: (usize, usize)) -> Seq<char> {
    v.subrange(r.0 as int, r.1 as int)
}

pub open spec fn ranges_ok(v: Seq<char>, rs: Seq<(usize, usize)>) -> bool {
    forall|k: int| 0 <= k < rs.len() ==> #[trigger] rs[k].0 <= rs[k].1 <= v.len()
}

pub open spec fn ranges_view(v: Seq<char>, rs: Seq<(usize, usize)>) -> Seq<Seq<char>> {
    rs.map_values(|r: (usize, usize)| range_view(v, r))
}

/// The characters of a string.
pub fn to_chars(s: &str) -> (v: Vec<char>)
    ensures
        v@ == s@,
{
    let mut v: Vec<char> = Vec::new();
    for c in it: s.chars()
        invariant
            v@ == it.seq().take(it.index()),
            it.seq() == s@,
    {
        v.push(c);
    }
    v
}

/// Appends one character to a string.
#[verifier::external_body]
pub(crate) fn push_char(s: &mut String, c: char)
    ensures
        final(s)@ == old(s)@.push(c),
{
    s.push(c);
}

/// A new string holding the characters of `v` between `a` and `b`.
pub fn string_of(v: &Vec<char>, a: usize, b: usize) -> (r: String)
    requires
        a <= b <= v@.len(),
    ensures
        r@ == v@.subrange(a as int, b as int),
{
    let mut r = String::new();
    let mut i = a;
    while i < b
        invariant
            a <= i <= b <= v@.len(),
            r@ == v@.subrange(a as int, i as int),
        decreases b - i,
    {
        push_char(&mut r, v[i]);
        assert(v@.subrange(a as int, i + 1) =~= v@.subrange(a as int, i as int).push(v@[i as int]));
        i += 1;
    }
    r
}

/// End of the run of `cls` characters that starts at `a` (bounded by `b`).
pub fn span_from(v: &Vec<char>, a: usize, b: usize, cls: CharClass) -> (r: usize)
    requires
        a <= b <= v@.len(),
    ensures
        r == a + span(v@.subrange(a as int, b as int), cls),
        a <= r <= b,
{
    let mut i = a;
    while i < b && char_in_class(v[i], cls)
        invariant
            a <= i <= b <= v@.len(),
            span(v@.subrange(a as int, b as int), cls) == (i - a) + span(
                v@.subrange(i as int, b as int),
                cls,
            ),
        decreases b - i,
    {
        assert(v@.subrange(i as int, b as int).drop_first() =~= v@.subrange(i + 1, b as int));
        i += 1;
    }
    proof {
        lemma_span(v@.subrange(i as int, b as int), cls);
    }
    i
}

/// Start of the run of `cls` characters that ends at `b` (bounded by `a`).
pub fn rspan_from(v: &Vec<char>, a: usize, b: usize, cls: CharClass) -> (r: usize)
    requires
        a <= b <= v@.len(),
    ensures
        r + rspan(v@.subrange(a as int, b as int), cls) == b,
        a <= r <= b,
{
    let mut j = b;
    while j > a && char_in_class(v[j - 1], cls)
        invariant
            a <= j <= b <= v@.len(),
            rspan(v@.subrange(a as int, b as int), cls) == (b - j) + rspan(
                v@.subrange(a as int, j as int),
                cls,
            ),
        decreases j - a,
    {
        assert(v@.subrange(a as int, j as int).drop_last() =~= v@.subrange(a as int, j - 1));
        j -= 1;
    }
    j
}

/// The trimmed part of the range `[a, b)`.
pub fn trim_range(v: &Vec<char>, a: usize, b: usize) -> (r: (usize, usize))
    requires
        a <= b <= v@.len(),
    ensures
        a <= r.0 <= r.1 <= b,
        range_view(v@, r) == trim(v@.subrange(a as int, b as int)),
{
    let i = span_from(v, a, b, CharClass::Whitespace);
    let j = rspan_from(v, i, b, CharClass::Whitespace);
    proof {
        let s = v@.subrange(a as int, b as int);
        assert(trim_start(s) =~= v@.subrange(i as int, b as int));
        assert(trim_end(v@.subrange(i as int, b as int)) =~= v@.subrange(i as int, j as int));
    }
    (i, j)
}

/// The character ranges of the lines of `v`, as `str::lines` yields them.
pub fn line_ranges(v: &Vec<char>) -> (rs: Vec<(usize, usize)>)
    ensures
        ranges_ok(v@, rs@),
        ranges_view(v@, rs@) == lines(v@),
{
    let n = v.len();
    let mut rs: Vec<(usize, usize)> = Vec::new();
    let mut start: usize = 0;
    let ghost emitted: Seq<Seq<char>> = seq![];
    assert(v@.skip(0) =~= v@);
    while start < n
        invariant
            n == v@.len(),
            start <= n,
            ranges_ok(v@, rs@),
            ranges_view(v@, rs@) == emitted,
            lines(v@) == emitted + lines(v@.skip(start as int)),
        decreases n - start,
    {
        let e = span_from(v, start, n, CharClass::NotNewline);
        let ghost t = v@.skip(start as int);
        proof {
            assert(v@.subrange(start as int, n as int) =~= t);
        }
        if e < n {
            let mut line_end = e;
            if e > start && v[e - 1] == '\r' {
                line_end = e - 1;
            }
            proof {
                let k = span(t, CharClass::NotNewline);
                assert(t.take(k as int) =~= v@.subrange(start as int, e as int));
                assert(strip_cr(t.take(k as int)) =~= v@.subrange(start as int, line_end as int));
                assert(t.skip(k + 1int) =~= v@.skip(e + 1));
                assert(lines(t) == seq![strip_cr(t.take(k as int))] + lines(t.skip(k + 1int)));
            }
            rs.push((start, line_end));
            proof {
                let old_emitted = emitted;
                emitted = emitted.push(v@.subrange(start as int, line_end as int));
                assert(ranges_view(v@, rs@) =~= emitted);
                assert(lines(v@) =~= emitted + lines(v@.skip(e + 1)));
            }
            start = e + 1;
        } else {
            proof {
                assert(lines(t) == seq![t]);
            }
            rs.push((start, n));
            proof {
                emitted = emitted.push(t);
                assert(ranges_view(v@, rs@) =~= emitted);
                assert(v@.skip(n as int) =~= Seq::<char>::empty());
                assert(lines(v@.skip(n as int)) =~= Seq::<Seq<char>>::empty());
                assert(lines(v@) =~= emitted + lines(v@.skip(n as int)));
            }
            start = n;
        }
    }
    proof {
        assert(v@.skip(n as int) =~= Seq::<char>::empty());
        assert(lines(v@) =~= emitted);
    }
    rs
}

/// The character ranges of the whitespace-separated tokens of `[a, b)`.
pub fn token_ranges(v: &Vec<char>, a: usize, b: usize) -> (rs: Vec<(usize, usize)>)
    requires
        a <= b <= v@.len(),
    ensures
        ranges_ok(v@, rs@),
        ranges_view(v@, rs@) == split_ws(v@.subrange(a as int, b as int)),
        forall|k: int| 0 <= k < rs@.len() ==> a <= #[trigger] rs@[k].0 && rs@[k].1 <= b,
{
    let mut rs: Vec<(usize, usize)> = Vec::new();
    let mut i = a;
    let ghost emitted: Seq<Seq<char>> = seq![];
    loop
        invariant
            a <= i <= b <= v@.len(),
            ranges_ok(v@, rs@),
            forall|k: int| 0 <= k < rs@.len() ==> a <= #[trigger] rs@[k].0 && rs@[k].1 <= b,
            ranges_view(v@, rs@) == emitted,
            split_ws(v@.subrange(a as int, b as int)) == emitted + split_ws(
                v@.subrange(i as int, b as int),
            ),
        decreases b - i,
    {
        let ghost s = v@.subrange(i as int, b as int);
        let t0 = span_from(v, i, b, CharClass::Whitespace);
        proof {
            assert(trim_start(s) =~= v@.subrange(t0 as int, b as int));
        }
        if t0 == b {
            proof {
                assert(split_ws(s) =~= Seq::<Seq<char>>::empty());
                assert(split_ws(v@.subrange(a as int, b as int)) =~= emitted);
            }
            return rs;
        }
        let e = span_from(v, t0, b, CharClass::NotWhitespace);
        proof {
            let t = trim_start(s);
            let k = span(t, CharClass::NotWhitespace);
            assert(t.take(k as int) =~= v@.subrange(t0 as int, e as int));
            assert(t.skip(k as int) =~= v@.subrange(e as int, b as int));
            lemma_span(s, CharClass::Whitespace);
            assert(!is_ws(v@[t0 as int]));
            assert(e > t0);
        }
        rs.push((t0, e));
        proof {
            emitted = emitted.push(v@.subrange(t0 as int, e as int));
            assert(ranges_view(v@, rs@) =~= emitted);
            assert(split_ws(v@.subrange(a as int, b as int)) =~= emitted + split_ws(
                v@.subrange(e as int, b as int),
            ));
        }
        i = e;
    }
}

/// Whether `p` occurs in `v` at position `i` (within the range ending at `b`).
pub fn matches_at(v: &Vec<char>, b: usize, p: &Vec<char>, i: usize) -> (r: bool)
    requires
        i <= b <= v@.len(),
    ensures
        r == occurs_at(v@.subrange(0, b as int), p@, i as int),
{
    if p.len() > b - i {
        return false;
    }
    let mut k: usize = 0;
    while k < p.len()
        invariant
            i + p@.len() <= b <= v@.len(),
            k <= p@.len(),
            forall|j: int| 0 <= j < k ==> v@[i + j] == p@[j],
        decreases p@.len() - k,
    {
        if v[i + k] != p[k] {
            proof {
                assert(v@.subrange(0, b as int).subrange(i as int, i + p@.len())[k as int] != p@[k as int]);
            }
            return false;
        }
        k += 1;
    }
    proof {
        assert(v@.subrange(0, b as int).subrange(i as int, i + p@.len()) =~= p@);
    }
    true
}

/// `str::find` on the range `[a, b)`, as an absolute position.
pub fn find_in(v: &Vec<char>, a: usize, b: usize, p: &Vec<char>) -> (r: Option<usize>)
    requires
        a <= b <= v@.len(),
    ensures
        match find(v@.subrange(a as int, b as int), p@) {
            Some(k) => r == Some((a + k) as usize),
            None => r is None,
        },
{
    let ghost s = v@.subrange(a as int, b as int);
    let mut i = a;
    loop
        invariant
            a <= i <= b <= v@.len(),
            s == v@.subrange(a as int, b as int),
            find(s, p@) == find_from(s, p@, i - a),
        decreases b - i,
    {
        if p.len() > b - i {
            proof {
                assert(find_from(s, p@, i - a) is None);
            }
            return None;
        }
        let m = matches_at(v, b, p, i);
        proof {
            let lhs = v@.subrange(0, b as int).subrange(i as int, i + p@.len());
            let rhs = s.subrange(i - a, i - a + p@.len());
            assert(lhs =~= rhs);
            assert(occurs_at(v@.subrange(0, b as int), p@, i as int) == occurs_at(s, p@, i - a));
        }
        if m {
            return Some(i);
        }
        proof {
            if p@.len() == 0 {
                assert(v@.subrange(0, b as int).subrange(i as int, i as int) =~= p@);
            }
        }
        i += 1;
    }
}

/// `str::starts_with` on the range `[a, b)`.
pub fn starts_with_at(v: &Vec<char>, a: usize, b: usize, p: &Vec<char>) -> (r: bool)
    requires
        a <= b <= v@.len(),
    ensures
        r == starts_with(v@.subrange(a as int, b as int), p@),
{
    let m = matches_at(v, b, p, a);
    proof {
        let s = v@.subrange(a as int, b as int);
        if p@.len() <= s.len() {
            assert(v@.subrange(0, b as int).subrange(a as int, a + p@.len()) =~= s.take(
                p@.len() as int,
            ));
        }
    }
    m
}

/// Whether the ranges `[a, b)` of `v` and all of `w` hold the same text.
pub fn range_equals(v: &Vec<char>, a: usize, b: usize, w: &Vec<char>) -> (r: bool)
    requires
        a <= b <= v@.len(),
    ensures
        r == (v@.subrange(a as int, b as int) == w@),
{
    if b - a != w.len() {
        return false;
    }
    let r = starts_with_at(v, a, b, w);
    proof {
        assert(v@.subrange(a as int, b as int).take(w@.len() as int) =~= v@.subrange(
            a as int,
            b as int,
        ));
    }
    r
}

// ---------------------------------------------------------------------------
// ASCII case
pub open spec fn ascii_lower(c: char) -> char {
    if 'A' <= c && c <= 'Z' {
        ((c as u8) + 32) as char
    } else {
        c
    }
}

/// `str::eq_ignore_ascii_case`.
pub open spec fn eq_ignore_ascii_case(a: Seq<char>, b: Seq<char>) -> bool {
    a.len() == b.len() && forall|i: int| 0 <= i < a.len() ==> ascii_lower(#[trigger] a[i]) == ascii_lower(b[i])
}

fn to_ascii_lower(c: char) -> (r: char)
    ensures
        r == ascii_lower(c),
{
    if 'A' <= c && c <= 'Z' {
        ((c as u8) + 32) as char
    } else {
        c
    }
}

pub fn eq_ignore_case_range(v: &Vec<char>, a: usize, b: usize, w: &Vec<char>) -> (r: bool)
    requires
        a <= b <= v@.len(),
    ensures
        r == eq_ignore_ascii_case(v@.subrange(a as int, b as int), w@),
{
    if b - a != w.len() {
        return false;
    }
    let mut i: usize = 0;
    while i < w.len()
        invariant
            a <= b <= v@.len(),
            b - a == w@.len(),
            i <= w@.len(),
            forall|j: int| 0 <= j < i ==> ascii_lower(#[trigger] v@[a + j]) == ascii_lower(w@[j]),
        decreases w@.len() - i,
    {
        if to_ascii_lower(v[a + i]) != to_ascii_lower(w[i]) {
            proof {
                assert(v@.subrange(a as int, b as int)[i as int] == v@[a + i]);
            }
            return false;
        }
        i += 1;
    }
    proof {
        assert forall|j: int| 0 <= j < w@.len() implies ascii_lower(
            #[trigger] v@.subrange(a as int, b as int)[j],
        ) == ascii_lower(w@[j]) by {
            assert(v@.subrange(a as int, b as int)[j] == v@[a + j]);
        }
    }
    true
}

} // verus!
