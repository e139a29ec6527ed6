//! Character-level text helpers shared by the argument parsers, the
//! progress-line readers and the ffprobe reader.
//!
//! Text is handled as sequences of `char`; every helper states its result
//! over the `Seq<char>` view of its inputs.
use vstd::prelude::*;

verus! {

/// The Unicode `White_Space` property, which is what `char::is_whitespace`
/// tests.
pub open spec fn is_ws(c: char) -> bool {
    let u = c as u32;
    ||| u == 0x20
    ||| (0x09 <= u && u <= 0x0d)
    ||| u == 0x85
    ||| u == 0xa0
    ||| u == 0x1680
    ||| (0x2000 <= u && u <= 0x200a)
    ||| u == 0x2028
    ||| u == 0x2029
    ||| u == 0x202f
    ||| u == 0x205f
    ||| u == 0x3000
}

pub fn is_whitespace(c: char) -> (r: bool)
    ensures
        r == is_ws(c),
{
    let u = c as u32;
    u == 0x20 || (0x09 <= u && u <= 0x0d) || u == 0x85 || u == 0xa0 || u == 0x1680 || (0x2000
        <= u && u <= 0x200a) || u == 0x2028 || u == 0x2029 || u == 0x202f || u == 0x205f || u
        == 0x3000
}

pub open spec fn is_ascii_digit(c: char) -> bool {
    '0' <= c && c <= '9'
}

pub open spec fn digit_value(c: char) -> nat {
    ((c as u32) - ('0' as u32)) as nat
}

/// `String::push` from std: appends one character.
#[verifier::external_body]
fn push_char(s: &mut String, c: char)
    ensures
        final(s)@ == old(s)@.push(c),
{
    s.push(c);
}

/// The characters of `s`, in order.
pub fn to_chars(s: &str) -> (v: Vec<char>)
    ensures
        v@ == s@,
{
    let n = s.unicode_len();
    let mut v: Vec<char> = Vec::new();
    let mut i: usize = 0;
    while i < n
        invariant
            n == s@.len(),
            i <= n,
            v@ == s@.take(i as int),
        decreases n - i,
    {
        let c = s.get_char(i);
        v.push(c);
        i = i + 1;
        assert(v@ =~= s@.take(i as int));
    }
    assert(v@ =~= s@);
    v
}

/// A `String` holding the characters `v[lo..hi]`.
pub fn string_from_range(v: &[char], lo: usize, hi: usize) -> (s: String)
    requires
        lo <= hi <= v@.len(),
    ensures
        s@ == v@.subrange(lo as int, hi as int),
{
    let mut s = String::new();
    let mut i = lo;
    while i < hi
        invariant
            lo <= i <= hi,
            hi <= v@.len(),
            s@ == v@.subrange(lo as int, i as int),
        decreases hi - i,
    {
        push_char(&mut s, v[i]);
        i = i + 1;
        assert(s@ =~= v@.subrange(lo as int, i as int));
    }
    s
}

/// A `String` holding the characters of `v`.
pub fn string_from_chars(v: &[char]) -> (s: String)
    ensures
        s@ == v@,
{
    let s = string_from_range(v, 0, v.len());
    assert(v@.subrange(0, v@.len() as int) =~= v@);
    s
}

/// `a ++ b` as a new `String`.
pub fn concat2(a: &str, b: &str) -> (s: String)
    ensures
        s@ == a@ + b@,
{
    let mut s = String::from_str(a);
    s.append(b);
    s
}

/// Exact equality of two strings.
pub fn str_eq(a: &str, b: &str) -> (r: bool)
    ensures
        r == (a@ == b@),
{
    let n = a.unicode_len();
    let m = b.unicode_len();
    if n != m {
        return false;
    }
    let mut i: usize = 0;
    while i < n
        invariant
            n == a@.len(),
            m == b@.len(),
            n == m,
            i <= n,
            forall|j: int| 0 <= j < i ==> a@[j] == b@[j],
        decreases n - i,
    {
        if a.get_char(i) != b.get_char(i) {
            return false;
        }
        i = i + 1;
    }
    assert(a@ =~= b@);
    true
}

/// Equality of a character slice with a string.
pub fn chars_eq_str(v: &[char], b: &str) -> (r: bool)
    ensures
        r == (v@ == b@),
{
    let w = to_chars(b);
    chars_eq(v, w.as_slice())
}

/// Equality of two character slices.
pub fn chars_eq(a: &[char], b: &[char]) -> (r: bool)
    ensures
        r == (a@ == b@),
{
    if a.len() != b.len() {
        return false;
    }
    let mut i: usize = 0;
    while i < a.len()
        invariant
            a@.len() == b@.len(),
            i <= a@.len(),
            forall|j: int| 0 <= j < i ==> a@[j] == b@[j],
        decreases a@.len() - i,
    {
        if a[i] != b[i] {
            return false;
        }
        i = i + 1;
    }
    assert(a@ =~= b@);
    true
}

/// `pat` occurs in `s` starting at index `i`.
pub open spec fn occurs_at(s: Seq<char>, pat: Seq<char>, i: int) -> bool {
    0 <= i && i + pat.len() <= s.len() && s.subrange(i, i + pat.len()) == pat
}

/// `pat` occurs somewhere in `s` (what `str::contains` answers).
pub open spec fn occurs_in(s: Seq<char>, pat: Seq<char>) -> bool {
    exists|i: int| occurs_at(s, pat, i)
}

/// Whether `pat` occurs in `s`.
pub fn contains_str(s: &str, pat: &str) -> (r: bool)
    ensures
        r == occurs_in(s@, pat@),
{
    let sv = to_chars(s);
    let pv = to_chars(pat);
    let n = sv.len();
    let m = pv.len();
    if m > n {
        assert forall|i: int| !occurs_at(s@, pat@, i) by {}
        return false;
    }
    let mut i: usize = 0;
    while i <= n - m
        invariant
            sv@ == s@,
            pv@ == pat@,
            n == sv@.len(),
            m == pv@.len(),
            m <= n,
            i <= n - m + 1,
            forall|k: int| 0 <= k < i ==> !occurs_at(s@, pat@, k),
        decreases n - m + 1 - i,
    {
        let mut j: usize = 0;
        let mut all = true;
        while j < m
            invariant
                sv@ == s@,
                pv@ == pat@,
                n == sv@.len(),
                m == pv@.len(),
                i + m <= n,
                j <= m,
                all == (forall|k: int| 0 <= k < j ==> sv@[i + k] == pv@[k]),
            decreases m - j,
        {
            if sv[i + j] != pv[j] {
                all = false;
            }
            j = j + 1;
        }
        if all {
            assert(s@.subrange(i as int, i + m) =~= pat@);
            assert(occurs_at(s@, pat@, i as int));
            return true;
        }
        assert(!occurs_at(s@, pat@, i as int)) by {
            if s@.subrange(i as int, i + m) == pat@ {
                assert forall|k: int| 0 <= k < m implies sv@[i + k] == pv@[k] by {
                    assert(s@.subrange(i as int, i + m)[k] == s@[i + k]);
                }
            }
        }
        i = i + 1;
    }
    assert forall|k: int| !occurs_at(s@, pat@, k) by {
        if occurs_at(s@, pat@, k) {
            assert(k <= n - m);
        }
    }
    false
}

/// `s` starts with `p`.
pub open spec fn has_prefix(s: Seq<char>, p: Seq<char>) -> bool {
    p.len() <= s.len() && s.take(p.len() as int) == p
}

/// `str::strip_prefix`: the rest of `s` after `p`, when `s` starts with `p`.
pub fn strip_prefix_chars(s: &[char], p: &str) -> (r: Option<Vec<char>>)
    ensures
        r is Some <==> has_prefix(s@, p@),
        r matches Some(rest) ==> rest@ == s@.skip(p@.len() as int),
{
    let pv = to_chars(p);
    if pv.len() > s.len() {
        return None;
    }
    let mut i: usize = 0;
    while i < pv.len()
        invariant
            pv@ == p@,
            pv@.len() <= s@.len(),
            i <= pv@.len(),
            forall|k: int| 0 <= k < i ==> s@[k] == pv@[k],
        decreases pv@.len() - i,
    {
        if s[i] != pv[i] {
            assert(s@.take(pv@.len() as int)[i as int] == s@[i as int]);
            return None;
        }
        i = i + 1;
    }
    assert(s@.take(pv@.len() as int) =~= pv@);
    let mut rest: Vec<char> = Vec::new();
    let mut k = pv.len();
    while k < s.len()
        invariant
            pv@.len() <= k <= s@.len(),
            rest@ == s@.subrange(pv@.len() as int, k as int),
        decreases s@.len() - k,
    {
        rest.push(s[k]);
        k = k + 1;
        assert(rest@ =~= s@.subrange(pv@.len() as int, k as int));
    }
    assert(rest@ =~= s@.skip(pv@.len() as int));
    Some(rest)
}

// ---------------------------------------------------------------------
// Trimming
// ---------------------------------------------------------------------

/// Number of leading whitespace characters of `s`.
pub open spec fn leading_ws(s: Seq<char>) -> nat
    decreases s.len(),
{
    if s.len() == 0 {
        0
    } else if is_ws(s[0]) {
        1 + leading_ws(s.drop_first())
    } else {
        0
    }
}

/// Number of trailing whitespace characters of `s`.
pub open spec fn trailing_ws(s: Seq<char>) -> nat
    decreases s.len(),
{
    if s.len() == 0 {
        0
    } else if is_ws(s.last()) {
        1 + trailing_ws(s.drop_last())
    } else {
        0
    }
}

/// `str::trim`: `s` without leading and trailing whitespace.
pub open spec fn trim(s: Seq<char>) -> Seq<char> {
    let t = s.skip(leading_ws(s) as int);
    t.take(t.len() - trailing_ws(t))
}

proof fn lemma_leading_ws(s: Seq<char>, i: int)
    requires
        0 <= i <= s.len(),
        forall|k: int| 0 <= k < i ==> is_ws(s[k]),
        i == s.len() || !is_ws(s[i]),
    ensures
        leading_ws(s) == i,
    decreases i,
{
    if i > 0 {
        lemma_leading_ws(s.drop_first(), i - 1);
    }
}

proof fn lemma_trailing_ws(s: Seq<char>, j: int)
    requires
        0 <= j <= s.len(),
        forall|k: int| j <= k < s.len() ==> is_ws(s[k]),
        j == 0 || !is_ws(s[j - 1]),
    ensures
        trailing_ws(s) == s.len() - j,
    decreases s.len() - j,
{
    if j < s.len() {
        lemma_trailing_ws(s.drop_last(), j);
    }
}

/// The bounds `lo..hi` of `trim(s)` inside `s`.
pub fn trim_bounds(s: &[char]) -> (r: (usize, usize))
    ensures
        r.0 <= r.1 <= s@.len(),
        s@.subrange(r.0 as int, r.1 as int) == trim(s@),
{
    let n = s.len();
    let mut lo: usize = 0;
    while lo < n && is_whitespace(s[lo])
        invariant
            n == s@.len(),
            lo <= n,
            forall|k: int| 0 <= k < lo ==> is_ws(s@[k]),
        decreases n - lo,
    {
        lo = lo + 1;
    }
    proof {
        lemma_leading_ws(s@, lo as int);
    }
    let ghost t = s@.skip(lo as int);
    let mut hi: usize = n;
    while hi > lo && is_whitespace(s[hi - 1])
        invariant
            n == s@.len(),
            lo <= hi <= n,
            forall|k: int| hi <= k < n ==> is_ws(s@[k]),
        decreases hi,
    {
        hi = hi - 1;
    }
    proof {
        assert forall|k: int| hi - lo <= k < t.len() implies is_ws(t[k]) by {
            assert(t[k] == s@[k + lo]);
        }
        if hi > lo {
            assert(t[hi - lo - 1] == s@[hi - 1]);
        }
        lemma_trailing_ws(t, hi - lo);
        assert(s@.subrange(lo as int, hi as int) =~= t.take(t.len() - trailing_ws(t)));
    }
    (lo, hi)
}

/// `str::trim` as a new character vector.
pub fn trim_chars(s: &[char]) -> (r: Vec<char>)
    ensures
        r@ == trim(s@),
{
    let (lo, hi) = trim_bounds(s);
    slice_range(s, lo, hi)
}

/// `v[lo..hi]` as a new vector.
pub fn slice_range(v: &[char], lo: usize, hi: usize) -> (r: Vec<char>)
    requires
        lo <= hi <= v@.len(),
    ensures
        r@ == v@.subrange(lo as int, hi as int),
{
    let mut r: Vec<char> = Vec::new();
    let mut i = lo;
    while i < hi
        invariant
            lo <= i <= hi,
            hi <= v@.len(),
            r@ == v@.subrange(lo as int, i as int),
        decreases hi - i,
    {
        r.push(v[i]);
        i = i + 1;
        assert(r@ =~= v@.subrange(lo as int, i as int));
    }
    r
}

// ---------------------------------------------------------------------
// Splitting
// ---------------------------------------------------------------------

/// Index of the first occurrence of `c` in `s`, if any.
pub open spec fn first_index_of(s: Seq<char>, c: char) -> Option<int>
    decreases s.len(),
{
    if s.len() == 0 {
        None
    } else if s[0] == c {
        Some(0)
    } else {
        match first_index_of(s.drop_first(), c) {
            Some(i) => Some(i + 1),
            None => None,
        }
    }
}

pub proof fn lemma_first_index_of(s: Seq<char>, c: char, i: int)
    requires
        0 <= i <= s.len(),
        forall|k: int| 0 <= k < i ==> s[k] != c,
    ensures
        i < s.len() && s[i] == c ==> first_index_of(s, c) == Some(i),
        i == s.len() ==> first_index_of(s, c) is None,
    decreases i,
{
    if i > 0 {
        lemma_first_index_of(s.drop_first(), c, i - 1);
    }
}

/// Position of the first `c` in `s`.
pub fn find_char(s: &[char], c: char) -> (r: Option<usize>)
    ensures
        r matches Some(i) ==> first_index_of(s@, c) == Some(i as int),
        r is None ==> first_index_of(s@, c) is None,
{
    let mut i: usize = 0;
    while i < s.len()
        invariant
            i <= s@.len(),
            forall|k: int| 0 <= k < i ==> s@[k] != c,
        decreases s@.len() - i,
    {
        if s[i] == c {
            proof {
                lemma_first_index_of(s@, c, i as int);
            }
            return Some(i);
        }
        i = i + 1;
    }
    proof {
        lemma_first_index_of(s@, c, i as int);
    }
    None
}

/// `str::split_once(c)`: the parts before and after the first `c`.
pub open spec fn split_once(s: Seq<char>, c: char) -> Option<(Seq<char>, Seq<char>)> {
    match first_index_of(s, c) {
        Some(i) => Some((s.take(i), s.skip(i + 1))),
        None => None,
    }
}

pub proof fn lemma_first_index_bounds(s: Seq<char>, c: char)
    ensures
        first_index_of(s, c) matches Some(i) ==> 0 <= i < s.len() && s[i] == c,
    decreases s.len(),
{
    if s.len() > 0 && s[0] != c {
        lemma_first_index_bounds(s.drop_first(), c);
    }
}

pub fn split_once_chars(s: &[char], c: char) -> (r: Option<(Vec<char>, Vec<char>)>)
    ensures
        r is Some <==> split_once(s@, c) is Some,
        r matches Some(p) ==> split_once(s@, c) == Some((p.0@, p.1@)),
{
    proof {
        lemma_first_index_bounds(s@, c);
    }
    match find_char(s, c) {
        Some(i) => {
            let n = s.len();
            assert(i < n);
            let a = slice_range(s, 0, i);
            let b = slice_range(s, i + 1, s.len());
            assert(a@ =~= s@.take(i as int));
            assert(b@ =~= s@.skip(i + 1));
            Some((a, b))
        },
        None => None,
    }
}

/// Length of the longest prefix of `s` without whitespace.
pub open spec fn word_len(s: Seq<char>) -> nat
    decreases s.len(),
{
    if s.len() == 0 || is_ws(s[0]) {
        0
    } else {
        1 + word_len(s.drop_first())
    }
}

pub proof fn lemma_word_len(s: Seq<char>, i: int)
    requires
        0 <= i <= s.len(),
        forall|k: int| 0 <= k < i ==> !is_ws(s[k]),
        i == s.len() || is_ws(s[i]),
    ensures
        word_len(s) == i,
    decreases i,
{
    if i > 0 {
        lemma_word_len(s.drop_first(), i - 1);
    }
}

/// `str::split_whitespace`: the maximal runs of non-whitespace characters.
pub open spec fn words(s: Seq<char>) -> Seq<Seq<char>>
    decreases s.len(),
{
    if s.len() == 0 {
        seq![]
    } else if is_ws(s[0]) {
        words(s.drop_first())
    } else {
        let k = word_len(s);
        if 0 < k <= s.len() {
            seq![s.take(k as int)] + words(s.skip(k as int))
        } else {
            seq![]
        }
    }
}

proof fn lemma_words_skip_ws(s: Seq<char>, i: int)
    requires
        0 <= i <= s.len(),
        forall|k: int| 0 <= k < i ==> is_ws(s[k]),
    ensures
        words(s) == words(s.skip(i)),
    decreases i,
{
    if i > 0 {
        assert(s.drop_first().skip(i - 1) =~= s.skip(i));
        lemma_words_skip_ws(s.drop_first(), i - 1);
    } else {
        assert(s.skip(0) =~= s);
    }
}

/// The whitespace-separated words of `s`, in order.
pub fn split_words(s: &[char]) -> (r: Vec<Vec<char>>)
    ensures
        r@.len() == words(s@).len(),
        forall|i: int| 0 <= i < r@.len() ==> #[trigger] r@[i]@ == words(s@)[i],
{
    let n = s.len();
    let mut out: Vec<Vec<char>> = Vec::new();
    let mut pos: usize = 0;
    let ghost done: Seq<Seq<char>> = seq![];
    assert(s@.skip(0) =~= s@);
    while pos < n
        invariant
            n == s@.len(),
            pos <= n,
            out@.len() == done.len(),
            forall|i: int| 0 <= i < out@.len() ==> #[trigger] out@[i]@ == done[i],
            words(s@) == done + words(s@.skip(pos as int)),
        decreases n - pos,
    {
        let ghost rest = s@.skip(pos as int);
        if is_whitespace(s[pos]) {
            assert(rest.drop_first() =~= s@.skip(pos + 1));
            pos = pos + 1;
        } else {
            let mut end = pos;
            while end < n && !is_whitespace(s[end])
                invariant
                    n == s@.len(),
                    pos <= end <= n,
                    forall|k: int| pos <= k < end ==> !is_ws(s@[k]),
                decreases n - end,
            {
                end = end + 1;
            }
            proof {
                assert forall|k: int| 0 <= k < end - pos implies !is_ws(rest[k]) by {
                    assert(rest[k] == s@[pos + k]);
                }
                if end < n {
                    assert(rest[end - pos] == s@[end as int]);
                }
                lemma_word_len(rest, end - pos);
                assert(rest.take(end - pos) =~= s@.subrange(pos as int, end as int));
                assert(rest.skip(end - pos) =~= s@.skip(end as int));
            }
            let w = slice_range(s, pos, end);
            out.push(w);
            proof {
                done = done.push(rest.take(end - pos));
                assert(words(s@) == done + words(s@.skip(end as int))) by {
                    assert(done + words(s@.skip(end as int)) =~= done.drop_last() + (seq![rest.take(end - pos)] + words(s@.skip(end as int))));
                }
            }
            pos = end;
        }
    }
    proof {
        assert(s@.skip(n as int).len() == 0);
        assert(done + words(s@.skip(n as int)) =~= done);
    }
    out
}

/// `str::lines`: split at `\n`; a `\r` just before a `\n` is dropped; a
/// final empty line after a trailing `\n` is not produced.
pub open spec fn lines(s: Seq<char>) -> Seq<Seq<char>>
    decreases s.len(),
{
    if s.len() == 0 {
        seq![]
    } else {
        match first_index_of(s, '\n') {
            Some(i) => {
                if 0 <= i < s.len() {
                    let line = s.take(i);
                    let line = if line.len() > 0 && line.last() == '\r' {
                        line.drop_last()
                    } else {
                        line
                    };
                    seq![line] + lines(s.skip(i + 1))
                } else {
                    seq![]
                }
            },
            None => seq![s],
        }
    }
}

/// The lines of `s`, in order.
pub fn split_lines(s: &[char]) -> (r: Vec<Vec<char>>)
    ensures
        r@.len() == lines(s@).len(),
        forall|i: int| 0 <= i < r@.len() ==> #[trigger] r@[i]@ == lines(s@)[i],
{
    let n = s.len();
    let mut out: Vec<Vec<char>> = Vec::new();
    let mut pos: usize = 0;
    let ghost done: Seq<Seq<char>> = seq![];
    assert(s@.skip(0) =~= s@);
    while pos < n
        invariant
            n == s@.len(),
            pos <= n,
            out@.len() == done.len(),
            forall|i: int| 0 <= i < out@.len() ==> #[trigger] out@[i]@ == done[i],
            lines(s@) == done + lines(s@.skip(pos as int)),
        decreases n - pos,
    {
        let ghost rest = s@.skip(pos as int);
        let mut end = pos;
        while end < n && s[end] != '\n'
            invariant
                n == s@.len(),
                pos <= end <= n,
                forall|k: int| pos <= k < end ==> s@[k] != '\n',
            decreases n - end,
        {
            end = end + 1;
        }
        proof {
            assert forall|k: int| 0 <= k < end - pos implies rest[k] != '\n' by {
                assert(rest[k] == s@[pos + k]);
            }
            if end < n {
                assert(rest[end - pos] == s@[end as int]);
            }
            lemma_first_index_of(rest, '\n', end - pos);
        }
        let mut line_end = end;
        if end < n && end > pos && s[end - 1] == '\r' {
            line_end = end - 1;
        }
        let line = slice_range(s, pos, line_end);
        out.push(line);
        proof {
            if end < n {
                let l = rest.take(end - pos);
                if end > pos {
                    assert(l.last() == s@[end - 1]);
                }
                assert(s@.subrange(pos as int, line_end as int) =~= (if l.len() > 0 && l.last()
                    == '\r' {
                    l.drop_last()
                } else {
                    l
                }));
                assert(rest.skip(end - pos + 1) =~= s@.skip(end + 1));
                done = done.push(s@.subrange(pos as int, line_end as int));
                assert(done + lines(s@.skip(end + 1)) =~= done.drop_last() + (seq![
                    s@.subrange(pos as int, line_end as int)] + lines(s@.skip(end + 1))));
            } else {
                assert(s@.subrange(pos as int, line_end as int) =~= rest);
                done = done.push(rest);
                assert(s@.skip(n as int).len() == 0);
                assert(done + lines(s@.skip(n as int)) =~= done);
            }
        }
        if end < n {
            pos = end + 1;
        } else {
            pos = n;
        }
    }
    proof {
        assert(s@.skip(n as int).len() == 0);
        assert(done + lines(s@.skip(n as int)) =~= done);
    }
    out
}

// ---------------------------------------------------------------------
// Unsigned decimal numbers
// ---------------------------------------------------------------------

pub open spec fn all_digits(s: Seq<char>) -> bool {
    forall|i: int| 0 <= i < s.len() ==> is_ascii_digit(#[trigger] s[i])
}

/// The value of a run of decimal digits.
pub open spec fn dec_value(s: Seq<char>) -> nat
    decreases s.len(),
{
    if s.len() == 0 {
        0
    } else {
        dec_value(s.drop_last()) * 10 + digit_value(s.last())
    }
}

/// What `str::parse` gives for an unsigned integer type whose largest value
/// is `max`: an optional leading `+`, then at least one ASCII digit, and a
/// value no larger than `max`.
pub open spec fn parse_unsigned(s: Seq<char>, max: nat) -> Option<nat> {
    let d = if s.len() > 0 && s[0] == '+' {
        s.drop_first()
    } else {
        s
    };
    if d.len() > 0 && all_digits(d) && dec_value(d) <= max {
        Some(dec_value(d))
    } else {
        None
    }
}

proof fn lemma_dec_value_prefix_le(s: Seq<char>, i: int)
    requires
        0 <= i <= s.len(),
        all_digits(s),
    ensures
        dec_value(s.take(i)) <= dec_value(s),
    decreases s.len() - i,
{
    if i < s.len() {
        assert(s.drop_last().take(i) =~= s.take(i));
        lemma_dec_value_prefix_le(s.drop_last(), i);
    } else {
        assert(s.take(i) =~= s);
    }
}

/// Decimal parse of `s` into a value no larger than `max`.
pub fn parse_decimal(s: &[char], max: u64) -> (r: Option<u64>)
    ensures
        r is Some <==> parse_unsigned(s@, max as nat) is Some,
        r matches Some(v) ==> parse_unsigned(s@, max as nat) == Some(v as nat),
{
    let start: usize = if s.len() > 0 && s[0] == '+' {
        1
    } else {
        0
    };
    let ghost d = s@.skip(start as int);
    assert(d =~= (if s@.len() > 0 && s@[0] == '+' {
        s@.drop_first()
    } else {
        s@
    }));
    if start >= s.len() {
        return None;
    }
    let mut acc: u64 = 0;
    let mut i = start;
    while i < s.len()
        invariant
            start <= i <= s@.len(),
            d == s@.skip(start as int),
            d == (if s@.len() > 0 && s@[0] == '+' {
                s@.drop_first()
            } else {
                s@
            }),
            acc as nat == dec_value(d.take(i - start)),
            acc <= max,
            all_digits(d.take(i - start)),
        decreases s@.len() - i,
    {
        let c = s[i];
        if !('0' <= c && c <= '9') {
            assert(d[i - start] == c);
            assert(!is_ascii_digit(d[i - start]));
            assert(!all_digits(d));
            return None;
        }
        let dv = (c as u32 - '0' as u32) as u64;
        proof {
            assert(d.take(i - start + 1).drop_last() =~= d.take(i - start));
            assert(d.take(i - start + 1).last() == c);
        }
        if dv > max || acc > (max - dv) / 10 {
            proof {
                assert(dec_value(d.take(i - start + 1)) == acc * 10 + dv);
                if dv <= max {
                    assert(acc * 10 + dv > max) by (nonlinear_arith)
                        requires
                            acc > (max - dv) / 10,
                            dv <= max,
                    ;
                }
                assert forall|k: int| 0 <= k < i - start + 1 implies is_ascii_digit(
                    #[trigger] d.take(i - start + 1)[k],
                ) by {
                    if k < i - start {
                        assert(d.take(i - start + 1)[k] == d.take(i - start)[k]);
                    }
                }
                if all_digits(d) {
                    lemma_dec_value_prefix_le(d, i - start + 1);
                }
            }
            return None;
        }
        proof {
            assert(acc * 10 + dv <= max) by (nonlinear_arith)
                requires
                    acc <= (max - dv) / 10,
                    dv <= 9,
            ;
        }
        acc = acc * 10 + dv;
        i = i + 1;
        proof {
            assert forall|k: int| 0 <= k < i - start implies is_ascii_digit(
                #[trigger] d.take(i - start)[k],
            ) by {
                if k < i - start - 1 {
                    assert(d.take(i - start)[k] == d.take(i - start - 1)[k]);
                }
            }
        }
    }
    assert(d.take(i - start) =~= d);
    Some(acc)
}

// ---------------------------------------------------------------------
// Decimal rendering
// ---------------------------------------------------------------------

pub open spec fn digit_char(d: nat) -> char {
    (48 + d) as char
}

/// The decimal digits of `n`, as `u64::to_string` writes them.
pub open spec fn dec_digits(n: nat) -> Seq<char>
    decreases n,
{
    if n < 10 {
        seq![digit_char(n)]
    } else {
        dec_digits(n / 10).push(digit_char(n % 10))
    }
}

/// The decimal rendering of `n`.
pub fn u64_to_text(n: u64) -> (s: String)
    ensures
        s@ == dec_digits(n as nat),
{
    let mut rev: Vec<char> = Vec::new();
    let mut m = n;
    while m >= 10
        invariant
            dec_digits(n as nat) == dec_digits(m as nat) + rev@.reverse(),
        decreases m,
    {
        let d = (m % 10) as u8;
        let c = (48u8 + d) as char;
        let ghost old_rev = rev@;
        rev.push(c);
        proof {
            assert(c == digit_char((m % 10) as nat));
            assert(rev@.reverse() =~= seq![c] + old_rev.reverse());
            assert(dec_digits(m as nat) == dec_digits((m / 10) as nat).push(c));
            assert(dec_digits((m / 10) as nat).push(c) + old_rev.reverse() =~= dec_digits(
                (m / 10) as nat,
            ) + rev@.reverse());
        }
        m = m / 10;
    }
    let c = (48u8 + m as u8) as char;
    let ghost old_rev = rev@;
    rev.push(c);
    proof {
        assert(c == digit_char(m as nat));
        assert(rev@.reverse() =~= seq![c] + old_rev.reverse());
        assert(dec_digits(m as nat) =~= seq![c]);
    }
    let mut s = String::new();
    let mut k = rev.len();
    let ghost full = rev@.reverse();
    while k > 0
        invariant
            k <= rev@.len(),
            full == rev@.reverse(),
            s@ == full.take(rev@.len() - k),
        decreases k,
    {
        k = k - 1;
        push_char(&mut s, rev[k]);
        proof {
            assert(full[rev@.len() - k - 1] == rev@[k as int]);
            assert(s@ =~= full.take(rev@.len() - k));
        }
    }
    proof {
        assert(s@ =~= full);
    }
    s
}

/// The decimal digits of a number are digits, and read back as the
/// number.
pub proof fn lemma_dec_digits_value(n: nat)
    ensures
        dec_digits(n).len() > 0,
        all_digits(dec_digits(n)),
        dec_value(dec_digits(n)) == n,
        forall|i: int| 0 <= i < dec_digits(n).len() ==> !is_ws(#[trigger] dec_digits(n)[i]),
    decreases n,
{
    if n < 10 {
        let c = digit_char(n);
        assert(c as u32 == 48 + n);
        assert(dec_digits(n) =~= seq![c]);
        assert(dec_digits(n).drop_last() =~= Seq::<char>::empty());
        assert(dec_value(Seq::<char>::empty()) == 0);
        assert(digit_value(c) == n);
        assert(dec_value(dec_digits(n)) == dec_value(dec_digits(n).drop_last()) * 10 + digit_value(
            dec_digits(n).last(),
        ));
    } else {
        lemma_dec_digits_value(n / 10);
        let d = dec_digits(n);
        let c = digit_char(n % 10);
        assert(c as u32 == 48 + n % 10);
        assert(d.drop_last() =~= dec_digits(n / 10));
        assert(d.last() == c);
        assert forall|i: int| 0 <= i < d.len() implies is_ascii_digit(#[trigger] d[i]) && !is_ws(
            d[i],
        ) by {
            if i < d.len() - 1 {
                assert(d[i] == dec_digits(n / 10)[i]);
            }
        }
        assert(n == (n / 10) * 10 + n % 10);
        assert(digit_value(c) == n % 10);
        assert(dec_value(d) == dec_value(d.drop_last()) * 10 + digit_value(d.last()));
    }
}

/// `str::parse` reads back what `to_string` wrote, for values up to `max`.
pub proof fn lemma_parse_dec_digits(n: nat, max: nat)
    requires
        n <= max,
    ensures
        parse_unsigned(dec_digits(n), max) == Some(n),
{
    lemma_dec_digits_value(n);
    assert(is_ascii_digit(dec_digits(n)[0]));
}

/// Digits have no surrounding whitespace to trim.
pub proof fn lemma_trim_dec_digits(n: nat)
    ensures
        trim(dec_digits(n)) == dec_digits(n),
{
    let d = dec_digits(n);
    lemma_dec_digits_value(n);
    lemma_leading_ws(d, 0);
    assert(d.skip(0) =~= d);
    lemma_trailing_ws(d, d.len() as int);
    assert(d.take(d.len() as int) =~= d);
}

/// Two whitespace-free, non-empty words joined by one space split back
/// into those two words.
pub proof fn lemma_words_two(a: Seq<char>, b: Seq<char>)
    requires
        a.len() > 0,
        b.len() > 0,
        forall|i: int| 0 <= i < a.len() ==> !is_ws(#[trigger] a[i]),
        forall|i: int| 0 <= i < b.len() ==> !is_ws(#[trigger] b[i]),
    ensures
        words(a + seq![' '] + b) == seq![a, b],
{
    let line = a + seq![' '] + b;
    assert(is_ws(' '));
    assert forall|k: int| 0 <= k < a.len() implies !is_ws(line[k]) by {
        assert(line[k] == a[k]);
    }
    assert(line[a.len() as int] == ' ');
    lemma_word_len(line, a.len() as int);
    assert(line.take(a.len() as int) =~= a);
    let rest = line.skip(a.len() as int);
    assert(rest =~= seq![' '] + b);
    assert(rest.drop_first() =~= b);
    lemma_word_len(b, b.len() as int);
    assert(b.take(b.len() as int) =~= b);
    assert(b.skip(b.len() as int) =~= Seq::<char>::empty());
    assert(words(b.skip(b.len() as int)) == Seq::<Seq<char>>::empty());
    assert(!is_ws(b[0]));
    assert(words(b) == seq![b.take(word_len(b) as int)] + words(b.skip(word_len(b) as int)));
    assert(words(b) =~= seq![b]);
    assert(words(rest) == words(b));
    assert(words(line) =~= seq![a] + seq![b]);
}

// ---------------------------------------------------------------------
// ASCII case
// ---------------------------------------------------------------------

pub open spec fn ascii_lower(c: char) -> char {
    if 'A' <= c && c <= 'Z' {
        ((c as u32) + 32) as char
    } else {
        c
    }
}

/// `str::eq_ignore_ascii_case`.
pub open spec fn eq_ignore_ascii_case(a: Seq<char>, b: Seq<char>) -> bool {
    a.len() == b.len() && forall|i: int| 0 <= i < a.len() ==> ascii_lower(a[i]) == ascii_lower(b[i])
}

fn lower(c: char) -> (r: char)
    ensures
        r == ascii_lower(c),
{
    if 'A' <= c && c <= 'Z' {
        ((c as u8) + 32) as char
    } else {
        c
    }
}

pub fn eq_ignore_case(a: &str, b: &str) -> (r: bool)
    ensures
        r == eq_ignore_ascii_case(a@, b@),
{
    let av = to_chars(a);
    let bv = to_chars(b);
    if av.len() != bv.len() {
        return false;
    }
    let mut i: usize = 0;
    while i < av.len()
        invariant
            av@ == a@,
            bv@ == b@,
            av@.len() == bv@.len(),
            i <= av@.len(),
            forall|j: int| 0 <= j < i ==> ascii_lower(a@[j]) == ascii_lower(b@[j]),
        decreases av@.len() - i,
    {
        if lower(av[i]) != lower(bv[i]) {
            return false;
        }
        i = i + 1;
    }
    true
}


// ---------------------------------------------------------------------
// Exit codes as `{:?}` prints them
// ---------------------------------------------------------------------

/// The decimal rendering of a signed integer.
pub open spec fn int_text(n: int) -> Seq<char> {
    if n < 0 {
        "-"@ + dec_digits((-n) as nat)
    } else {
        dec_digits(n as nat)
    }
}

/// How `{:?}` prints an optional exit code: `Some(3)`, `Some(-1)`, `None`.
pub open spec fn exit_code_debug(code: Option<i32>) -> Seq<char> {
    match code {
        Some(c) => "Some("@ + int_text(c as int) + ")"@,
        None => "None"@,
    }
}

pub fn exit_code_text(code: Option<i32>) -> (s: String)
    ensures
        s@ == exit_code_debug(code),
{
    match code {
        Some(c) => {
            let mut s = String::from_str("Some(");
            if c < 0 {
                let m: u64 = (0i64 - (c as i64)) as u64;
                s.append("-");
                let d = u64_to_text(m);
                s.append(d.as_str());
            } else {
                let d = u64_to_text(c as u64);
                s.append(d.as_str());
            }
            s.append(")");
            s
        },
        None => String::from_str("None"),
    }
}

/// Floor division pins its quotient: `q = x / d` is the one number with
/// `q * d <= x < (q + 1) * d`.
pub proof fn lemma_div_bounds(x: nat, d: nat)
    requires
        d > 0,
    ensures
        (x / d) * d <= x,
        x < (x / d + 1) * d,
{
    vstd::arithmetic::div_mod::lemma_fundamental_div_mod(x as int, d as int);
    assert((x / d + 1) * d == (x / d) * d + d) by (nonlinear_arith);
    assert((x / d) * d == d * (x / d)) by (nonlinear_arith);
}

} // verus!
