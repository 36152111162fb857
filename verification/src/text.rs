//! Character-level text utilities with exact specifications.
//!
//! Text is handled as sequences of `char`; every function here states its
//! result over `Seq<char>` so that callers can reason about what they read.
use vstd::prelude::*;

verus! {

// ---------------------------------------------------------------------------
// Specifications
// ---------------------------------------------------------------------------

/// `c` is a Unicode `White_Space` character (what `char::is_whitespace` tests).
pub open spec fn is_ws(c: char) -> bool {
    ||| c == '\t' || c == '\n' || c == '\u{0B}' || c == '\u{0C}' || c == '\r' || c == ' '
    ||| c == '\u{85}' || c == '\u{A0}' || c == '\u{1680}'
    ||| ('\u{2000}' <= c && c <= '\u{200A}')
    ||| c == '\u{2028}' || c == '\u{2029}' || c == '\u{202F}' || c == '\u{205F}' || c == '\u{3000}'
}

/// `s` with its leading white space removed.
pub open spec fn trim_start(s: Seq<char>) -> Seq<char>
    decreases s.len(),
{
    if s.len() > 0 && is_ws(s[0]) {
        trim_start(s.drop_first())
    } else {
        s
    }
}

/// `s` with its trailing white space removed.
pub open spec fn trim_end(s: Seq<char>) -> Seq<char>
    decreases s.len(),
{
    if s.len() > 0 && is_ws(s.last()) {
        trim_end(s.drop_last())
    } else {
        s
    }
}

/// `s` with white space removed at both ends (what `str::trim` returns).
pub open spec fn trim(s: Seq<char>) -> Seq<char> {
    trim_end(trim_start(s))
}

/// `p` is a prefix of `s`.
pub open spec fn starts_with(s: Seq<char>, p: Seq<char>) -> bool {
    p.len() <= s.len() && s.take(p.len() as int) == p
}

/// `p` is a suffix of `s`.
pub open spec fn ends_with(s: Seq<char>, p: Seq<char>) -> bool {
    p.len() <= s.len() && s.skip(s.len() - p.len()) == p
}

/// `p` occurs in `s` starting at position `i`.
pub open spec fn occurs_at(s: Seq<char>, p: Seq<char>, i: int) -> bool {
    0 <= i && i + p.len() <= s.len() && s.subrange(i, i + p.len()) == p
}

/// `p` occurs somewhere in `s` (what `str::contains` tests).
pub open spec fn contains(s: Seq<char>, p: Seq<char>) -> bool {
    exists|i: int| occurs_at(s, p, i)
}

/// Number of non-overlapping occurrences of the non-empty `p` in `s`,
/// found from left to right (what `str::matches(p).count()` returns).
pub open spec fn count_matches(s: Seq<char>, p: Seq<char>) -> nat
    decreases s.len(),
{
    if p.len() == 0 || s.len() < p.len() {
        0
    } else if s.take(p.len() as int) == p {
        1 + count_matches(s.skip(p.len() as int), p)
    } else {
        count_matches(s.drop_first(), p)
    }
}

/// Number of occurrences of the character `c` in `s`.
pub open spec fn count_char(s: Seq<char>, c: char) -> nat
    decreases s.len(),
{
    if s.len() == 0 {
        0
    } else {
        (if s.last() == c { 1nat } else { 0nat }) + count_char(s.drop_last(), c)
    }
}

/// Position of the first `c` in `s`, or `s.len()` when there is none.
pub open spec fn first_index_of(s: Seq<char>, c: char) -> int
    decreases s.len(),
{
    if s.len() == 0 {
        0
    } else if s[0] == c {
        0
    } else {
        1 + first_index_of(s.drop_first(), c)
    }
}

/// One line as `str::lines` gives it: the line break `\n` is dropped, and a
/// `\r` right before it with it.
pub open spec fn strip_cr(s: Seq<char>) -> Seq<char> {
    if s.len() > 0 && s.last() == '\r' {
        s.drop_last()
    } else {
        s
    }
}

/// The lines of `s`, as `str::lines` yields them.
pub open spec fn lines(s: Seq<char>) -> Seq<Seq<char>>
    decreases s.len(),
{
    if s.len() == 0 {
        Seq::empty()
    } else {
        let i = first_index_of(s, '\n');
        proof {
            lemma_first_index_of_bounds(s, '\n');
        }
        if i >= s.len() {
            seq![s]
        } else {
            seq![strip_cr(s.take(i))] + lines(s.skip(i + 1))
        }
    }
}

// ---------------------------------------------------------------------------
// Lemmas
// ---------------------------------------------------------------------------

pub proof fn lemma_first_index_of_bounds(s: Seq<char>, c: char)
    ensures
        0 <= first_index_of(s, c) <= s.len(),
        first_index_of(s, c) < s.len() ==> s[first_index_of(s, c)] == c,
        forall|j: int| 0 <= j < first_index_of(s, c) ==> s[j] != c,
    decreases s.len(),
{
    if s.len() > 0 && s[0] != c {
        lemma_first_index_of_bounds(s.drop_first(), c);
        assert forall|j: int| 0 <= j < first_index_of(s, c) implies s[j] != c by {
            if j > 0 {
                assert(s[j] == s.drop_first()[j - 1]);
            }
        }
    }
}

pub proof fn lemma_first_index_of_shift(s: Seq<char>, c: char, k: int)
    requires
        0 <= k <= s.len(),
        forall|j: int| 0 <= j < k ==> s[j] != c,
    ensures
        first_index_of(s, c) == k + first_index_of(s.skip(k), c),
    decreases k,
{
    if k > 0 {
        assert(s[0] != c);
        assert forall|j: int| 0 <= j < k - 1 implies s.drop_first()[j] != c by {
            assert(s.drop_first()[j] == s[j + 1]);
        }
        lemma_first_index_of_shift(s.drop_first(), c, k - 1);
        assert(s.drop_first().skip(k - 1) =~= s.skip(k));
    } else {
        assert(s.skip(0) =~= s);
    }
}

// ---------------------------------------------------------------------------
// Executable functions
// ---------------------------------------------------------------------------

/// The characters of `s`, in order.
pub fn to_chars(s: &str) -> (r: Vec<char>)
    ensures
        r@ == s@,
{
    let mut r: Vec<char> = Vec::new();
    for c in it: s.chars()
        invariant
            r@ == it.seq().take(it.index() as int),
    {
        r.push(c);
    }
    r
}

/// Appends `c` to `s` (`String::push`).
#[verifier::external_body]
pub(crate) fn push_char(s: &mut String, c: char)
    ensures
        final(s)@ == old(s)@.push(c),
{
    s.push(c);
}

/// Appends `t` to `s`.
pub(crate) fn push_str(s: &mut String, t: &str)
    ensures
        final(s)@ == old(s)@ + t@,
{
    s.append(t);
}

/// A string made of the characters of `v`.
pub fn from_chars(v: &[char]) -> (r: String)
    ensures
        r@ == v@,
{
    let mut r = String::new();
    let n = v.len();
    for i in 0..n
        invariant
            n == v@.len(),
            r@ == v@.take(i as int),
    {
        push_char(&mut r, v[i]);
        assert(v@.take(i + 1) =~= v@.take(i as int).push(v@[i as int]));
    }
    assert(v@.take(n as int) =~= v@);
    r
}

/// A string made of the characters `v[lo..hi]`.
pub fn from_char_range(v: &[char], lo: usize, hi: usize) -> (r: String)
    requires
        lo <= hi <= v@.len(),
    ensures
        r@ == v@.subrange(lo as int, hi as int),
{
    let mut r = String::new();
    let mut i = lo;
    while i < hi
        invariant
            lo <= i <= hi <= v@.len(),
            r@ == v@.subrange(lo as int, i as int),
        decreases hi - i,
    {
        push_char(&mut r, v[i]);
        assert(v@.subrange(lo as int, i + 1) =~= v@.subrange(lo as int, i as int).push(v@[i as int]));
        i = i + 1;
    }
    r
}

/// The characters `v[lo..hi]` as a new vector.
pub fn sub_chars(v: &[char], lo: usize, hi: usize) -> (r: Vec<char>)
    requires
        lo <= hi <= v@.len(),
    ensures
        r@ == v@.subrange(lo as int, hi as int),
{
    let mut r: Vec<char> = Vec::new();
    let mut i = lo;
    while i < hi
        invariant
            lo <= i <= hi <= v@.len(),
            r@ == v@.subrange(lo as int, i as int),
        decreases hi - i,
    {
        r.push(v[i]);
        assert(v@.subrange(lo as int, i + 1) =~= v@.subrange(lo as int, i as int).push(v@[i as int]));
        i = i + 1;
    }
    r
}

/// `c` is white space (`char::is_whitespace`).
pub fn is_whitespace(c: char) -> (r: bool)
    ensures
        r == is_ws(c),
{
    c == '\t' || c == '\n' || c == '\u{0B}' || c == '\u{0C}' || c == '\r' || c == ' '
        || c == '\u{85}' || c == '\u{A0}' || c == '\u{1680}'
        || ('\u{2000}' <= c && c <= '\u{200A}')
        || c == '\u{2028}' || c == '\u{2029}' || c == '\u{202F}' || c == '\u{205F}' || c == '\u{3000}'
}

/// `p` occurs in `s` at position `i`.
pub fn occurs_at_exec(s: &[char], p: &[char], i: usize) -> (r: bool)
    ensures
        r == occurs_at(s@, p@, i as int),
{
    if i > s.len() || p.len() > s.len() - i {
        return false;
    }
    let n = p.len();
    for j in 0..n
        invariant
            n == p@.len(),
            s@.len() == s.len(),
            i + n <= s@.len(),
            forall|k: int| 0 <= k < j ==> s@[i + k] == p@[k],
    {
        if s[i + j] != p[j] {
            assert(s@.subrange(i as int, i + n)[j as int] != p@[j as int]);
            return false;
        }
    }
    assert(s@.subrange(i as int, i + n) =~= p@);
    true
}

/// `p` is a prefix of `s`.
pub fn starts_with_chars(s: &[char], p: &[char]) -> (r: bool)
    ensures
        r == starts_with(s@, p@),
{
    let r = occurs_at_exec(s, p, 0);
    assert(s@.subrange(0, p@.len() as int) =~= s@.take(p@.len() as int));
    r
}

/// `p` is a suffix of `s`.
pub fn ends_with_chars(s: &[char], p: &[char]) -> (r: bool)
    ensures
        r == ends_with(s@, p@),
{
    if p.len() > s.len() {
        return false;
    }
    let r = occurs_at_exec(s, p, s.len() - p.len());
    assert(s@.subrange(s@.len() - p@.len(), s@.len() as int) =~= s@.skip(s@.len() - p@.len()));
    r
}

/// `p` occurs somewhere in `s`.
pub fn contains_chars(s: &[char], p: &[char]) -> (r: bool)
    ensures
        r == contains(s@, p@),
{
    if p.len() > s.len() {
        assert forall|i: int| !occurs_at(s@, p@, i) by {}
        return false;
    }
    if p.len() == 0 {
        assert(s@.subrange(0, 0) =~= p@);
        assert(occurs_at(s@, p@, 0));
        return true;
    }
    let last = s.len() - p.len();
    let mut i: usize = 0;
    while i <= last
        invariant
            last == s@.len() - p@.len(),
            last < s@.len(),
            s@.len() == s.len(),
            i <= last + 1,
            forall|k: int| 0 <= k < i ==> !occurs_at(s@, p@, k),
        decreases last + 1 - i,
    {
        if occurs_at_exec(s, p, i) {
            return true;
        }
        i = i + 1;
    }
    assert forall|k: int| !occurs_at(s@, p@, k) by {
        if 0 <= k && k < i {
        }
    }
    false
}

/// `p` occurs somewhere in `s` (string arguments).
pub fn str_contains(s: &str, p: &str) -> (r: bool)
    ensures
        r == contains(s@, p@),
{
    let sc = to_chars(s);
    let pc = to_chars(p);
    contains_chars(sc.as_slice(), pc.as_slice())
}

/// `p` is a prefix of `s` (string arguments).
pub fn str_starts_with(s: &str, p: &str) -> (r: bool)
    ensures
        r == starts_with(s@, p@),
{
    let sc = to_chars(s);
    let pc = to_chars(p);
    starts_with_chars(sc.as_slice(), pc.as_slice())
}

/// `p` is a suffix of `s` (string arguments).
pub fn str_ends_with(s: &str, p: &str) -> (r: bool)
    ensures
        r == ends_with(s@, p@),
{
    let sc = to_chars(s);
    let pc = to_chars(p);
    ends_with_chars(sc.as_slice(), pc.as_slice())
}


/// The views of a sequence of character vectors.
pub open spec fn views(vs: Seq<Vec<char>>) -> Seq<Seq<char>> {
    vs.map_values(|v: Vec<char>| v@)
}

/// Index of the first character of `v` that is not white space (or `v.len()`).
pub fn skip_leading_ws(v: &[char]) -> (a: usize)
    ensures
        a <= v@.len(),
        trim_start(v@) == v@.skip(a as int),
{
    let mut a: usize = 0;
    assert(v@.skip(0) =~= v@);
    while a < v.len() && is_whitespace(v[a])
        invariant
            a <= v@.len(),
            trim_start(v@) == trim_start(v@.skip(a as int)),
        decreases v@.len() - a,
    {
        assert(v@.skip(a as int).drop_first() =~= v@.skip(a + 1));
        a = a + 1;
    }
    a
}

/// The bounds `(a, b)` with `v[a..b]` equal to `trim(v)`.
pub fn trim_bounds(v: &[char]) -> (r: (usize, usize))
    ensures
        r.0 <= r.1 <= v@.len(),
        v@.subrange(r.0 as int, r.1 as int) == trim(v@),
{
    let a = skip_leading_ws(v);
    let mut b: usize = v.len();
    assert(v@.subrange(a as int, b as int) =~= v@.skip(a as int));
    while b > a && is_whitespace(v[b - 1])
        invariant
            a <= b <= v@.len(),
            trim(v@) == trim_end(v@.subrange(a as int, b as int)),
        decreases b - a,
    {
        assert(v@.subrange(a as int, b as int).drop_last() =~= v@.subrange(a as int, b - 1));
        b = b - 1;
    }
    (a, b)
}

/// `trim(v)` as a new vector.
pub fn trim_chars(v: &[char]) -> (r: Vec<char>)
    ensures
        r@ == trim(v@),
{
    let (a, b) = trim_bounds(v);
    let mut r: Vec<char> = Vec::new();
    let mut i = a;
    while i < b
        invariant
            a <= i <= b <= v@.len(),
            r@ == v@.subrange(a as int, i as int),
        decreases b - i,
    {
        r.push(v[i]);
        assert(v@.subrange(a as int, i + 1) =~= v@.subrange(a as int, i as int).push(v@[i as int]));
        i = i + 1;
    }
    r
}

/// Position of the first `c` at or after `start` (or `v.len()`).
pub fn find_char_from(v: &[char], c: char, start: usize) -> (r: usize)
    requires
        start <= v@.len(),
    ensures
        r == start + first_index_of(v@.skip(start as int), c),
        start <= r <= v@.len(),
{
    let mut i = start;
    while i < v.len() && v[i] != c
        invariant
            start <= i <= v@.len(),
            forall|j: int| start <= j < i ==> v@[j] != c,
        decreases v@.len() - i,
    {
        i = i + 1;
    }
    proof {
        let t = v@.skip(start as int);
        assert forall|j: int| 0 <= j < i - start implies t[j] != c by {
            assert(t[j] == v@[start + j]);
        }
        lemma_first_index_of_shift(t, c, i - start);
        assert(t.skip(i - start) =~= v@.skip(i as int));
        let u = v@.skip(i as int);
        if i < v@.len() {
            assert(u[0] == c);
        }
    }
    i
}

/// `strip_cr(v[lo..hi])` as a new vector.
fn line_piece(v: &[char], lo: usize, hi: usize) -> (r: Vec<char>)
    requires
        lo <= hi <= v@.len(),
    ensures
        r@ == strip_cr(v@.subrange(lo as int, hi as int)),
{
    let end = if hi > lo && v[hi - 1] == '\r' { hi - 1 } else { hi };
    let mut r: Vec<char> = Vec::new();
    let mut i = lo;
    while i < end
        invariant
            lo <= i <= end <= hi <= v@.len(),
            r@ == v@.subrange(lo as int, i as int),
        decreases end - i,
    {
        r.push(v[i]);
        assert(v@.subrange(lo as int, i + 1) =~= v@.subrange(lo as int, i as int).push(v@[i as int]));
        i = i + 1;
    }
    assert(end < hi ==> v@.subrange(lo as int, hi as int).drop_last() =~= v@.subrange(lo as int, end as int));
    r
}

/// The lines of `v`, as `str::lines` yields them.
pub fn split_lines(v: &[char]) -> (r: Vec<Vec<char>>)
    ensures
        views(r@) == lines(v@),
{
    let mut r: Vec<Vec<char>> = Vec::new();
    let mut start: usize = 0;
    let n = v.len();
    assert(v@.skip(0) =~= v@);
    assert(views(r@) =~= Seq::<Seq<char>>::empty());
    while start < n
        invariant
            n == v@.len(),
            start <= n,
            lines(v@) == views(r@) + lines(v@.skip(start as int)),
        decreases n - start,
    {
        let ghost t = v@.skip(start as int);
        let j = find_char_from(v, '\n', start);
        let ghost old_r = views(r@);
        if j >= n {
            let mut piece2: Vec<char> = Vec::new();
            let mut k = start;
            while k < n
                invariant
                    start <= k <= n == v@.len(),
                    piece2@ == v@.subrange(start as int, k as int),
                decreases n - k,
            {
                piece2.push(v[k]);
                assert(v@.subrange(start as int, k + 1) =~= v@.subrange(start as int, k as int).push(v@[k as int]));
                k = k + 1;
            }
            r.push(piece2);
            proof {
                assert(v@.subrange(start as int, n as int) =~= t);
                assert(lines(t) == seq![t]);
                assert(views(r@) =~= old_r + seq![t]);
                assert(v@.skip(n as int) =~= Seq::<char>::empty());
                assert(lines(v@.skip(n as int)) == Seq::<Seq<char>>::empty());
                assert(old_r + seq![t] + Seq::<Seq<char>>::empty() =~= old_r + seq![t]);
            }
            start = n;
        } else {
            let piece = line_piece(v, start, j);
            r.push(piece);
            proof {
                let i = j - start;
                assert(t.take(i) =~= v@.subrange(start as int, j as int));
                assert(t.skip(i + 1) =~= v@.skip(j + 1));
                assert(lines(t) == seq![strip_cr(t.take(i))] + lines(t.skip(i + 1)));
                assert(views(r@) =~= old_r + seq![strip_cr(t.take(i))]);
                assert(old_r + (seq![strip_cr(t.take(i))] + lines(t.skip(i + 1)))
                    =~= (old_r + seq![strip_cr(t.take(i))]) + lines(t.skip(i + 1)));
            }
            start = j + 1;
        }
    }
    proof {
        assert(v@.skip(n as int) =~= Seq::<char>::empty());
        assert(views(r@) + Seq::<Seq<char>>::empty() =~= views(r@));
    }
    r
}

/// The lines of `s`, each as a vector of characters.
pub fn str_lines(s: &str) -> (r: Vec<Vec<char>>)
    ensures
        views(r@) == lines(s@),
{
    let v = to_chars(s);
    split_lines(v.as_slice())
}

/// Number of non-overlapping occurrences of the non-empty `p` in `s`.
pub fn count_matches_chars(s: &[char], p: &[char]) -> (r: usize)
    ensures
        r == count_matches(s@, p@),
{
    if p.len() == 0 {
        return 0;
    }
    let mut i: usize = 0;
    let mut cnt: usize = 0;
    let n = s.len();
    assert(s@.skip(0) =~= s@);
    while i < n
        invariant
            n == s@.len(),
            p@.len() > 0,
            i <= n,
            cnt <= i,
            count_matches(s@, p@) == cnt + count_matches(s@.skip(i as int), p@),
        decreases n - i,
    {
        let ghost t = s@.skip(i as int);
        if occurs_at_exec(s, p, i) {
            proof {
                assert(t.take(p@.len() as int) =~= s@.subrange(i as int, i + p@.len()));
                assert(t.skip(p@.len() as int) =~= s@.skip(i + p@.len()));
            }
            cnt = cnt + 1;
            i = i + p.len();
        } else {
            proof {
                if t.len() >= p@.len() {
                    assert(t.take(p@.len() as int) =~= s@.subrange(i as int, i + p@.len()));
                }
                assert(t.drop_first() =~= s@.skip(i + 1));
            }
            i = i + 1;
        }
    }
    proof {
        assert(s@.skip(i as int).len() == 0);
    }
    cnt
}

/// Number of non-overlapping occurrences of `p` in `s` (string arguments).
pub fn str_count_matches(s: &str, p: &str) -> (r: usize)
    ensures
        r == count_matches(s@, p@),
{
    let sc = to_chars(s);
    let pc = to_chars(p);
    count_matches_chars(sc.as_slice(), pc.as_slice())
}

/// Number of occurrences of `c` in `s`.
pub fn count_char_in(s: &[char], c: char) -> (r: usize)
    ensures
        r == count_char(s@, c),
{
    let mut cnt: usize = 0;
    let n = s.len();
    assert(s@.take(0) =~= Seq::<char>::empty());
    for i in 0..n
        invariant
            n == s@.len(),
            cnt <= i,
            cnt == count_char(s@.take(i as int), c),
    {
        assert(s@.take(i + 1).drop_last() =~= s@.take(i as int));
        if s[i] == c {
            cnt = cnt + 1;
        }
    }
    assert(s@.take(n as int) =~= s@);
    cnt
}

/// The decimal digit character for `d < 10`.
pub open spec fn digit_char(d: nat) -> char {
    if d == 0 { '0' } else if d == 1 { '1' } else if d == 2 { '2' } else if d == 3 { '3' }
    else if d == 4 { '4' } else if d == 5 { '5' } else if d == 6 { '6' } else if d == 7 { '7' }
    else if d == 8 { '8' } else { '9' }
}

/// The decimal representation of `n`, as `format!("{}", n)` writes it.
pub open spec fn decimal(n: nat) -> Seq<char>
    decreases n,
{
    if n < 10 {
        seq![digit_char(n)]
    } else {
        decimal(n / 10).push(digit_char(n % 10))
    }
}

fn digit(d: usize) -> (c: char)
    requires
        d < 10,
    ensures
        c == digit_char(d as nat),
{
    if d == 0 { '0' } else if d == 1 { '1' } else if d == 2 { '2' } else if d == 3 { '3' }
    else if d == 4 { '4' } else if d == 5 { '5' } else if d == 6 { '6' } else if d == 7 { '7' }
    else if d == 8 { '8' } else { '9' }
}

/// Appends the decimal representation of `n` to `s`.
pub fn push_decimal(s: &mut String, n: usize)
    ensures
        final(s)@ == old(s)@ + decimal(n as nat),
    decreases n,
{
    if n >= 10 {
        push_decimal(s, n / 10);
    }
    push_char(s, digit(n % 10));
    proof {
        if n >= 10 {
            assert(old(s)@ + decimal(n as nat) =~= (old(s)@ + decimal((n / 10) as nat)).push(digit_char((n % 10) as nat)));
        } else {
            assert(old(s)@ + decimal(n as nat) =~= old(s)@.push(digit_char(n as nat)));
        }
    }
}

/// Appends the decimal representation of the 64-bit `n` to `s`.
pub fn push_decimal_u64(s: &mut String, n: u64)
    ensures
        final(s)@ == old(s)@ + decimal(n as nat),
    decreases n,
{
    if n >= 10 {
        push_decimal_u64(s, n / 10);
    }
    let d = (n % 10) as usize;
    push_char(s, digit(d));
    proof {
        if n >= 10 {
            assert(old(s)@ + decimal(n as nat) =~= (old(s)@ + decimal((n / 10) as nat)).push(digit_char((n % 10) as nat)));
        } else {
            assert(old(s)@ + decimal(n as nat) =~= old(s)@.push(digit_char(n as nat)));
        }
    }
}

/// The decimal representation of `n` as a string.
pub fn usize_to_string(n: usize) -> (r: String)
    ensures
        r@ == decimal(n as nat),
{
    let mut r = String::new();
    push_decimal(&mut r, n);
    assert(Seq::<char>::empty() + decimal(n as nat) =~= decimal(n as nat));
    r
}

/// An owned copy of `t`.
pub fn owned(t: &str) -> (r: String)
    ensures
        r@ == t@,
{
    let mut r = String::new();
    push_str(&mut r, t);
    assert(Seq::<char>::empty() + t@ =~= t@);
    r
}

/// `s` with every `from` replaced by `to`.
pub open spec fn replace_char(s: Seq<char>, from: char, to: char) -> Seq<char> {
    s.map_values(|c: char| if c == from { to } else { c })
}

/// `s` with every `from` replaced by `to`.
pub fn replace_char_in(s: &[char], from: char, to: char) -> (r: Vec<char>)
    ensures
        r@ == replace_char(s@, from, to),
{
    let mut r: Vec<char> = Vec::new();
    let n = s.len();
    for i in 0..n
        invariant
            n == s@.len(),
            r@ == replace_char(s@.take(i as int), from, to),
    {
        let c = s[i];
        r.push(if c == from { to } else { c });
        assert(replace_char(s@.take(i + 1), from, to) =~= replace_char(s@.take(i as int), from, to).push(if c == from { to } else { c }));
    }
    assert(s@.take(n as int) =~= s@);
    r
}

/// Upper bound on the length of texts handled by the analyses: a `char`
/// takes four bytes, so no text in memory is longer.
pub open spec fn text_fits(s: Seq<char>) -> bool {
    s.len() < usize::MAX / 8
}

/// `a` and `b` hold the same characters.
pub fn chars_eq(a: &[char], b: &[char]) -> (r: bool)
    ensures
        r == (a@ == b@),
{
    if a.len() != b.len() {
        return false;
    }
    let n = a.len();
    for i in 0..n
        invariant
            n == a@.len(),
            n == b@.len(),
            forall|k: int| 0 <= k < i ==> a@[k] == b@[k],
    {
        if a[i] != b[i] {
            return false;
        }
    }
    assert(a@ =~= b@);
    true
}

/// `a` and `b` hold the same characters (string arguments).
pub fn str_eq(a: &str, b: &str) -> (r: bool)
    ensures
        r == (a@ == b@),
{
    let ac = to_chars(a);
    let bc = to_chars(b);
    chars_eq(ac.as_slice(), bc.as_slice())
}

/// `s` repeated `n` times.
pub open spec fn repeat(s: Seq<char>, n: nat) -> Seq<char>
    decreases n,
{
    if n == 0 {
        Seq::empty()
    } else {
        repeat(s, (n - 1) as nat) + s
    }
}

/// Appends `t` repeated `n` times to `s`.
pub fn push_repeat(s: &mut String, t: &str, n: usize)
    ensures
        final(s)@ == old(s)@ + repeat(t@, n as nat),
{
    let ghost s0 = s@;
    assert(s0 + repeat(t@, 0) =~= s0);
    for i in 0..n
        invariant
            s@ == s0 + repeat(t@, i as nat),
    {
        push_str(s, t);
        assert(s0 + repeat(t@, (i + 1) as nat) =~= s0 + repeat(t@, i as nat) + t@);
    }
}

/// `p` occurs in `t`.
pub fn has_text(t: &[char], p: &str) -> (r: bool)
    ensures
        r == contains(t@, p@),
{
    let pc = to_chars(p);
    contains_chars(t, pc.as_slice())
}

/// `p` is a prefix of `t`.
pub fn begins(t: &[char], p: &str) -> (r: bool)
    ensures
        r == starts_with(t@, p@),
{
    let pc = to_chars(p);
    starts_with_chars(t, pc.as_slice())
}

/// `p` is a suffix of `t`.
pub fn finishes(t: &[char], p: &str) -> (r: bool)
    ensures
        r == ends_with(t@, p@),
{
    let pc = to_chars(p);
    ends_with_chars(t, pc.as_slice())
}

/// Number of non-overlapping occurrences of `p` in `t`.
pub fn count_in(t: &[char], p: &str) -> (r: usize)
    ensures
        r == count_matches(t@, p@),
{
    let pc = to_chars(p);
    count_matches_chars(t, pc.as_slice())
}

/// Appends the characters of `v` to `s`.
pub fn push_chars(s: &mut String, v: &[char])
    ensures
        final(s)@ == old(s)@ + v@,
{
    let ghost s0 = s@;
    let n = v.len();
    assert(s0 + v@.take(0) =~= s0);
    for i in 0..n
        invariant
            n == v@.len(),
            s@ == s0 + v@.take(i as int),
    {
        push_char(s, v[i]);
        assert(s0 + v@.take(i + 1) =~= (s0 + v@.take(i as int)).push(v@[i as int]));
    }
    assert(v@.take(n as int) =~= v@);
}

pub proof fn lemma_count_matches_le(s: Seq<char>, p: Seq<char>)
    ensures
        count_matches(s, p) <= s.len(),
    decreases s.len(),
{
    if p.len() == 0 || s.len() < p.len() {
    } else if s.take(p.len() as int) == p {
        lemma_count_matches_le(s.skip(p.len() as int), p);
    } else {
        lemma_count_matches_le(s.drop_first(), p);
    }
}

pub proof fn lemma_count_char_le(s: Seq<char>, c: char)
    ensures
        count_char(s, c) <= s.len(),
    decreases s.len(),
{
    if s.len() > 0 {
        lemma_count_char_le(s.drop_last(), c);
    }
}

/// Index of the first line of `ls` for which `pred` holds, if any.
pub open spec fn first_line_where(ls: Seq<Seq<char>>, pred: spec_fn(Seq<char>) -> bool) -> Option<nat>
    decreases ls.len(),
{
    if ls.len() == 0 {
        None
    } else if pred(ls[0]) {
        Some(0)
    } else {
        match first_line_where(ls.drop_first(), pred) {
            Some(i) => Some(i + 1),
            None => None,
        }
    }
}

/// Some pattern of `ps` occurs in `l`.
pub open spec fn contains_any(l: Seq<char>, ps: Seq<Seq<char>>) -> bool {
    exists|k: int| 0 <= k < ps.len() && contains(l, #[trigger] ps[k])
}

pub open spec fn str_views(ps: Seq<&str>) -> Seq<Seq<char>> {
    ps.map_values(|p: &str| p@)
}

/// Some pattern of `pats` occurs in `t`.
pub fn has_any(t: &[char], pats: &[&str]) -> (r: bool)
    ensures
        r == contains_any(t@, str_views(pats@)),
{
    let n = pats.len();
    let ghost ps = str_views(pats@);
    for k in 0..n
        invariant
            n == pats@.len(),
            ps == str_views(pats@),
            forall|j: int| 0 <= j < k ==> !contains(t@, #[trigger] ps[j]),
    {
        if has_text(t, pats[k]) {
            assert(contains(t@, ps[k as int]));
            return true;
        }
    }
    false
}

/// Index of the first line that holds one of `pats`.
pub fn first_line_with_any(ls: &Vec<Vec<char>>, pats: &[&str]) -> (r: Option<usize>)
    ensures
        r matches Some(i) ==> i < ls@.len(),
        match first_line_where(views(ls@), |l: Seq<char>| contains_any(l, str_views(pats@))) {
            Some(i) => i < ls@.len() && r == Some(i as usize),
            None => r is None,
        },
{
    let n = ls.len();
    let ghost vl = views(ls@);
    let ghost pred = |l: Seq<char>| contains_any(l, str_views(pats@));
    assert(vl.skip(0) =~= vl);
    for i in 0..n
        invariant
            n == ls@.len(),
            vl == views(ls@),
            pred == (|l: Seq<char>| contains_any(l, str_views(pats@))),
            first_line_where(vl, pred) == match first_line_where(vl.skip(i as int), pred) {
                Some(j) => Some((j + i) as nat),
                None => None::<nat>,
            },
    {
        assert(vl.skip(i as int)[0] == ls@[i as int]@);
        if has_any(ls[i].as_slice(), pats) {
            return Some(i);
        }
        assert(vl.skip(i as int).drop_first() =~= vl.skip(i + 1));
    }
    assert(vl.skip(n as int).len() == 0);
    None
}

pub proof fn lemma_lines_len(s: Seq<char>)
    ensures
        lines(s).len() <= s.len(),
    decreases s.len(),
{
    if s.len() > 0 {
        let i = first_index_of(s, '\n');
        lemma_first_index_of_bounds(s, '\n');
        if i < s.len() {
            lemma_lines_len(s.skip(i + 1));
        }
    }
}

/// Total length of the sequences of `ls`.
pub open spec fn sum_lens(ls: Seq<Seq<char>>) -> nat
    decreases ls.len(),
{
    if ls.len() == 0 {
        0
    } else {
        sum_lens(ls.drop_last()) + ls.last().len()
    }
}

pub proof fn lemma_sum_lens_concat(a: Seq<Seq<char>>, b: Seq<Seq<char>>)
    ensures
        sum_lens(a + b) == sum_lens(a) + sum_lens(b),
    decreases b.len(),
{
    if b.len() == 0 {
        assert(a + b =~= a);
    } else {
        lemma_sum_lens_concat(a, b.drop_last());
        assert((a + b).drop_last() =~= a + b.drop_last());
    }
}

pub proof fn lemma_sum_lens_take(ls: Seq<Seq<char>>, i: int)
    requires
        0 <= i <= ls.len(),
    ensures
        sum_lens(ls.take(i)) <= sum_lens(ls),
{
    lemma_sum_lens_concat(ls.take(i), ls.skip(i));
    assert(ls.take(i) + ls.skip(i) =~= ls);
}

pub proof fn lemma_lines_sum_lens(s: Seq<char>)
    ensures
        sum_lens(lines(s)) <= s.len(),
    decreases s.len(),
{
    reveal_with_fuel(sum_lens, 2);
    if s.len() > 0 {
        let i = first_index_of(s, '\n');
        lemma_first_index_of_bounds(s, '\n');
        if i >= s.len() {
            assert(seq![s].drop_last() =~= Seq::<Seq<char>>::empty());
            assert(lines(s) == seq![s]);
            assert(sum_lens(seq![s]) == s.len());
        } else {
            lemma_lines_sum_lens(s.skip(i + 1));
            let head: Seq<Seq<char>> = seq![strip_cr(s.take(i))];
            lemma_sum_lens_concat(head, lines(s.skip(i + 1)));
            assert(head.drop_last() =~= Seq::<Seq<char>>::empty());
            assert(lines(s) == head + lines(s.skip(i + 1)));
            assert(sum_lens(head) == strip_cr(s.take(i)).len());
            assert(strip_cr(s.take(i)).len() <= i);
        }
    }
}

/// Start of the white-space-delimited word that ends at position `k` of `t`.
pub open spec fn word_start(t: Seq<char>, k: int) -> int
    decreases k,
{
    if k <= 0 {
        0
    } else if is_ws(t[k - 1]) {
        k
    } else {
        word_start(t, k - 1)
    }
}

/// Start of the word of `t` that ends at position `k`.
pub fn word_start_exec(t: &[char], k: usize) -> (r: usize)
    requires
        k <= t@.len(),
    ensures
        r as int == word_start(t@, k as int),
        r <= k,
{
    let mut j = k;
    while j > 0 && !is_whitespace(t[j - 1])
        invariant
            j <= k <= t@.len(),
            word_start(t@, k as int) == word_start(t@, j as int),
        decreases j,
    {
        j = j - 1;
    }
    j
}

pub proof fn lemma_trim_start_len(s: Seq<char>)
    ensures
        trim_start(s).len() <= s.len(),
    decreases s.len(),
{
    if s.len() > 0 && is_ws(s[0]) {
        lemma_trim_start_len(s.drop_first());
    }
}

pub proof fn lemma_trim_end_len(s: Seq<char>)
    ensures
        trim_end(s).len() <= s.len(),
    decreases s.len(),
{
    if s.len() > 0 && is_ws(s.last()) {
        lemma_trim_end_len(s.drop_last());
    }
}

pub proof fn lemma_trim_len(s: Seq<char>)
    ensures
        trim(s).len() <= s.len(),
{
    lemma_trim_start_len(s);
    lemma_trim_end_len(trim_start(s));
}

/// Position of the first occurrence of the non-empty `p` in `s`, or `s.len()`.
pub open spec fn find_sub(s: Seq<char>, p: Seq<char>) -> nat
    decreases s.len(),
{
    if p.len() == 0 || p.len() > s.len() {
        s.len()
    } else if s.take(p.len() as int) == p {
        0
    } else {
        1 + find_sub(s.drop_first(), p)
    }
}

/// The part of `s` before the first `p` (what `s.split(p).next()` gives).
pub open spec fn before_first(s: Seq<char>, p: Seq<char>) -> Seq<char> {
    s.take(find_sub(s, p) as int)
}

/// `s` with every leading `p` removed (`str::trim_start_matches`).
pub open spec fn trim_start_matches(s: Seq<char>, p: Seq<char>) -> Seq<char>
    decreases s.len(),
{
    if p.len() > 0 && starts_with(s, p) {
        trim_start_matches(s.skip(p.len() as int), p)
    } else {
        s
    }
}

/// `s` with every trailing `p` removed (`str::trim_end_matches`).
pub open spec fn trim_end_matches(s: Seq<char>, p: Seq<char>) -> Seq<char>
    decreases s.len(),
{
    if p.len() > 0 && ends_with(s, p) {
        trim_end_matches(s.take(s.len() - p.len()), p)
    } else {
        s
    }
}

/// `s` with every non-overlapping `p` (left to right) replaced by `r` (`str::replace`).
pub open spec fn replace_all(s: Seq<char>, p: Seq<char>, r: Seq<char>) -> Seq<char>
    decreases s.len(),
{
    if p.len() == 0 || p.len() > s.len() {
        s
    } else if s.take(p.len() as int) == p {
        r + replace_all(s.skip(p.len() as int), p, r)
    } else {
        seq![s[0]] + replace_all(s.drop_first(), p, r)
    }
}

pub proof fn lemma_find_sub_le(s: Seq<char>, p: Seq<char>)
    ensures
        find_sub(s, p) <= s.len(),
    decreases s.len(),
{
    if p.len() == 0 || p.len() > s.len() {
    } else if s.take(p.len() as int) == p {
    } else {
        lemma_find_sub_le(s.drop_first(), p);
    }
}

/// Where `find_sub` finds `p`, `p` occurs.
pub proof fn lemma_find_sub_found(s: Seq<char>, p: Seq<char>)
    ensures
        find_sub(s, p) < s.len() ==> p.len() > 0 && find_sub(s, p) + p.len() <= s.len()
            && s.subrange(find_sub(s, p) as int, (find_sub(s, p) + p.len()) as int) == p,
    decreases s.len(),
{
    if p.len() == 0 || p.len() > s.len() {
    } else if s.take(p.len() as int) == p {
        assert(s.subrange(0, p.len() as int) =~= s.take(p.len() as int));
    } else {
        lemma_find_sub_found(s.drop_first(), p);
        let k = find_sub(s.drop_first(), p);
        if k < s.drop_first().len() {
            assert(s.subrange((k + 1) as int, (k + 1 + p.len()) as int) =~= s.drop_first().subrange(k as int, (k + p.len()) as int));
        }
    }
}

/// Position of the first `p` in `s` (or `s.len()`).
pub fn find_sub_exec(s: &[char], p: &[char]) -> (r: usize)
    ensures
        r as nat == find_sub(s@, p@),
        r <= s@.len(),
{
    proof { lemma_find_sub_le(s@, p@); }
    if p.len() == 0 || p.len() > s.len() {
        return s.len();
    }
    let mut i: usize = 0;
    let last = s.len() - p.len();
    assert(s@.skip(0) =~= s@);
    while i <= last
        invariant
            p@.len() > 0,
            last == s@.len() - p@.len(),
            last < s@.len(),
            s@.len() == s.len(),
            i <= last + 1,
            find_sub(s@, p@) == i + find_sub(s@.skip(i as int), p@),
        decreases last + 1 - i,
    {
        let ghost t = s@.skip(i as int);
        if occurs_at_exec(s, p, i) {
            assert(t.take(p@.len() as int) =~= s@.subrange(i as int, i + p@.len()));
            return i;
        }
        assert(t.take(p@.len() as int) =~= s@.subrange(i as int, i + p@.len()));
        assert(t.drop_first() =~= s@.skip(i + 1));
        i = i + 1;
    }
    proof {
        let t = s@.skip(i as int);
        assert(t.len() < p@.len());
    }
    s.len()
}

/// The part of `s` before the first `p`.
pub fn before_first_exec(s: &[char], p: &str) -> (r: Vec<char>)
    ensures
        r@ == before_first(s@, p@),
{
    let pc = to_chars(p);
    let k = find_sub_exec(s, pc.as_slice());
    let mut r: Vec<char> = Vec::new();
    for i in 0..k
        invariant
            k <= s@.len(),
            r@ == s@.take(i as int),
    {
        r.push(s[i]);
        assert(s@.take(i + 1) =~= s@.take(i as int).push(s@[i as int]));
    }
    r
}

/// `s` with every leading `p` removed.
pub fn trim_start_matches_exec(s: &[char], p: &str) -> (r: Vec<char>)
    ensures
        r@ == trim_start_matches(s@, p@),
{
    let pc = to_chars(p);
    let pc = pc.as_slice();
    let mut a: usize = 0;
    assert(s@.skip(0) =~= s@);
    if pc.len() > 0 {
        while a < s.len() && occurs_at_exec(s, pc, a)
            invariant
                a <= s@.len(),
                pc@.len() > 0,
                pc@ == p@,
                trim_start_matches(s@, p@) == trim_start_matches(s@.skip(a as int), p@),
            decreases s@.len() - a,
        {
            assert(s@.skip(a as int).take(pc@.len() as int) =~= s@.subrange(a as int, a + pc@.len()));
            assert(s@.skip(a as int).skip(pc@.len() as int) =~= s@.skip(a + pc@.len()));
            a = a + pc.len();
        }
        proof {
            if a < s@.len() && s@.skip(a as int).len() >= pc@.len() {
                assert(s@.skip(a as int).take(pc@.len() as int) =~= s@.subrange(a as int, a + pc@.len()));
            }
        }
    }
    let mut r: Vec<char> = Vec::new();
    let mut i = a;
    while i < s.len()
        invariant
            a <= i <= s@.len(),
            r@ == s@.subrange(a as int, i as int),
        decreases s@.len() - i,
    {
        r.push(s[i]);
        assert(s@.subrange(a as int, i + 1) =~= s@.subrange(a as int, i as int).push(s@[i as int]));
        i = i + 1;
    }
    assert(s@.subrange(a as int, s@.len() as int) =~= s@.skip(a as int));
    r
}

/// `s` with every trailing `p` removed.
pub fn trim_end_matches_exec(s: &[char], p: &str) -> (r: Vec<char>)
    ensures
        r@ == trim_end_matches(s@, p@),
{
    let pc = to_chars(p);
    let pc = pc.as_slice();
    let mut b: usize = s.len();
    assert(s@.take(s@.len() as int) =~= s@);
    if pc.len() > 0 {
        while b >= pc.len() && occurs_at_exec(s, pc, b - pc.len())
            invariant
                b <= s@.len(),
                pc@.len() > 0,
                pc@ == p@,
                trim_end_matches(s@, p@) == trim_end_matches(s@.take(b as int), p@),
            decreases b,
        {
            let ghost t = s@.take(b as int);
            assert(t.skip(t.len() - pc@.len()) =~= s@.subrange(b - pc@.len(), b as int));
            assert(t.take(t.len() - pc@.len()) =~= s@.take(b - pc@.len()));
            b = b - pc.len();
        }
        let ghost t = s@.take(b as int);
        if b >= pc.len() {
            assert(t.skip(t.len() - pc@.len()) =~= s@.subrange(b - pc@.len(), b as int));
        }
    }
    let mut r: Vec<char> = Vec::new();
    for i in 0..b
        invariant
            b <= s@.len(),
            r@ == s@.take(i as int),
    {
        r.push(s[i]);
        assert(s@.take(i + 1) =~= s@.take(i as int).push(s@[i as int]));
    }
    r
}

/// `s` with every non-overlapping `p` replaced by `rep`.
pub fn replace_all_exec(s: &[char], p: &str, rep: &str) -> (r: Vec<char>)
    ensures
        r@ == replace_all(s@, p@, rep@),
{
    let pc = to_chars(p);
    let pc = pc.as_slice();
    let rc = to_chars(rep);
    let mut r: Vec<char> = Vec::new();
    let mut i: usize = 0;
    assert(s@.skip(0) =~= s@);
    assert(r@ + replace_all(s@.skip(0), p@, rep@) =~= replace_all(s@, p@, rep@));
    while i < s.len()
        invariant
            i <= s@.len(),
            pc@ == p@,
            rc@ == rep@,
            replace_all(s@, p@, rep@) == r@ + replace_all(s@.skip(i as int), p@, rep@),
        decreases s@.len() - i,
    {
        let ghost t = s@.skip(i as int);
        let ghost r0 = r@;
        if pc.len() == 0 || pc.len() > s.len() - i {
            proof {
                assert(replace_all(t, p@, rep@) == t);
                assert(s@.subrange(i as int, s@.len() as int) =~= t);
            }
            let mut k = i;
            while k < s.len()
                invariant
                    i <= k <= s@.len(),
                    r@ == r0 + s@.subrange(i as int, k as int),
                decreases s@.len() - k,
            {
                r.push(s[k]);
                assert(r0 + s@.subrange(i as int, k + 1) =~= (r0 + s@.subrange(i as int, k as int)).push(s@[k as int]));
                k = k + 1;
            }
            assert(s@.skip(s@.len() as int) =~= Seq::<char>::empty());
            assert(r@ + Seq::<char>::empty() =~= r@);
            i = s.len();
        } else if occurs_at_exec(s, pc, i) {
            let m = rc.len();
            for j in 0..m
                invariant
                    m == rc@.len(),
                    r@ == r0 + rc@.take(j as int),
            {
                r.push(rc[j]);
                assert(r0 + rc@.take(j + 1) =~= (r0 + rc@.take(j as int)).push(rc@[j as int]));
            }
            proof {
                assert(rc@.take(m as int) =~= rc@);
                assert(t.take(p@.len() as int) =~= s@.subrange(i as int, i + p@.len()));
                assert(t.skip(p@.len() as int) =~= s@.skip(i + p@.len()));
                assert(r0 + (rep@ + replace_all(t.skip(p@.len() as int), p@, rep@))
                    =~= (r0 + rep@) + replace_all(t.skip(p@.len() as int), p@, rep@));
            }
            i = i + pc.len();
        } else {
            r.push(s[i]);
            proof {
                assert(t.take(p@.len() as int) =~= s@.subrange(i as int, i + p@.len()));
                assert(t.drop_first() =~= s@.skip(i + 1));
                assert(r0 + (seq![t[0]] + replace_all(t.drop_first(), p@, rep@))
                    =~= r0.push(s@[i as int]) + replace_all(t.drop_first(), p@, rep@));
            }
            i = i + 1;
        }
    }
    proof {
        assert(s@.skip(i as int) =~= Seq::<char>::empty());
        assert(r@ + replace_all(Seq::<char>::empty(), p@, rep@) =~= r@);
    }
    r
}

/// The items of `xs` with `sep` between each two (what `join` builds).
pub open spec fn join(xs: Seq<Seq<char>>, sep: Seq<char>) -> Seq<char>
    decreases xs.len(),
{
    if xs.len() == 0 {
        Seq::empty()
    } else if xs.len() == 1 {
        xs[0]
    } else {
        join(xs.drop_last(), sep) + sep + xs.last()
    }
}

/// Appends the items of `xs` with `sep` between each two to `s`.
pub fn push_join(s: &mut String, xs: &Vec<String>, sep: &str)
    ensures
        final(s)@ == old(s)@ + join(xs@.map_values(|x: String| x@), sep@),
{
    let ghost s0 = s@;
    let ghost xv = xs@.map_values(|x: String| x@);
    let n = xs.len();
    assert(xv.take(0) =~= Seq::<Seq<char>>::empty());
    assert(s0 + join(Seq::<Seq<char>>::empty(), sep@) =~= s0);
    for i in 0..n
        invariant
            n == xs@.len(),
            xv == xs@.map_values(|x: String| x@),
            s@ == s0 + join(xv.take(i as int), sep@),
    {
        assert(xv.take(i + 1).drop_last() =~= xv.take(i as int));
        if i > 0 {
            push_str(s, sep);
        }
        push_str(s, xs[i].as_str());
        proof {
            if i == 0 {
                assert(xv.take(1).len() == 1);
                assert(s0 + join(xv.take(1), sep@) =~= s0 + xv[0]);
                assert(Seq::<char>::empty() + xv[0] =~= xv[0]);
            } else {
                assert(s0 + join(xv.take(i + 1), sep@) =~= s0 + join(xv.take(i as int), sep@) + sep@ + xv[i as int]);
            }
        }
    }
    assert(xv.take(n as int) =~= xv);
}

/// `s` in Unicode lowercase (what `str::to_lowercase` returns).
pub uninterp spec fn unicode_lowercase(s: Seq<char>) -> Seq<char>;

/// A character below 128 in lowercase: `A`..`Z` become `a`..`z`.
pub open spec fn ascii_lower(c: char) -> char {
    if 65 <= (c as u32) && (c as u32) <= 90 { ((c as u32) + 32) as char } else { c }
}

/// `c` is below 128, or a CJK symbol or punctuation mark (U+3000..U+303F),
/// or a CJK unified ideograph (U+4E00..U+9FFF); the last two have no case.
pub open spec fn simple_case(c: char) -> bool {
    (c as u32) < 128 || (0x3000 <= (c as u32) && (c as u32) <= 0x303F) || (0x4E00 <= (c as u32) && (c as u32) <= 0x9FFF)
}

/// Every character of `s` is one of those.
pub open spec fn all_simple_case(s: Seq<char>) -> bool {
    forall|i: int| 0 <= i < s.len() ==> simple_case(#[trigger] s[i])
}

/// `str::to_lowercase`: `s` with every character mapped to its Unicode
/// lowercase form. Of the mapping only its effect on text below 128 and on
/// CJK symbols and ideographs is stated: `A`..`Z` become `a`..`z` and the
/// rest is kept; the full Unicode table, final sigma included, is left to
/// the name.
#[verifier::external_body]
pub(crate) fn to_lowercase(s: &str) -> (r: String)
    ensures
        r@ == unicode_lowercase(s@),
        all_simple_case(s@) ==> r@ == s@.map_values(|c: char| ascii_lower(c)),
{
    s.to_lowercase()
}


/// `a` comes strictly before `b` in the lexicographic order of code points,
/// the order of `str` comparison.
pub open spec fn lex_lt(a: Seq<char>, b: Seq<char>) -> bool
    decreases a.len(),
{
    if b.len() == 0 {
        false
    } else if a.len() == 0 {
        true
    } else if a[0] != b[0] {
        (a[0] as u32) < (b[0] as u32)
    } else {
        lex_lt(a.drop_first(), b.drop_first())
    }
}

/// The order is asymmetric.
pub proof fn lemma_lex_lt_asym(a: Seq<char>, b: Seq<char>)
    ensures
        lex_lt(a, b) ==> !lex_lt(b, a),
    decreases a.len(),
{
    if a.len() > 0 && b.len() > 0 && a[0] == b[0] {
        lemma_lex_lt_asym(a.drop_first(), b.drop_first());
    }
}

proof fn lemma_lex_lt_skip(a: Seq<char>, b: Seq<char>, k: int)
    requires
        0 <= k <= a.len(),
        k <= b.len(),
        a.take(k) == b.take(k),
    ensures
        lex_lt(a, b) == lex_lt(a.skip(k), b.skip(k)),
    decreases k,
{
    if k > 0 {
        assert(a[0] == a.take(k)[0]);
        assert(b[0] == b.take(k)[0]);
        assert(a.drop_first().take(k - 1) =~= a.take(k).drop_first());
        assert(b.drop_first().take(k - 1) =~= b.take(k).drop_first());
        lemma_lex_lt_skip(a.drop_first(), b.drop_first(), k - 1);
        assert(a.drop_first().skip(k - 1) =~= a.skip(k));
        assert(b.drop_first().skip(k - 1) =~= b.skip(k));
    } else {
        assert(a.skip(0) =~= a);
        assert(b.skip(0) =~= b);
    }
}

/// Whether `a` comes strictly before `b`.
pub fn lex_less(a: &str, b: &str) -> (r: bool)
    ensures
        r == lex_lt(a@, b@),
{
    let ac = to_chars(a);
    let bc = to_chars(b);
    let mut i: usize = 0;
    while i <= ac.len()
        invariant
            ac@ == a@,
            bc@ == b@,
            i <= ac@.len(),
            i <= bc@.len(),
            a@.take(i as int) == b@.take(i as int),
        decreases ac@.len() - i,
    {
        proof {
            lemma_lex_lt_skip(a@, b@, i as int);
        }
        if i == bc.len() {
            return false;
        }
        if i == ac.len() {
            return true;
        }
        if ac[i] != bc[i] {
            assert(a@.skip(i as int)[0] == ac@[i as int]);
            assert(b@.skip(i as int)[0] == bc@[i as int]);
            return (ac[i] as u32) < (bc[i] as u32);
        }
        assert(a@.take(i + 1) =~= a@.take(i as int).push(ac@[i as int]));
        assert(b@.take(i + 1) =~= b@.take(i as int).push(bc@[i as int]));
        i = i + 1;
    }
    false
}

/// The order is transitive.
pub proof fn lemma_lex_lt_trans(a: Seq<char>, b: Seq<char>, c: Seq<char>)
    requires
        lex_lt(a, b),
        lex_lt(b, c),
    ensures
        lex_lt(a, c),
    decreases a.len(),
{
    if a.len() > 0 && b.len() > 0 && c.len() > 0 && a[0] == b[0] && b[0] == c[0] {
        lemma_lex_lt_trans(a.drop_first(), b.drop_first(), c.drop_first());
    }
}

/// Of two different texts one comes before the other.
pub proof fn lemma_lex_lt_total(a: Seq<char>, b: Seq<char>)
    requires
        a != b,
    ensures
        lex_lt(a, b) || lex_lt(b, a),
    decreases a.len(),
{
    if a.len() > 0 && b.len() > 0 {
        if a[0] == b[0] {
            if a.drop_first() == b.drop_first() {
                assert(a =~= seq![a[0]] + a.drop_first());
                assert(b =~= seq![b[0]] + b.drop_first());
            }
            lemma_lex_lt_total(a.drop_first(), b.drop_first());
        } else {
            vstd::utf8::char_u32_cast(a[0], a[0] as u32);
            vstd::utf8::char_u32_cast(b[0], b[0] as u32);
        }
    } else if a.len() == 0 && b.len() == 0 {
        assert(a =~= b);
    }
}

/// Position of the first white-space character of `s`, or `s.len()`.
pub open spec fn first_ws(s: Seq<char>) -> int
    decreases s.len(),
{
    if s.len() == 0 {
        0
    } else if is_ws(s[0]) {
        0
    } else {
        1 + first_ws(s.drop_first())
    }
}

pub proof fn lemma_first_ws_bounds(s: Seq<char>)
    ensures
        0 <= first_ws(s) <= s.len(),
        s.len() > 0 && !is_ws(s[0]) ==> first_ws(s) >= 1,
    decreases s.len(),
{
    if s.len() > 0 && !is_ws(s[0]) {
        lemma_first_ws_bounds(s.drop_first());
    }
}

pub proof fn lemma_trim_start_first(s: Seq<char>)
    ensures
        trim_start(s).len() > 0 ==> !is_ws(trim_start(s)[0]),
    decreases s.len(),
{
    if s.len() > 0 && is_ws(s[0]) {
        lemma_trim_start_first(s.drop_first());
    }
}

/// The white-space separated words of `s`, as `str::split_whitespace` yields them.
pub open spec fn words(s: Seq<char>) -> Seq<Seq<char>>
    decreases s.len(),
{
    let t = trim_start(s);
    if t.len() == 0 {
        Seq::empty()
    } else {
        let k = first_ws(t);
        proof {
            lemma_trim_start_len(s);
            lemma_trim_start_first(s);
            lemma_first_ws_bounds(t);
        }
        seq![t.take(k)] + words(t.skip(k))
    }
}

proof fn lemma_first_ws_at(s: Seq<char>, m: int)
    requires
        0 <= m <= s.len(),
        forall|j: int| 0 <= j < m ==> !is_ws(s[j]),
        m == s.len() || is_ws(s[m]),
    ensures
        first_ws(s) == m,
    decreases m,
{
    if m > 0 {
        assert forall|j: int| 0 <= j < m - 1 implies !is_ws(s.drop_first()[j]) by {
            assert(s.drop_first()[j] == s[j + 1]);
        }
        if m < s.len() {
            assert(s.drop_first()[m - 1] == s[m]);
        }
        lemma_first_ws_at(s.drop_first(), m - 1);
    }
}

/// The white-space separated words of `v`.
pub fn split_words(v: &[char]) -> (r: Vec<Vec<char>>)
    ensures
        views(r@) == words(v@),
{
    let n = v.len();
    let mut r: Vec<Vec<char>> = Vec::new();
    let mut i: usize = 0;
    assert(v@.skip(0) =~= v@);
    assert(views(r@) =~= Seq::<Seq<char>>::empty());
    while i < n
        invariant
            n == v@.len(),
            i <= n,
            words(v@) == views(r@) + words(v@.skip(i as int)),
        decreases n - i,
    {
        let ghost s = v@.skip(i as int);
        assert(s[0] == v@[i as int]);
        if is_whitespace(v[i]) {
            assert(s.drop_first() =~= v@.skip(i + 1));
            assert(trim_start(s) == trim_start(s.drop_first()));
            i = i + 1;
        } else {
            let mut j = i;
            let mut w: Vec<char> = Vec::new();
            while j < n && !is_whitespace(v[j])
                invariant
                    n == v@.len(),
                    i <= j <= n,
                    w@ == v@.subrange(i as int, j as int),
                    forall|q: int| i <= q < j ==> !is_ws(v@[q]),
                decreases n - j,
            {
                w.push(v[j]);
                assert(v@.subrange(i as int, j + 1) =~= v@.subrange(i as int, j as int).push(v@[j as int]));
                j = j + 1;
            }
            proof {
                assert(trim_start(s) == s);
                assert forall|q: int| 0 <= q < j - i implies !is_ws(s[q]) by {
                    assert(s[q] == v@[i + q]);
                }
                if j < n {
                    assert(s[j - i] == v@[j as int]);
                }
                lemma_first_ws_at(s, j - i);
                assert(s.take(j - i) =~= w@);
                assert(s.skip(j - i) =~= v@.skip(j as int));
            }
            let ghost before = r@;
            r.push(w);
            proof {
                assert(views(r@) =~= views(before).push(w@));
                assert(views(before) + (seq![w@] + words(v@.skip(j as int)))
                    =~= views(before).push(w@) + words(v@.skip(j as int)));
            }
            i = j;
        }
    }
    proof {
        assert(v@.skip(n as int) =~= Seq::<char>::empty());
        assert(views(r@) + Seq::<Seq<char>>::empty() =~= views(r@));
    }
    r
}

/// `c` is an ASCII digit.
pub open spec fn is_digit(c: char) -> bool {
    '0' <= c && c <= '9'
}

/// The number a run of ASCII digits denotes.
pub open spec fn digits_value(s: Seq<char>) -> nat
    decreases s.len(),
{
    if s.len() == 0 {
        0
    } else {
        digits_value(s.drop_last()) * 10 + ((s.last() as int) - ('0' as int)) as nat
    }
}

/// Every character of `d` is an ASCII digit.
pub open spec fn all_digits(d: Seq<char>) -> bool {
    forall|i: int| 0 <= i < d.len() ==> is_digit(#[trigger] d[i])
}

/// `s` without one leading `+`.
pub open spec fn unsigned_part(s: Seq<char>) -> Seq<char> {
    if s.len() > 0 && s[0] == '+' { s.drop_first() } else { s }
}

/// One or more ASCII digits whose value fits in `usize`, as that value.
pub open spec fn digits_usize(d: Seq<char>) -> Option<usize> {
    if d.len() > 0 && all_digits(d) && digits_value(d) <= usize::MAX {
        Some(digits_value(d) as usize)
    } else {
        None
    }
}

/// What `str::parse::<usize>` gives: an optional `+`, then one or more
/// ASCII digits whose value fits in `usize`.
pub open spec fn parsed_usize(s: Seq<char>) -> Option<usize> {
    digits_usize(unsigned_part(s))
}

proof fn lemma_digits_value_grows(d: Seq<char>, k: int)
    requires
        0 <= k <= d.len(),
        forall|i: int| 0 <= i < d.len() ==> is_digit(#[trigger] d[i]),
    ensures
        digits_value(d.take(k)) <= digits_value(d),
    decreases d.len() - k,
{
    if k < d.len() {
        lemma_digits_value_grows(d, k + 1);
        assert(d.take(k + 1).drop_last() =~= d.take(k));
        assert(is_digit(d[k]));
        let v = digits_value(d.take(k));
        assert(v * 10 + ((d[k] as int) - ('0' as int)) >= v) by (nonlinear_arith)
            requires ((d[k] as int) - ('0' as int)) >= 0, v >= 0;
    } else {
        assert(d.take(k) =~= d);
    }
}

/// `s` parsed as a `usize`, as `str::parse::<usize>` does.
pub fn parse_usize(s: &[char]) -> (r: Option<usize>)
    ensures
        r == parsed_usize(s@),
{
    let start: usize = if s.len() > 0 && s[0] == '+' { 1 } else { 0 };
    let ghost d = unsigned_part(s@);
    assert(d =~= s@.skip(start as int));
    if start >= s.len() {
        return None;
    }
    let mut acc: usize = 0;
    let mut i = start;
    while i < s.len()
        invariant
            start <= i <= s@.len(),
            d == unsigned_part(s@),
            d == s@.skip(start as int),
            d.len() == s@.len() - start,
            forall|q: int| 0 <= q < i - start ==> is_digit(#[trigger] d[q]),
            acc as nat == digits_value(d.take(i - start)),
        decreases s@.len() - i,
    {
        let c = s[i];
        assert(d[i - start] == c);
        if !('0' <= c && c <= '9') {
            assert(!is_digit(d[i - start]));
            return None;
        }
        let dig: usize = ((c as u32) - ('0' as u32)) as usize;
        proof {
            assert(d.take(i - start + 1).drop_last() =~= d.take(i - start));
        }
        if acc > (usize::MAX - dig) / 10 {
            proof {
                assert(acc * 10 + dig > usize::MAX) by (nonlinear_arith)
                    requires acc > (usize::MAX - dig) / 10, dig <= 9;
                if all_digits(d) {
                    lemma_digits_value_grows(d, i - start + 1);
                }
            }
            return None;
        }
        assert(acc * 10 + dig <= usize::MAX) by (nonlinear_arith)
            requires acc <= (usize::MAX - dig) / 10, dig <= 9;
        acc = acc * 10 + dig;
        i = i + 1;
    }
    assert(d.take(i - start) =~= d);
    Some(acc)
}

/// `s` padded on the right with spaces to `w` characters (`{:<w}`).
pub open spec fn pad_right(s: Seq<char>, w: nat) -> Seq<char> {
    if s.len() < w {
        s + repeat(" "@, (w - s.len()) as nat)
    } else {
        s
    }
}

/// Appends `t` padded on the right with spaces to `w` characters.
pub fn push_padded(s: &mut String, t: &str, w: usize)
    ensures
        final(s)@ == old(s)@ + pad_right(t@, w as nat),
{
    let tc = to_chars(t);
    push_str(s, t);
    if tc.len() < w {
        push_repeat(s, " ", w - tc.len());
        assert(old(s)@ + t@ + repeat(" "@, (w - t@.len()) as nat) =~= old(s)@ + pad_right(t@, w as nat));
    }
}

} // verus!
