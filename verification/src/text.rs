use vstd::prelude::*;
use vstd::string::*;

verus! {

broadcast use vstd::string::group_string_axioms;

/// Appends one character to a string (`String::push`).
#[verifier::external_body]
pub(crate) fn push_char(s: &mut String, c: char)
    ensures
        final(s)@ == old(s)@.push(c),
{
    s.push(c);
}

/// Appends the characters of a slice to a string.
pub(crate) fn push_chars(s: &mut String, v: &[char])
    ensures
        final(s)@ == old(s)@ + v@,
{
    let mut i: usize = 0;
    while i < v.len()
        invariant
            i <= v.len(),
            s@ == old(s)@ + v@.take(i as int),
        decreases v.len() - i,
    {
        push_char(s, v[i]);
        assert(v@.take(i + 1) == v@.take(i as int).push(v@[i as int]));
        i += 1;
    }
    assert(v@.take(v.len() as int) == v@);
}

/// Appends a string slice to a string.
pub(crate) fn push_str(s: &mut String, t: &str)
    ensures
        final(s)@ == old(s)@ + t@,
{
    let v = chars_of(t);
    push_chars(s, &v);
}

/// The characters of a string slice.
pub fn chars_of(s: &str) -> (v: Vec<char>)
    ensures
        v@ == s@,
{
    let mut v: Vec<char> = Vec::new();
    for c in it: s.chars()
        invariant
            v@ == it.seq().take(it.index() as int),
            it.seq() == s@,
    {
        v.push(c);
    }
    v
}

/// A string with the given characters.
pub fn string_of(v: &[char]) -> (s: String)
    ensures
        s@ == v@,
{
    let mut s = String::new();
    push_chars(&mut s, v);
    s
}

/// An owned copy of a string slice.
pub(crate) fn string_of_str(t: &str) -> (s: String)
    ensures
        s@ == t@,
{
    let mut s = String::new();
    push_str(&mut s, t);
    s
}

// ---------------------------------------------------------------------------
// Searching and splitting
// ---------------------------------------------------------------------------

/// `i` is the first position of `c` in `s`.
pub open spec fn is_first_index(s: Seq<char>, c: char, i: int) -> bool {
    &&& 0 <= i < s.len()
    &&& s[i] == c
    &&& forall|j: int| 0 <= j < i ==> s[j] != c
}

/// The first position of `c` in `s` (meaningful when `s` contains `c`).
pub open spec fn first_index(s: Seq<char>, c: char) -> int {
    choose|i: int| is_first_index(s, c, i)
}

pub proof fn lemma_first_index(s: Seq<char>, c: char, i: int)
    requires
        is_first_index(s, c, i),
    ensures
        first_index(s, c) == i,
        s.contains(c),
{
    let k = first_index(s, c);
    assert(is_first_index(s, c, k));
    if k < i {
        assert(s[k] != c);
    } else if i < k {
        assert(s[i] != c);
    }
}

/// `s` cut at the first `c`: the part before it and the part after it.
pub open spec fn split_once(s: Seq<char>, c: char) -> Option<(Seq<char>, Seq<char>)> {
    if s.contains(c) {
        let i = first_index(s, c);
        Some((s.take(i), s.skip(i + 1)))
    } else {
        None
    }
}

/// The first position at or after `start` that holds `c`.
pub(crate) fn find_char(v: &[char], start: usize, c: char) -> (r: Option<usize>)
    requires
        start <= v.len(),
    ensures
        match r {
            Some(i) => start <= i < v.len() && v@[i as int] == c && forall|j: int|
                start <= j < i ==> v@[j] != c,
            None => forall|j: int| start <= j < v.len() ==> v@[j] != c,
        },
{
    let mut i = start;
    while i < v.len()
        invariant
            start <= i <= v.len(),
            forall|j: int| start <= j < i ==> v@[j] != c,
        decreases v.len() - i,
    {
        if v[i] == c {
            return Some(i);
        }
        i += 1;
    }
    None
}

/// The position of the first `c` in `v`, matching `split_once`.
pub(crate) fn split_index(v: &[char], c: char) -> (r: Option<usize>)
    ensures
        match r {
            Some(i) => v@.contains(c) && i == first_index(v@, c) && i < v.len()
                && split_once(v@, c) == Some((v@.take(i as int), v@.skip(i + 1))),
            None => !v@.contains(c) && split_once(v@, c) is None,
        },
{
    let r = find_char(v, 0, c);
    match r {
        Some(i) => {
            proof {
                lemma_first_index(v@, c, i as int);
            }
            Some(i)
        },
        None => None,
    }
}

/// Whether `p` is a prefix of `s`.
pub open spec fn has_prefix(s: Seq<char>, p: Seq<char>) -> bool {
    p.len() <= s.len() && s.take(p.len() as int) == p
}

pub(crate) fn starts_with(v: &[char], p: &[char]) -> (b: bool)
    ensures
        b == has_prefix(v@, p@),
{
    if p.len() > v.len() {
        return false;
    }
    let mut i: usize = 0;
    while i < p.len()
        invariant
            p.len() <= v.len(),
            i <= p.len(),
            forall|j: int| 0 <= j < i ==> v@[j] == p@[j],
        decreases p.len() - i,
    {
        if v[i] != p[i] {
            assert(v@.take(p.len() as int)[i as int] != p@[i as int]);
            return false;
        }
        i += 1;
    }
    assert(v@.take(p.len() as int) =~= p@);
    true
}

/// Whether two character sequences are equal.
pub(crate) fn chars_eq(a: &[char], b: &[char]) -> (r: bool)
    ensures
        r == (a@ == b@),
{
    if a.len() != b.len() {
        return false;
    }
    let r = starts_with(a, b);
    proof {
        assert(a@.take(b.len() as int) =~= a@);
    }
    r
}

/// A copy of `v[i..j]`.
pub(crate) fn sub_vec(v: &[char], i: usize, j: usize) -> (r: Vec<char>)
    requires
        i <= j <= v.len(),
    ensures
        r@ == v@.subrange(i as int, j as int),
{
    let mut r: Vec<char> = Vec::new();
    let mut k = i;
    while k < j
        invariant
            i <= k <= j <= v.len(),
            r@ == v@.subrange(i as int, k as int),
        decreases j - k,
    {
        r.push(v[k]);
        assert(v@.subrange(i as int, k + 1) == v@.subrange(i as int, k as int).push(v@[k as int]));
        k += 1;
    }
    r
}

// ---------------------------------------------------------------------------
// Whitespace
// ---------------------------------------------------------------------------

/// Unicode White_Space, the set that `char::is_whitespace` tests.
pub open spec fn is_ws(c: char) -> bool {
    ||| '\t' <= c <= '\r'
    ||| c == ' '
    ||| c == '\u{85}'
    ||| c == '\u{a0}'
    ||| c == '\u{1680}'
    ||| '\u{2000}' <= c <= '\u{200a}'
    ||| c == '\u{2028}'
    ||| c == '\u{2029}'
    ||| c == '\u{202f}'
    ||| c == '\u{205f}'
    ||| c == '\u{3000}'
}

pub(crate) fn char_is_ws(c: char) -> (b: bool)
    ensures
        b == is_ws(c),
{
    ('\t' <= c && c <= '\r') || c == ' ' || c == '\u{85}' || c == '\u{a0}' || c == '\u{1680}'
        || ('\u{2000}' <= c && c <= '\u{200a}') || c == '\u{2028}' || c == '\u{2029}' || c
        == '\u{202f}' || c == '\u{205f}' || c == '\u{3000}'
}

/// `s` without the whitespace at its start and at its end (`str::trim`).
#[verifier::opaque]
pub open spec fn trim(s: Seq<char>) -> Seq<char> {
    let lo = trim_lo(s);
    let hi = trim_hi(s);
    if lo < hi { s.subrange(lo, hi) } else { Seq::empty() }
}

/// Where `trim` starts: the first non-whitespace position (or the length).
pub open spec fn trim_lo(s: Seq<char>) -> int {
    if exists|i: int| 0 <= i < s.len() && !is_ws(s[i]) {
        choose|i: int|
            0 <= i < s.len() && !is_ws(s[i]) && forall|j: int| 0 <= j < i ==> is_ws(s[j])
    } else {
        s.len() as int
    }
}

/// Where `trim` ends: one past the last non-whitespace position (or 0).
pub open spec fn trim_hi(s: Seq<char>) -> int {
    if exists|i: int| 0 <= i < s.len() && !is_ws(s[i]) {
        1 + choose|i: int|
            0 <= i < s.len() && !is_ws(s[i]) && forall|j: int| i < j < s.len() ==> is_ws(s[j])
    } else {
        0
    }
}

/// The bounds of `trim(v)` inside `v`.
pub(crate) fn trim_bounds(v: &[char]) -> (r: (usize, usize))
    ensures
        r.0 <= r.1 <= v.len(),
        v@.subrange(r.0 as int, r.1 as int) == trim(v@),
{
    reveal(trim);
    let mut lo: usize = 0;
    while lo < v.len() && char_is_ws(v[lo])
        invariant
            lo <= v.len(),
            forall|j: int| 0 <= j < lo ==> is_ws(v@[j]),
        decreases v.len() - lo,
    {
        lo += 1;
    }
    if lo == v.len() {
        proof {
            assert(!exists|i: int| 0 <= i < v@.len() && !is_ws(v@[i]));
        }
        return (0, 0);
    }
    let mut hi: usize = v.len();
    while hi > lo + 1 && char_is_ws(v[hi - 1])
        invariant
            lo < hi <= v.len(),
            !is_ws(v@[lo as int]),
            forall|j: int| hi <= j < v.len() ==> is_ws(v@[j]),
        decreases hi,
    {
        hi -= 1;
    }
    proof {
        let s = v@;
        assert(0 <= lo < s.len() && !is_ws(s[lo as int]));
        let a = trim_lo(s);
        assert(0 <= a < s.len() && !is_ws(s[a]) && forall|j: int| 0 <= j < a ==> is_ws(s[j]));
        if a < lo {
            assert(is_ws(s[a]));
        }
        if lo < a {
            assert(is_ws(s[lo as int]));
        }
        let h = hi - 1;
        assert(!is_ws(s[h]));
        let b = trim_hi(s) - 1;
        assert(0 <= b < s.len() && !is_ws(s[b]) && forall|j: int| b < j < s.len() ==> is_ws(s[j]));
        if b < h {
            assert(is_ws(s[h]));
        }
        if h < b {
            assert(is_ws(s[b]));
        }
    }
    (lo, hi)
}


/// Whitespace around a text with no whitespace at its ends is trimmed off.
pub proof fn lemma_trim_around(p: Seq<char>, x: Seq<char>, q: Seq<char>)
    requires
        forall|k: int| 0 <= k < p.len() ==> is_ws(#[trigger] p[k]),
        forall|k: int| 0 <= k < q.len() ==> is_ws(#[trigger] q[k]),
        x.len() > 0,
        !is_ws(x[0]),
        !is_ws(x.last()),
    ensures
        trim(p + x + q) == x,
{
    reveal(trim);
    let s = p + x + q;
    let a = p.len() as int;
    let z = a + x.len() - 1;
    assert(s[a] == x[0]);
    assert(s[z] == x.last());
    assert forall|j: int| 0 <= j < a implies is_ws(s[j]) by {
        assert(s[j] == p[j]);
    }
    assert forall|j: int| z < j < s.len() implies is_ws(s[j]) by {
        assert(s[j] == q[j - z - 1]);
    }
    let lo = trim_lo(s);
    let hi = trim_hi(s);
    assert(0 <= lo < s.len() && !is_ws(s[lo]) && forall|j: int| 0 <= j < lo ==> is_ws(s[j]));
    if lo < a {
        assert(s[lo] == p[lo]);
    }
    if a < lo {
        assert(is_ws(s[a]));
    }
    assert(0 <= hi - 1 < s.len() && !is_ws(s[hi - 1]) && forall|j: int| hi - 1 < j < s.len() ==> is_ws(s[j]));
    if hi - 1 > z {
        assert(s[hi - 1] == q[hi - 1 - z - 1]);
    }
    if hi - 1 < z {
        assert(is_ws(s[z]));
    }
    assert(s.subrange(a, z + 1) =~= x);
}

/// A copy of `trim(v)`.
pub(crate) fn trim_vec(v: &[char]) -> (r: Vec<char>)
    ensures
        r@ == trim(v@),
{
    let (lo, hi) = trim_bounds(v);
    sub_vec(v, lo, hi)
}

// ---------------------------------------------------------------------------
// Lines
// ---------------------------------------------------------------------------

/// A line cut at a `\n`, without the `\r` that may end it.
pub open spec fn strip_cr(s: Seq<char>) -> Seq<char> {
    if s.len() > 0 && s.last() == '\r' { s.drop_last() } else { s }
}

/// The lines of a text as `str::lines` yields them: split at `\n`, a `\r`
/// before a `\n` dropped, no empty last line after a final `\n`.
#[verifier::opaque]
pub open spec fn lines(s: Seq<char>) -> Seq<Seq<char>>
    decreases s.len(),
{
    if s.len() == 0 {
        Seq::empty()
    } else if s.contains('\n') {
        let i = first_index(s, '\n');
        if 0 <= i < s.len() {
            seq![strip_cr(s.take(i))] + lines(s.skip(i + 1))
        } else {
            Seq::empty()
        }
    } else {
        seq![s]
    }
}

/// The lines of a text (see `lines`).
pub(crate) fn lines_of(v: &[char]) -> (r: Vec<Vec<char>>)
    ensures
        r@.len() == lines(v@).len(),
        forall|k: int| 0 <= k < r@.len() ==> (#[trigger] r@[k])@ == lines(v@)[k],
{
    let mut r: Vec<Vec<char>> = Vec::new();
    let mut start: usize = 0;
    assert(v@.skip(0) == v@);
    assert(r@.map_values(|l: Vec<char>| l@) =~= Seq::<Seq<char>>::empty());
    proof {
        reveal(lines);
    }
    while start < v.len()
        invariant
            start <= v.len(),
            lines(v@) == r@.map_values(|l: Vec<char>| l@) + lines(v@.skip(start as int)),
        decreases v.len() - start,
    {
        proof {
            reveal(lines);
        }
        let ghost rest = v@.skip(start as int);
        let f = find_char(v, start, '\n');
        match f {
            Some(i) => {
                let mut line = sub_vec(v, start, i);
                if line.len() > 0 && line[line.len() - 1] == '\r' {
                    line.pop();
                }
                proof {
                    let k = (i - start) as int;
                    assert(rest[k] == '\n');
                    assert(is_first_index(rest, '\n', k));
                    lemma_first_index(rest, '\n', k);
                    assert(rest.take(k) == v@.subrange(start as int, i as int));
                    assert(rest.skip(k + 1) == v@.skip(i + 1));
                    assert(line@ == strip_cr(rest.take(k)));
                }
                let ghost old_r = r@;
                r.push(line);
                proof {
                    assert(r@.map_values(|l: Vec<char>| l@) == old_r.map_values(
                        |l: Vec<char>| l@,
                    ).push(line@));
                }
                start = i + 1;
            },
            None => {
                let line = sub_vec(v, start, v.len());
                proof {
                    assert(!rest.contains('\n')) by {
                        if rest.contains('\n') {
                            let j = choose|j: int| 0 <= j < rest.len() && rest[j] == '\n';
                            assert(v@[start + j] == '\n');
                        }
                    }
                    assert(rest.len() > 0);
                    assert(line@ == rest);
                    assert(v@.skip(v.len() as int).len() == 0);
                }
                let ghost old_r = r@;
                r.push(line);
                proof {
                    assert(r@.map_values(|l: Vec<char>| l@) == old_r.map_values(
                        |l: Vec<char>| l@,
                    ).push(line@));
                }
                start = v.len();
            },
        }
    }
    proof {
        assert(v@.skip(start as int).len() == 0);
        assert(lines(v@) == r@.map_values(|l: Vec<char>| l@));
    }
    r
}

/// The pieces of `s` between the occurrences of `c`, as `str::split` yields
/// them: one more piece than there are `c`s, empty pieces included.
pub open spec fn split_all(s: Seq<char>, c: char) -> Seq<Seq<char>>
    decreases s.len(),
{
    if s.contains(c) {
        let i = first_index(s, c);
        if 0 <= i < s.len() {
            seq![s.take(i)] + split_all(s.skip(i + 1), c)
        } else {
            seq![s]
        }
    } else {
        seq![s]
    }
}

/// The pieces of `v` between the occurrences of `c` (see `split_all`).
pub(crate) fn split_on(v: &[char], c: char) -> (r: Vec<Vec<char>>)
    ensures
        r@.len() == split_all(v@, c).len(),
        forall|k: int| 0 <= k < r@.len() ==> (#[trigger] r@[k])@ == split_all(v@, c)[k],
{
    let mut r: Vec<Vec<char>> = Vec::new();
    let mut start: usize = 0;
    assert(v@.skip(0) == v@);
    assert(r@.map_values(|l: Vec<char>| l@) =~= Seq::<Seq<char>>::empty());
    let mut next = find_char(v, 0, c);
    while next.is_some()
        invariant
            start <= v.len(),
            split_all(v@, c) == r@.map_values(|l: Vec<char>| l@) + split_all(
                v@.skip(start as int),
                c,
            ),
            match next {
                Some(i) => start <= i < v.len() && v@[i as int] == c && forall|j: int|
                    start <= j < i ==> v@[j] != c,
                None => forall|j: int| start <= j < v.len() ==> v@[j] != c,
            },
        decreases v.len() - start,
    {
        let i = next.unwrap();
        let ghost rest = v@.skip(start as int);
        let piece = sub_vec(v, start, i);
        proof {
            let k = (i - start) as int;
            assert(rest[k] == c);
            assert(is_first_index(rest, c, k));
            lemma_first_index(rest, c, k);
            assert(rest.take(k) == v@.subrange(start as int, i as int));
            assert(rest.skip(k + 1) == v@.skip(i + 1));
        }
        let ghost old_r = r@;
        r.push(piece);
        proof {
            assert(r@.map_values(|l: Vec<char>| l@) == old_r.map_values(|l: Vec<char>| l@).push(
                piece@,
            ));
        }
        start = i + 1;
        next = find_char(v, start, c);
    }
    let ghost rest = v@.skip(start as int);
    let piece = sub_vec(v, start, v.len());
    proof {
        assert(!rest.contains(c)) by {
            if rest.contains(c) {
                let j = choose|j: int| 0 <= j < rest.len() && rest[j] == c;
                assert(v@[start + j] == c);
            }
        }
        assert(piece@ == rest);
    }
    let ghost old_r = r@;
    r.push(piece);
    proof {
        assert(r@.map_values(|l: Vec<char>| l@) == old_r.map_values(|l: Vec<char>| l@).push(
            piece@,
        ));
        assert(split_all(v@, c) == r@.map_values(|l: Vec<char>| l@));
    }
    r
}


/// A line followed by a newline and more text.
pub proof fn lemma_lines_cons(x: Seq<char>, y: Seq<char>)
    requires
        !x.contains('\n'),
    ensures
        lines(x + seq!['\n'] + y) == seq![strip_cr(x)] + lines(y),
{
    reveal(lines);
    let s = x + seq!['\n'] + y;
    assert(s[x.len() as int] == '\n');
    assert forall|j: int| 0 <= j < x.len() implies s[j] != '\n' by {
        assert(s[j] == x[j]);
    }
    assert(is_first_index(s, '\n', x.len() as int));
    lemma_first_index(s, '\n', x.len() as int);
    assert(s.take(x.len() as int) =~= x);
    assert(s.skip(x.len() + 1int) =~= y);
}

/// A text without a newline is one line.
pub proof fn lemma_lines_single(x: Seq<char>)
    requires
        x.len() > 0,
        !x.contains('\n'),
    ensures
        lines(x) == seq![x],
{
    reveal(lines);
}

/// A character absent from two texts is absent from their concatenation.
pub proof fn lemma_not_contains_concat(a: Seq<char>, b: Seq<char>, c: char)
    requires
        !a.contains(c),
        !b.contains(c),
    ensures
        !(a + b).contains(c),
{
    if (a + b).contains(c) {
        let k = choose|k: int| 0 <= k < (a + b).len() && (a + b)[k] == c;
        if k < a.len() {
            assert(a[k] == c);
        } else {
            assert(b[k - a.len()] == c);
        }
    }
}


/// Lines `i` onward of `ls`, each followed by a newline, then `tail`.
pub open spec fn join_nl(ls: Seq<Seq<char>>, i: int, tail: Seq<char>) -> Seq<char>
    decreases ls.len() - i,
{
    if i >= ls.len() || i < 0 {
        tail
    } else {
        ls[i] + seq!['\n'] + join_nl(ls, i + 1, tail)
    }
}

/// The first `n` lines of `ls`, each followed by a newline.
pub open spec fn joined(ls: Seq<Seq<char>>, n: int) -> Seq<char>
    decreases n,
{
    if n <= 0 {
        Seq::empty()
    } else {
        joined(ls, n - 1) + ls[n - 1] + seq!['\n']
    }
}

/// Writing lines one after the other gives the same text as `join_nl`.
pub proof fn lemma_joined(ls: Seq<Seq<char>>, i: int, tail: Seq<char>)
    requires
        0 <= i <= ls.len(),
    ensures
        joined(ls, i) + join_nl(ls, i, tail) == joined(ls, ls.len() as int) + tail,
    decreases ls.len() - i,
{
    if i < ls.len() {
        lemma_joined(ls, i + 1, tail);
        assert(joined(ls, i + 1) == joined(ls, i) + ls[i] + seq!['\n']);
        assert(joined(ls, i) + join_nl(ls, i, tail) =~= joined(ls, i + 1) + join_nl(
            ls,
            i + 1,
            tail,
        ));
    }
}

// ---------------------------------------------------------------------------
// Decimal numbers
// ---------------------------------------------------------------------------

/// The decimal digits of `n`, without leading zeros.
pub open spec fn decimal(n: nat) -> Seq<char>
    decreases n,
{
    if n < 10 {
        seq![(48 + n) as char]
    } else {
        decimal(n / 10).push((48 + n % 10) as char)
    }
}

/// Appends the decimal digits of `n`.
pub(crate) fn push_decimal(s: &mut String, n: u32)
    ensures
        final(s)@ == old(s)@ + decimal(n as nat),
    decreases n,
{
    if n < 10 {
        push_char(s, (48u8 + n as u8) as char);
        assert(decimal(n as nat) == seq![(48 + n) as char]);
    } else {
        push_decimal(s, n / 10);
        push_char(s, (48u8 + (n % 10) as u8) as char);
    }
}

/// Appends the decimal digits of a count.
pub(crate) fn push_count(s: &mut String, n: usize)
    ensures
        final(s)@ == old(s)@ + decimal(n as nat),
    decreases n,
{
    if n < 10 {
        push_char(s, (48u8 + n as u8) as char);
        assert(decimal(n as nat) == seq![(48 + n) as char]);
    } else {
        push_count(s, n / 10);
        push_char(s, (48u8 + (n % 10) as u8) as char);
    }
}

/// Whether `c` is an ASCII digit.
pub open spec fn is_digit(c: char) -> bool {
    '0' <= c <= '9'
}

/// The value of a string of decimal digits.
pub open spec fn digits_value(s: Seq<char>) -> nat
    decreases s.len(),
{
    if s.len() == 0 {
        0
    } else {
        digits_value(s.drop_last()) * 10 + (s.last() as nat - 48) as nat
    }
}

/// Whether every character of `s` is an ASCII digit.
pub open spec fn all_digits(s: Seq<char>) -> bool {
    forall|i: int| 0 <= i < s.len() ==> is_digit(#[trigger] s[i])
}

/// What `str::parse::<u32>` accepts: an optional `+`, then one or more
/// ASCII digits whose value fits in a `u32`.
pub open spec fn parse_u32(s: Seq<char>) -> Option<u32> {
    let t = if s.len() > 0 && s[0] == '+' { s.drop_first() } else { s };
    if t.len() > 0 && all_digits(t) && digits_value(t) <= u32::MAX {
        Some(digits_value(t) as u32)
    } else {
        None
    }
}

/// What `str::parse::<u8>` accepts, in the same way as `parse_u32`.
pub open spec fn parse_u8(s: Seq<char>) -> Option<u8> {
    match parse_u32(s) {
        Some(n) => if n <= u8::MAX { Some(n as u8) } else { None },
        None => None,
    }
}


/// The decimal digits of `n` are digits, at least one, and read back as `n`.
pub proof fn lemma_decimal(n: nat)
    ensures
        decimal(n).len() >= 1,
        all_digits(decimal(n)),
        digits_value(decimal(n)) == n,
        n < 10 ==> decimal(n) == seq![(48 + n) as char],
    decreases n,
{
    if n >= 10 {
        lemma_decimal(n / 10);
        let s = decimal(n / 10);
        let t = s.push((48 + n % 10) as char);
        assert(t.drop_last() == s);
        assert(t.last() == (48 + n % 10) as char);
        assert(t.last() as nat == 48 + n % 10);
        assert(digits_value(t) == digits_value(s) * 10 + n % 10);
        assert((n / 10) * 10 + n % 10 == n);
        assert forall|i: int| 0 <= i < t.len() implies is_digit(#[trigger] t[i]) by {
            if i < s.len() {
                assert(t[i] == s[i]);
            }
        }
    } else {
        let t = decimal(n);
        assert(t == seq![(48 + n) as char]);
        assert(t.drop_last() =~= Seq::<char>::empty());
        assert(t.last() as nat == 48 + n);
        assert(digits_value(t) == digits_value(t.drop_last()) * 10 + (t.last() as nat - 48) as nat);
    }
}

/// `parse_u32` reads back the decimal digits of a `u32`.
pub proof fn lemma_parse_decimal(n: u32)
    ensures
        parse_u32(decimal(n as nat)) == Some(n),
{
    lemma_decimal(n as nat);
    let s = decimal(n as nat);
    assert(is_digit(s[0]));
}

proof fn lemma_digits_value_take(s: Seq<char>, i: int)
    requires
        0 <= i < s.len(),
    ensures
        digits_value(s.take(i + 1)) == digits_value(s.take(i)) * 10 + (s[i] as nat - 48) as nat,
{
    assert(s.take(i + 1).drop_last() == s.take(i));
}

proof fn lemma_digits_value_mono(s: Seq<char>, i: int)
    requires
        0 <= i <= s.len(),
        all_digits(s),
    ensures
        digits_value(s.take(i)) <= digits_value(s),
    decreases s.len() - i,
{
    if i < s.len() {
        lemma_digits_value_take(s, i);
        lemma_digits_value_mono(s, i + 1);
    } else {
        assert(s.take(i) == s);
    }
}

/// Parses a decimal `u32` as `str::parse::<u32>` does.
pub(crate) fn parse_u32_chars(v: &[char]) -> (r: Option<u32>)
    ensures
        r == parse_u32(v@),
{
    let start: usize = if v.len() > 0 && v[0] == '+' { 1 } else { 0 };
    let ghost t = if v@.len() > 0 && v@[0] == '+' { v@.drop_first() } else { v@ };
    assert(t == v@.skip(start as int));
    if start == v.len() {
        return None;
    }
    let mut acc: u64 = 0;
    let mut i = start;
    while i < v.len()
        invariant
            start <= i <= v.len(),
            t == v@.skip(start as int),
            t == (if v@.len() > 0 && v@[0] == '+' { v@.drop_first() } else { v@ }),
            t.len() > 0,
            all_digits(t.take(i - start)),
            acc == digits_value(t.take(i - start)),
            acc <= u32::MAX,
        decreases v.len() - i,
    {
        let c = v[i];
        if !('0' <= c && c <= '9') {
            proof {
                assert(!is_digit(t[i - start]));
            }
            return None;
        }
        proof {
            lemma_digits_value_take(t, i - start);
            assert(all_digits(t.take(i - start + 1))) by {
                assert forall|j: int| 0 <= j < i - start + 1 implies is_digit(
                    #[trigger] t.take(i - start + 1)[j],
                ) by {
                    if j < i - start {
                        assert(t.take(i - start + 1)[j] == t.take(i - start)[j]);
                    }
                }
            }
        }
        acc = acc * 10 + (c as u32 - 48) as u64;
        i += 1;
        if acc > 4294967295 {
            proof {
                if all_digits(t) {
                    lemma_digits_value_mono(t, i - start);
                }
            }
            return None;
        }
    }
    assert(t.take(i - start) == t);
    Some(acc as u32)
}

} // verus!
