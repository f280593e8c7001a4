//! Text handling for the kernel interface files: whitespace, trimming, line
//! and word splitting, decimal parsing and decimal formatting, each with the
//! meaning that the standard library gives it.

use vstd::prelude::*;

verus! {

/// Whether `c` has the Unicode `White_Space` property (what
/// `char::is_whitespace` tests).
pub open spec fn is_whitespace(c: char) -> bool {
    let u = c as u32;
    ||| 0x9 <= u <= 0xD
    ||| u == 0x20
    ||| u == 0x85
    ||| u == 0xA0
    ||| u == 0x1680
    ||| 0x2000 <= u <= 0x200A
    ||| u == 0x2028
    ||| u == 0x2029
    ||| u == 0x202F
    ||| u == 0x205F
    ||| u == 0x3000
}

/// Executable form of [`is_whitespace`].
pub fn char_is_whitespace(c: char) -> (b: bool)
    ensures
        b == is_whitespace(c),
{
    let u = c as u32;
    (0x9 <= u && u <= 0xD) || u == 0x20 || u == 0x85 || u == 0xA0 || u == 0x1680 || (0x2000 <= u
        && u <= 0x200A) || u == 0x2028 || u == 0x2029 || u == 0x202F || u == 0x205F || u == 0x3000
}

/// `s` without its leading whitespace.
pub open spec fn trim_start(s: Seq<char>) -> Seq<char>
    decreases s.len(),
{
    if s.len() > 0 && is_whitespace(s[0]) {
        trim_start(s.drop_first())
    } else {
        s
    }
}

/// `s` without its trailing whitespace.
pub open spec fn trim_end(s: Seq<char>) -> Seq<char>
    decreases s.len(),
{
    if s.len() > 0 && is_whitespace(s.last()) {
        trim_end(s.drop_last())
    } else {
        s
    }
}

/// `s` without leading nor trailing whitespace (`str::trim`).
pub open spec fn trim(s: Seq<char>) -> Seq<char> {
    trim_end(trim_start(s))
}

/// The pieces of `s` between the occurrences of `sep` (`str::split` with a
/// char): one more piece than there are separators, empty ones included.
pub open spec fn split_on(s: Seq<char>, sep: char) -> Seq<Seq<char>>
    decreases s.len(),
{
    if s.len() == 0 {
        seq![Seq::empty()]
    } else {
        let rest = split_on(s.drop_last(), sep);
        if s.last() == sep {
            rest.push(Seq::empty())
        } else {
            rest.update(rest.len() - 1, rest.last().push(s.last()))
        }
    }
}

/// A line without the carriage return of its `\r\n` ending.
pub open spec fn strip_cr(l: Seq<char>) -> Seq<char> {
    if l.len() > 0 && l.last() == '\r' {
        l.drop_last()
    } else {
        l
    }
}

/// The lines of `s` (`str::lines`): split at `\n`, a `\r` before a `\n`
/// dropped, no empty last line when `s` ends with a line ending.
pub open spec fn lines(s: Seq<char>) -> Seq<Seq<char>> {
    let p = split_on(s, '\n');
    let ended = p.drop_last().map_values(|l: Seq<char>| strip_cr(l));
    if p.last().len() == 0 {
        ended
    } else {
        ended.push(p.last())
    }
}

/// The words of `s` (`str::split_whitespace`): maximal runs of
/// non-whitespace characters, in order.
pub open spec fn words(s: Seq<char>) -> Seq<Seq<char>>
    decreases s.len(),
{
    if s.len() == 0 {
        seq![]
    } else {
        let w = words(s.drop_last());
        if is_whitespace(s.last()) {
            w
        } else if s.len() >= 2 && !is_whitespace(s[s.len() - 2]) {
            w.update(w.len() - 1, w.last().push(s.last()))
        } else {
            w.push(seq![s.last()])
        }
    }
}

/// The subranges of `s` that `r` delimits.
pub open spec fn pieces(s: Seq<char>, r: Seq<(usize, usize)>) -> Seq<Seq<char>> {
    r.map_values(|p: (usize, usize)| s.subrange(p.0 as int, p.1 as int))
}

/// Ranges that lie inside a text of length `n`.
pub open spec fn ranges_within(r: Seq<(usize, usize)>, n: int) -> bool {
    forall|k: int| 0 <= k < r.len() ==> #[trigger] r[k].0 <= r[k].1 <= n
}

/// The characters of a string slice (`str::chars`, collected).
#[verifier::external_body]
pub(crate) fn chars_of(s: &str) -> (v: Vec<char>)
    ensures
        v@ == s@,
{
    s.chars().collect()
}

/// The string made of the given characters (`String::from_iter`).
#[verifier::external_body]
pub(crate) fn string_of(v: Vec<char>) -> (s: String)
    ensures
        s@ == v@,
{
    String::from_iter(v)
}

/// A copy of `v[lo..hi]`.
pub fn copy_range(v: &Vec<char>, lo: usize, hi: usize) -> (r: Vec<char>)
    requires
        lo <= hi <= v@.len(),
    ensures
        r@ == v@.subrange(lo as int, hi as int),
{
    let mut r: Vec<char> = Vec::new();
    let mut i = lo;
    while i < hi
        invariant
            lo <= i <= hi <= v@.len(),
            r@ == v@.subrange(lo as int, i as int),
        decreases hi - i,
    {
        r.push(v[i]);
        i = i + 1;
        assert(r@ =~= v@.subrange(lo as int, i as int));
    }
    r
}

/// The string made of `v[lo..hi]`.
pub fn string_of_range(v: &Vec<char>, lo: usize, hi: usize) -> (s: String)
    requires
        lo <= hi <= v@.len(),
    ensures
        s@ == v@.subrange(lo as int, hi as int),
{
    string_of(copy_range(v, lo, hi))
}

proof fn lemma_trim_start_step(s: Seq<char>, i: int)
    requires
        0 <= i < s.len(),
        is_whitespace(s[i]),
    ensures
        trim_start(s.subrange(i, s.len() as int)) == trim_start(s.subrange(i + 1, s.len() as int)),
{
    let t = s.subrange(i, s.len() as int);
    assert(t.drop_first() =~= s.subrange(i + 1, s.len() as int));
}

proof fn lemma_trim_end_step(s: Seq<char>, lo: int, j: int)
    requires
        0 <= lo < j <= s.len(),
        is_whitespace(s[j - 1]),
    ensures
        trim_end(s.subrange(lo, j)) == trim_end(s.subrange(lo, j - 1)),
{
    let t = s.subrange(lo, j);
    assert(t.drop_last() =~= s.subrange(lo, j - 1));
}

/// The bounds of `trim(v[lo..hi])` inside `v`.
pub fn trim_range(v: &Vec<char>, lo: usize, hi: usize) -> (r: (usize, usize))
    requires
        lo <= hi <= v@.len(),
    ensures
        lo <= r.0 <= r.1 <= hi,
        v@.subrange(r.0 as int, r.1 as int) == trim(v@.subrange(lo as int, hi as int)),
{
    let mut i = lo;
    while i < hi && char_is_whitespace(v[i])
        invariant
            lo <= i <= hi <= v@.len(),
            trim_start(v@.subrange(lo as int, hi as int)) == trim_start(
                v@.subrange(i as int, hi as int),
            ),
        decreases hi - i,
    {
        proof {
            let w = v@.subrange(lo as int, hi as int);
            lemma_trim_start_step(w, i - lo);
            assert(w.subrange(i - lo, w.len() as int) =~= v@.subrange(i as int, hi as int));
            assert(w.subrange(i - lo + 1, w.len() as int) =~= v@.subrange(i + 1, hi as int));
        }
        i = i + 1;
    }
    let mut j = hi;
    while j > i && char_is_whitespace(v[j - 1])
        invariant
            lo <= i <= j <= hi <= v@.len(),
            trim_start(v@.subrange(lo as int, hi as int)) == v@.subrange(i as int, hi as int),
            trim_end(v@.subrange(i as int, hi as int)) == trim_end(v@.subrange(i as int, j as int)),
        decreases j - i,
    {
        proof {
            lemma_trim_end_step(v@, i as int, j as int);
        }
        j = j - 1;
    }
    (i, j)
}


proof fn lemma_split_on_nonempty(s: Seq<char>, sep: char)
    ensures
        split_on(s, sep).len() >= 1,
    decreases s.len(),
{
    if s.len() > 0 {
        lemma_split_on_nonempty(s.drop_last(), sep);
    }
}

/// The ranges of the pieces of `v` between the occurrences of `sep`.
pub fn split_ranges(v: &Vec<char>, sep: char) -> (r: Vec<(usize, usize)>)
    ensures
        ranges_within(r@, v@.len() as int),
        pieces(v@, r@) == split_on(v@, sep),
        r@.len() >= 1,
{
    let mut r: Vec<(usize, usize)> = Vec::new();
    let mut start: usize = 0;
    let mut i: usize = 0;
    proof {
        assert(v@.subrange(0, 0) =~= Seq::<char>::empty());
        assert(pieces(v@, r@).push(v@.subrange(0, 0)) =~= seq![Seq::<char>::empty()]);
    }
    while i < v.len()
        invariant
            0 <= start <= i <= v@.len(),
            ranges_within(r@, v@.len() as int),
            pieces(v@, r@).push(v@.subrange(start as int, i as int)) == split_on(
                v@.subrange(0, i as int),
                sep,
            ),
        decreases v@.len() - i,
    {
        let ghost old_r = r@;
        proof {
            assert(v@.subrange(0, i + 1).drop_last() =~= v@.subrange(0, i as int));
        }
        if v[i] == sep {
            r.push((start, i));
            start = i + 1;
            proof {
                assert(pieces(v@, r@) =~= pieces(v@, old_r).push(
                    v@.subrange(r@.last().0 as int, i as int),
                ));
                assert(v@.subrange(start as int, (i + 1) as int) =~= Seq::<char>::empty());
            }
        } else {
            proof {
                assert(v@.subrange(start as int, i + 1) =~= v@.subrange(
                    start as int,
                    i as int,
                ).push(v@[i as int]));
                assert(pieces(v@, r@).push(v@.subrange(start as int, i + 1)) =~= pieces(
                    v@,
                    r@,
                ).push(v@.subrange(start as int, i as int)).update(
                    pieces(v@, r@).len() as int,
                    v@.subrange(start as int, i as int).push(v@[i as int]),
                ));
            }
        }
        i = i + 1;
    }
    let ghost before = r@;
    r.push((start, i));
    proof {
        assert(v@.subrange(0, v@.len() as int) =~= v@);
        assert(pieces(v@, r@) =~= pieces(v@, before).push(v@.subrange(start as int, i as int)));
    }
    r
}

/// The ranges of the lines of `v`.
pub fn line_ranges(v: &Vec<char>) -> (r: Vec<(usize, usize)>)
    ensures
        ranges_within(r@, v@.len() as int),
        pieces(v@, r@) == lines(v@),
{
    let p = split_ranges(v, '\n');
    let n = p.len() - 1;
    let ghost sp = split_on(v@, '\n');
    let ghost ended = sp.drop_last().map_values(|l: Seq<char>| strip_cr(l));
    let mut r: Vec<(usize, usize)> = Vec::new();
    let mut k: usize = 0;
    while k < n
        invariant
            n + 1 == p@.len(),
            0 <= k <= n,
            ranges_within(p@, v@.len() as int),
            ranges_within(r@, v@.len() as int),
            pieces(v@, p@) == sp,
            sp.len() == n + 1,
            ended == sp.drop_last().map_values(|l: Seq<char>| strip_cr(l)),
            pieces(v@, r@) == ended.subrange(0, k as int),
        decreases n - k,
    {
        let (a, b) = p[k];
        let ghost old_r = r@;
        assert(p@[k as int].0 <= p@[k as int].1 <= v@.len());
        assert(sp[k as int] == v@.subrange(a as int, b as int));
        if b > a && v[b - 1] == '\r' {
            r.push((a, b - 1));
            proof {
                assert(v@.subrange(a as int, b as int).drop_last() =~= v@.subrange(
                    a as int,
                    b - 1,
                ));
            }
        } else {
            r.push((a, b));
        }
        proof {
            assert(pieces(v@, r@) =~= pieces(v@, old_r).push(strip_cr(sp[k as int])));
            assert(ended.subrange(0, k + 1) =~= ended.subrange(0, k as int).push(ended[k as int]));
        }
        k = k + 1;
    }
    proof {
        assert(ended.subrange(0, n as int) =~= ended);
    }
    let (a, b) = p[n];
    assert(p@[n as int].0 <= p@[n as int].1 <= v@.len());
    assert(sp.last() == v@.subrange(a as int, b as int));
    if a < b {
        let ghost old_r = r@;
        r.push((a, b));
        proof {
            assert(pieces(v@, r@) =~= pieces(v@, old_r).push(sp.last()));
        }
    }
    r
}

/// The ranges of the words of `v[lo..hi]`.
pub fn word_ranges(v: &Vec<char>, lo: usize, hi: usize) -> (r: Vec<(usize, usize)>)
    requires
        lo <= hi <= v@.len(),
    ensures
        ranges_within(r@, v@.len() as int),
        forall|k: int| 0 <= k < r@.len() ==> lo <= #[trigger] r@[k].0,
        forall|k: int| 0 <= k < r@.len() ==> #[trigger] r@[k].1 <= hi,
        pieces(v@, r@) == words(v@.subrange(lo as int, hi as int)),
{
    let ghost s = v@.subrange(lo as int, hi as int);
    let mut r: Vec<(usize, usize)> = Vec::new();
    let mut in_word = false;
    let mut start: usize = lo;
    let mut i: usize = lo;
    while i < hi
        invariant
            lo <= start <= i <= hi <= v@.len(),
            s == v@.subrange(lo as int, hi as int),
            ranges_within(r@, v@.len() as int),
            forall|k: int| 0 <= k < r@.len() ==> lo <= #[trigger] r@[k].0,
            forall|k: int| 0 <= k < r@.len() ==> #[trigger] r@[k].1 <= i,
            in_word ==> start < i && !is_whitespace(v@[i - 1]),
            !in_word ==> i == lo || is_whitespace(v@[i - 1]),
            words(v@.subrange(lo as int, i as int)) == if in_word {
                pieces(v@, r@).push(v@.subrange(start as int, i as int))
            } else {
                pieces(v@, r@)
            },
        decreases hi - i,
    {
        let c = v[i];
        let ghost t = v@.subrange(lo as int, i + 1);
        let ghost old_r = r@;
        proof {
            assert(t.drop_last() =~= v@.subrange(lo as int, i as int));
            assert(t.last() == c);
        }
        if char_is_whitespace(c) {
            if in_word {
                r.push((start, i));
                in_word = false;
                proof {
                    assert(pieces(v@, r@) =~= pieces(v@, old_r).push(
                        v@.subrange(start as int, i as int),
                    ));
                }
            }
        } else {
            if in_word {
                proof {
                    assert(t[t.len() - 2] == v@[i - 1]);
                    assert(v@.subrange(start as int, i + 1) =~= v@.subrange(
                        start as int,
                        i as int,
                    ).push(c));
                    assert(pieces(v@, r@).push(v@.subrange(start as int, i + 1)) =~= pieces(
                        v@,
                        r@,
                    ).push(v@.subrange(start as int, i as int)).update(
                        pieces(v@, r@).len() as int,
                        v@.subrange(start as int, i as int).push(c),
                    ));
                }
            } else {
                proof {
                    if i > lo {
                        assert(t[t.len() - 2] == v@[i - 1]);
                    }
                    assert(v@.subrange(i as int, i + 1) =~= seq![c]);
                }
                start = i;
                in_word = true;
            }
        }
        i = i + 1;
    }
    if in_word {
        let ghost old_r = r@;
        r.push((start, i));
        proof {
            assert(pieces(v@, r@) =~= pieces(v@, old_r).push(v@.subrange(start as int, i as int)));
        }
    }
    r
}


/// Whether `c` is an ASCII decimal digit.
pub open spec fn is_digit(c: char) -> bool {
    48 <= c as u32 <= 57
}

/// The value of a decimal digit.
pub open spec fn digit_value(c: char) -> nat {
    (c as u32 - 48) as nat
}

/// The value of a string of decimal digits.
pub open spec fn digits_value(s: Seq<char>) -> nat
    decreases s.len(),
{
    if s.len() == 0 {
        0
    } else {
        digits_value(s.drop_last()) * 10 + digit_value(s.last())
    }
}

/// Whether every character of `s` is a decimal digit.
pub open spec fn all_digits(s: Seq<char>) -> bool {
    forall|i: int| 0 <= i < s.len() ==> is_digit(#[trigger] s[i])
}

/// What `str::parse::<u64>` gives: an optional `+`, then one or more decimal
/// digits whose value fits in a `u64`.
pub open spec fn parse_u64(s: Seq<char>) -> Option<u64> {
    let d = if s.len() > 1 && s[0] == '+' {
        s.drop_first()
    } else {
        s
    };
    if d.len() > 0 && all_digits(d) && digits_value(d) <= u64::MAX {
        Some(digits_value(d) as u64)
    } else {
        None
    }
}

proof fn lemma_digits_value_grows(s: Seq<char>, i: int, j: int)
    requires
        0 <= i <= j <= s.len(),
        all_digits(s),
    ensures
        digits_value(s.subrange(0, i)) <= digits_value(s.subrange(0, j)),
    decreases j - i,
{
    if i < j {
        lemma_digits_value_grows(s, i, j - 1);
        assert(s.subrange(0, j).drop_last() =~= s.subrange(0, j - 1));
    }
}

/// Parses `v[lo..hi]` as `str::parse::<u64>` does.
pub fn parse_u64_range(v: &Vec<char>, lo: usize, hi: usize) -> (r: Option<u64>)
    requires
        lo <= hi <= v@.len(),
    ensures
        r == parse_u64(v@.subrange(lo as int, hi as int)),
{
    let ghost s = v@.subrange(lo as int, hi as int);
    let mut b = lo;
    if hi - lo > 1 && v[lo] == '+' {
        b = lo + 1;
    }
    let ghost d = v@.subrange(b as int, hi as int);
    proof {
        if b == lo + 1 {
            assert(d =~= s.drop_first());
        } else {
            assert(d =~= s);
        }
    }
    if b == hi {
        return None;
    }
    let mut acc: u64 = 0;
    let mut overflow = false;
    let mut i = b;
    proof {
        assert(d.subrange(0, 0) =~= Seq::<char>::empty());
    }
    while i < hi
        invariant
            b <= i <= hi <= v@.len(),
            d == v@.subrange(b as int, hi as int),
            s == v@.subrange(lo as int, hi as int),
            (s.len() > 1 && s[0] == '+') ==> d == s.drop_first(),
            !(s.len() > 1 && s[0] == '+') ==> d == s,
            forall|k: int| b <= k < i ==> is_digit(#[trigger] v@[k]),
            !overflow ==> acc == digits_value(d.subrange(0, i - b)),
            overflow ==> digits_value(d.subrange(0, i - b)) > u64::MAX,
        decreases hi - i,
    {
        let c = v[i];
        let u = c as u32;
        if u < 48 || u > 57 {
            proof {
                assert(d[i - b] == c);
                assert(!is_digit(d[i - b]));
                assert(!all_digits(d));
                if s.len() > 1 && s[0] == '+' {
                    assert(d == s.drop_first());
                } else {
                    assert(d == s);
                }
            }
            return None;
        }
        let dv = (u - 48) as u64;
        proof {
            assert(d.subrange(0, i - b + 1).drop_last() =~= d.subrange(0, i - b));
            assert(d.subrange(0, i - b + 1).last() == c);
        }
        if !overflow {
            match acc.checked_mul(10) {
                Some(m) => match m.checked_add(dv) {
                    Some(n) => {
                        acc = n;
                    },
                    None => {
                        overflow = true;
                    },
                },
                None => {
                    overflow = true;
                },
            }
        }
        i = i + 1;
    }
    proof {
        assert(d.subrange(0, d.len() as int) =~= d);
        assert(all_digits(d));
    }
    if overflow {
        None
    } else {
        Some(acc)
    }
}

/// Parses a string slice as `str::parse::<u64>` does.
pub fn parse_u64_str(s: &str) -> (r: Option<u64>)
    ensures
        r == parse_u64(s@),
{
    let v = chars_of(s);
    proof {
        assert(v@.subrange(0, v@.len() as int) =~= v@);
    }
    parse_u64_range(&v, 0, v.len())
}

/// The first position of `c` in `v[lo..hi]`.
pub fn find_char(v: &Vec<char>, lo: usize, hi: usize, c: char) -> (r: Option<usize>)
    requires
        lo <= hi <= v@.len(),
    ensures
        match r {
            Some(k) => lo <= k < hi && v@[k as int] == c && forall|j: int|
                lo <= j < k ==> v@[j] != c,
            None => forall|j: int| lo <= j < hi ==> v@[j] != c,
        },
{
    let mut i = lo;
    while i < hi
        invariant
            lo <= i <= hi <= v@.len(),
            forall|j: int| lo <= j < i ==> v@[j] != c,
        decreases hi - i,
    {
        if v[i] == c {
            return Some(i);
        }
        i = i + 1;
    }
    None
}

/// Whether `v[lo..hi]` starts with `p`.
pub fn starts_with(v: &Vec<char>, lo: usize, hi: usize, p: &Vec<char>) -> (b: bool)
    requires
        lo <= hi <= v@.len(),
    ensures
        b == (p@.len() <= hi - lo && v@.subrange(lo as int, lo + p@.len()) == p@),
{
    if p.len() > hi - lo {
        return false;
    }
    let mut k: usize = 0;
    while k < p.len()
        invariant
            p@.len() <= hi - lo,
            lo <= hi <= v@.len(),
            0 <= k <= p@.len(),
            forall|j: int| 0 <= j < k ==> v@[lo + j] == p@[j],
        decreases p@.len() - k,
    {
        if v[lo + k] != p[k] {
            proof {
                assert(v@.subrange(lo as int, lo + p@.len())[k as int] != p@[k as int]);
            }
            return false;
        }
        k = k + 1;
    }
    proof {
        assert(v@.subrange(lo as int, lo + p@.len()) =~= p@);
    }
    true
}

/// Whether `v[lo..hi]` equals `p`.
pub fn range_equals(v: &Vec<char>, lo: usize, hi: usize, p: &Vec<char>) -> (b: bool)
    requires
        lo <= hi <= v@.len(),
    ensures
        b == (v@.subrange(lo as int, hi as int) == p@),
{
    if p.len() != hi - lo {
        proof {
            if v@.subrange(lo as int, hi as int) == p@ {
                assert(v@.subrange(lo as int, hi as int).len() == p@.len());
            }
        }
        return false;
    }
    let r = starts_with(v, lo, hi, p);
    proof {
        assert(lo + p@.len() == hi);
    }
    r
}

/// Whether two character vectors are equal.
pub fn chars_equal(a: &Vec<char>, b: &Vec<char>) -> (r: bool)
    ensures
        r == (a@ == b@),
{
    proof {
        assert(a@.subrange(0, a@.len() as int) =~= a@);
    }
    range_equals(a, 0, a.len(), b)
}

/// The character of a decimal digit.
pub open spec fn digit_char(d: nat) -> char {
    if d == 0 {
        '0'
    } else if d == 1 {
        '1'
    } else if d == 2 {
        '2'
    } else if d == 3 {
        '3'
    } else if d == 4 {
        '4'
    } else if d == 5 {
        '5'
    } else if d == 6 {
        '6'
    } else if d == 7 {
        '7'
    } else if d == 8 {
        '8'
    } else {
        '9'
    }
}

/// The decimal writing of `n`, without leading zeros.
pub open spec fn decimal(n: nat) -> Seq<char>
    decreases n,
{
    if n < 10 {
        seq![digit_char(n)]
    } else {
        decimal(n / 10).push(digit_char(n % 10))
    }
}

fn digit_to_char(d: u128) -> (c: char)
    requires
        d < 10,
    ensures
        c == digit_char(d as nat),
{
    if d == 0 {
        '0'
    } else if d == 1 {
        '1'
    } else if d == 2 {
        '2'
    } else if d == 3 {
        '3'
    } else if d == 4 {
        '4'
    } else if d == 5 {
        '5'
    } else if d == 6 {
        '6'
    } else if d == 7 {
        '7'
    } else if d == 8 {
        '8'
    } else {
        '9'
    }
}

/// The decimal writing of `n`.
pub fn decimal_chars(n: u128) -> (v: Vec<char>)
    ensures
        v@ == decimal(n as nat),
{
    if n < 10 {
        return vec![digit_to_char(n)];
    }
    let mut out: Vec<char> = Vec::new();
    let mut m = n;
    while m > 0
        invariant
            m == 0 ==> decimal(n as nat) == out@,
            m > 0 ==> decimal(n as nat) == decimal(m as nat) + out@,
        decreases m,
    {
        let c = digit_to_char(m % 10);
        let ghost old_out = out@;
        out.insert(0, c);
        proof {
            if m >= 10 {
                assert(decimal(m as nat) == decimal((m / 10) as nat).push(c));
                assert(decimal((m / 10) as nat) + out@ =~= decimal((m / 10) as nat).push(c)
                    + old_out);
            } else {
                assert(decimal(m as nat) == seq![c]);
                assert(out@ =~= seq![c] + old_out);
            }
        }
        m = m / 10;
    }
    out
}

/// The decimal writing of `n` as a string (`u128::to_string`).
pub fn decimal_string(n: u128) -> (s: String)
    ensures
        s@ == decimal(n as nat),
{
    string_of(decimal_chars(n))
}


/// The position of the first `c` in `s`, or the length of `s` if there is
/// none.
pub open spec fn index_of(s: Seq<char>, c: char) -> int
    decreases s.len(),
{
    if s.len() == 0 {
        0
    } else if s[0] == c {
        0
    } else {
        1 + index_of(s.drop_first(), c)
    }
}

/// `index_of` is the first position of `c`, when there is one.
pub proof fn lemma_index_of(s: Seq<char>, c: char, k: int)
    requires
        0 <= k <= s.len(),
        k < s.len() ==> s[k] == c,
        forall|j: int| 0 <= j < k ==> s[j] != c,
    ensures
        index_of(s, c) == k,
    decreases k,
{
    if k > 0 {
        lemma_index_of(s.drop_first(), c, k - 1);
    }
}


/// The decimal writing of a signed integer (`i32::to_string`).
pub open spec fn signed_decimal(n: int) -> Seq<char> {
    if n < 0 {
        seq!['-'] + decimal((-n) as nat)
    } else {
        decimal(n as nat)
    }
}

/// The decimal writing of `n` as a string.
pub fn i32_decimal_string(n: i32) -> (s: String)
    ensures
        s@ == signed_decimal(n as int),
{
    if n < 0 {
        let m: u128 = (0i64 - n as i64) as u128;
        let mut out = vec!['-'];
        let d = decimal_chars(m);
        let mut i: usize = 0;
        while i < d.len()
            invariant
                0 <= i <= d@.len(),
                out@ == seq!['-'] + d@.subrange(0, i as int),
            decreases d@.len() - i,
        {
            out.push(d[i]);
            i = i + 1;
            proof {
                assert(out@ =~= seq!['-'] + d@.subrange(0, i as int));
            }
        }
        proof {
            assert(d@.subrange(0, d@.len() as int) =~= d@);
        }
        string_of(out)
    } else {
        decimal_string(n as u128)
    }
}

/// What `str::parse::<i32>` gives: an optional sign, then one or more
/// decimal digits whose signed value fits in an `i32`.
pub open spec fn parse_i32(s: Seq<char>) -> Option<i32> {
    let neg = s.len() > 1 && s[0] == '-';
    let d = if s.len() > 1 && (s[0] == '+' || s[0] == '-') {
        s.drop_first()
    } else {
        s
    };
    if d.len() > 0 && all_digits(d) && (if neg {
        digits_value(d) <= 0x8000_0000
    } else {
        digits_value(d) <= 0x7fff_ffff
    }) {
        Some(
            if neg {
                (-(digits_value(d) as int)) as i32
            } else {
                digits_value(d) as i32
            },
        )
    } else {
        None
    }
}

/// Parses `v[lo..hi]` as `str::parse::<i32>` does.
pub fn parse_i32_range(v: &Vec<char>, lo: usize, hi: usize) -> (r: Option<i32>)
    requires
        lo <= hi <= v@.len(),
    ensures
        r == parse_i32(v@.subrange(lo as int, hi as int)),
{
    let ghost s = v@.subrange(lo as int, hi as int);
    if hi - lo > 1 && (v[lo] == '+' || v[lo] == '-') {
        let neg = v[lo] == '-';
        if v[lo + 1] == '+' {
            proof {
                let d = s.drop_first();
                assert(d[0] == v@[lo + 1]);
                assert(!is_digit(d[0]));
            }
            return None;
        }
        let m = parse_u64_range(v, lo + 1, hi);
        proof {
            assert(v@.subrange(lo + 1, hi as int) =~= s.drop_first());
            let d = s.drop_first();
            assert(d.len() > 0);
            assert(d[0] == v@[lo + 1]);
        }
        match m {
            Some(x) => {
                if neg {
                    if x <= 0x8000_0000 {
                        Some((0i64 - x as i64) as i32)
                    } else {
                        None
                    }
                } else {
                    if x <= 0x7fff_ffff {
                        Some(x as i32)
                    } else {
                        None
                    }
                }
            },
            None => None,
        }
    } else {
        let m = parse_u64_range(v, lo, hi);
        proof {
            if s.len() > 1 && s[0] == '+' {
                assert(false);
            }
        }
        match m {
            Some(x) => {
                if x <= 0x7fff_ffff {
                    Some(x as i32)
                } else {
                    None
                }
            },
            None => None,
        }
    }
}


/// `v` with the characters of `w` appended.
pub fn push_all(v: &mut Vec<char>, w: &Vec<char>)
    ensures
        final(v)@ == old(v)@ + w@,
{
    let ghost start = v@;
    let mut i: usize = 0;
    while i < w.len()
        invariant
            0 <= i <= w@.len(),
            v@ == start + w@.subrange(0, i as int),
        decreases w@.len() - i,
    {
        v.push(w[i]);
        i = i + 1;
        proof {
            assert(v@ =~= start + w@.subrange(0, i as int));
        }
    }
    proof {
        assert(w@.subrange(0, w@.len() as int) =~= w@);
    }
}

/// The concatenation of three strings.
pub fn concat3(a: &str, b: &str, c: &str) -> (s: String)
    ensures
        s@ == a@ + b@ + c@,
{
    let mut v = chars_of(a);
    push_all(&mut v, &chars_of(b));
    push_all(&mut v, &chars_of(c));
    string_of(v)
}

} // verus!
