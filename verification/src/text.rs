//! Character-level helpers shared by the parsers: the meaning of Rust's
//! `trim`-style operations, character searches and decimal integer
//! parsing, stated over sequences of characters.

use vstd::prelude::*;

verus! {

/// A set of characters that a trim operation removes.
#[derive(Clone, Copy)]
pub enum CharClass {
    /// Exactly the given character.
    Is(char),
    /// The characters with the Unicode `White_Space` property (what `char::is_whitespace` accepts).
    Whitespace,
}

/// The Unicode `White_Space` property.
pub open spec fn is_whitespace(c: char) -> bool {
    ||| '\u{9}' <= c <= '\u{d}'
    ||| c == ' '
    ||| c == '\u{85}'
    ||| c == '\u{a0}'
    ||| c == '\u{1680}'
    ||| '\u{2000}' <= c <= '\u{200a}'
    ||| c == '\u{2028}'
    ||| c == '\u{2029}'
    ||| c == '\u{202f}'
    ||| c == '\u{205f}'
    ||| c == '\u{3000}'
}

pub open spec fn in_class(cls: CharClass, c: char) -> bool {
    match cls {
        CharClass::Is(d) => c == d,
        CharClass::Whitespace => is_whitespace(c),
    }
}

/// `s` without its longest prefix made of characters of `cls`.
pub open spec fn trim_start(s: Seq<char>, cls: CharClass) -> Seq<char>
    decreases s.len(),
{
    if s.len() > 0 && in_class(cls, s[0]) {
        trim_start(s.drop_first(), cls)
    } else {
        s
    }
}

/// `s` without its longest suffix made of characters of `cls`.
pub open spec fn trim_end(s: Seq<char>, cls: CharClass) -> Seq<char>
    decreases s.len(),
{
    if s.len() > 0 && in_class(cls, s.last()) {
        trim_end(s.drop_last(), cls)
    } else {
        s
    }
}

/// What `str::trim` gives: no whitespace at either end.
pub open spec fn trim(s: Seq<char>) -> Seq<char> {
    trim_end(trim_start(s, CharClass::Whitespace), CharClass::Whitespace)
}

/// Index of the first occurrence of `c` in `s`, or -1.
pub open spec fn first_index(s: Seq<char>, c: char) -> int
    decreases s.len(),
{
    if s.len() == 0 {
        -1
    } else if s[0] == c {
        0
    } else {
        let r = first_index(s.drop_first(), c);
        if r < 0 {
            -1
        } else {
            r + 1
        }
    }
}

/// Index of the last occurrence of `c` in `s`, or -1.
pub open spec fn last_index(s: Seq<char>, c: char) -> int
    decreases s.len(),
{
    if s.len() == 0 {
        -1
    } else if s.last() == c {
        s.len() - 1
    } else {
        last_index(s.drop_last(), c)
    }
}

/// Index of the last occurrence of the two-character pattern `a b` in `s`, or -1.
pub open spec fn last_pair_index(s: Seq<char>, a: char, b: char) -> int
    decreases s.len(),
{
    if s.len() < 2 {
        -1
    } else if s[s.len() - 2] == a && s.last() == b {
        s.len() - 2
    } else {
        last_pair_index(s.drop_last(), a, b)
    }
}

pub open spec fn is_digit(c: char) -> bool {
    '0' <= c <= '9'
}

pub open spec fn digit_value(c: char) -> int {
    (c as int) - ('0' as int)
}

pub open spec fn all_digits(s: Seq<char>) -> bool {
    forall|i: int| 0 <= i < s.len() ==> is_digit(#[trigger] s[i])
}

/// The number that a string of decimal digits denotes.
pub open spec fn digits_value(s: Seq<char>) -> int
    decreases s.len(),
{
    if s.len() == 0 {
        0
    } else {
        digits_value(s.drop_last()) * 10 + digit_value(s.last())
    }
}

/// A non-empty string of decimal digits whose value is at most `max`.
pub open spec fn digits_within(d: Seq<char>, max: int) -> bool {
    d.len() > 0 && all_digits(d) && digits_value(d) <= max
}

/// What `str::parse` gives for an unsigned integer type whose largest value is `max`:
/// an optional `+`, then at least one decimal digit, and nothing else.
pub open spec fn parse_unsigned(s: Seq<char>, max: int) -> Option<int> {
    let d = if s.len() > 0 && s[0] == '+' {
        s.drop_first()
    } else {
        s
    };
    if digits_within(d, max) {
        Some(digits_value(d))
    } else {
        None
    }
}

/// What `str::parse::<i32>` gives: an optional sign, then at least one
/// decimal digit, the value in the range of `i32`.
pub open spec fn parse_i32(s: Seq<char>) -> Option<i32> {
    if s.len() > 0 && s[0] == '-' {
        let d = s.drop_first();
        if digits_within(d, 0x8000_0000) {
            Some((-digits_value(d)) as i32)
        } else {
            None
        }
    } else {
        match parse_unsigned(s, 0x7fff_ffff) {
            Some(v) => Some(v as i32),
            None => None,
        }
    }
}

pub proof fn lemma_digits_value_nonneg(s: Seq<char>)
    requires
        all_digits(s),
    ensures
        digits_value(s) >= 0,
    decreases s.len(),
{
    if s.len() > 0 {
        assert(all_digits(s.drop_last())) by {
            assert forall|i: int| 0 <= i < s.drop_last().len() implies is_digit(
                #[trigger] s.drop_last()[i],
            ) by {
                assert(is_digit(s[i]));
            }
        }
        lemma_digits_value_nonneg(s.drop_last());
        assert(is_digit(s[s.len() - 1]));
    }
}

/// A prefix of a string of digits never denotes more than the whole string.
pub proof fn lemma_digits_value_prefix(s: Seq<char>, k: int)
    requires
        all_digits(s),
        0 <= k <= s.len(),
    ensures
        digits_value(s.take(k)) <= digits_value(s),
    decreases s.len(),
{
    if k == s.len() {
        assert(s.take(k) =~= s);
    } else {
        let t = s.drop_last();
        assert(all_digits(t)) by {
            assert forall|i: int| 0 <= i < t.len() implies is_digit(#[trigger] t[i]) by {
                assert(is_digit(s[i]));
            }
        }
        lemma_digits_value_prefix(t, k);
        assert(t.take(k) =~= s.take(k));
        lemma_digits_value_nonneg(t);
        assert(is_digit(s[s.len() - 1]));
    }
}

pub proof fn lemma_digits_value_step(s: Seq<char>, k: int)
    requires
        0 <= k < s.len(),
    ensures
        digits_value(s.take(k + 1)) == digits_value(s.take(k)) * 10 + digit_value(s[k]),
{
    assert(s.take(k + 1).drop_last() =~= s.take(k));
}

pub proof fn lemma_trim_start(s: Seq<char>, cls: CharClass, k: int)
    requires
        0 <= k <= s.len(),
        forall|j: int| 0 <= j < k ==> in_class(cls, #[trigger] s[j]),
        k == s.len() || !in_class(cls, s[k]),
    ensures
        trim_start(s, cls) == s.skip(k),
    decreases k,
{
    if k == 0 {
        assert(s.skip(0) =~= s);
    } else {
        assert(in_class(cls, s[0]));
        let t = s.drop_first();
        assert forall|j: int| 0 <= j < k - 1 implies in_class(cls, #[trigger] t[j]) by {
            assert(in_class(cls, s[j + 1]));
        }
        lemma_trim_start(t, cls, k - 1);
        assert(t.skip(k - 1) =~= s.skip(k));
    }
}

pub proof fn lemma_trim_end(s: Seq<char>, cls: CharClass, k: int)
    requires
        0 <= k <= s.len(),
        forall|j: int| k <= j < s.len() ==> in_class(cls, #[trigger] s[j]),
        k == 0 || !in_class(cls, s[k - 1]),
    ensures
        trim_end(s, cls) == s.take(k),
    decreases s.len() - k,
{
    if k == s.len() {
        assert(s.take(k) =~= s);
    } else {
        assert(in_class(cls, s[s.len() - 1]));
        let t = s.drop_last();
        assert forall|j: int| k <= j < t.len() implies in_class(cls, #[trigger] t[j]) by {
            assert(in_class(cls, s[j]));
        }
        lemma_trim_end(t, cls, k);
        assert(t.take(k) =~= s.take(k));
    }
}

pub proof fn lemma_first_index(s: Seq<char>, c: char, k: int)
    requires
        -1 <= k < s.len(),
        k == -1 || s[k] == c,
        forall|j: int| 0 <= j < s.len() && (k == -1 || j < k) ==> #[trigger] s[j] != c,
    ensures
        first_index(s, c) == k,
    decreases s.len(),
{
    if s.len() > 0 && k != 0 {
        let t = s.drop_first();
        assert(s[0] != c);
        assert forall|j: int| 0 <= j < t.len() && (k - 1 == -1 || j < k - 1 || k == -1) implies #[trigger] t[j] != c by {
            assert(s[j + 1] != c);
        }
        if k == -1 {
            lemma_first_index(t, c, -1);
        } else {
            lemma_first_index(t, c, k - 1);
        }
    }
}

pub proof fn lemma_last_index(s: Seq<char>, c: char, k: int)
    requires
        -1 <= k < s.len(),
        k == -1 || s[k] == c,
        forall|j: int| k < j < s.len() ==> #[trigger] s[j] != c,
    ensures
        last_index(s, c) == k,
    decreases s.len(),
{
    if s.len() > 0 && k != s.len() - 1 {
        let t = s.drop_last();
        assert(s[s.len() - 1] != c);
        assert forall|j: int| k < j < t.len() implies #[trigger] t[j] != c by {
            assert(s[j] != c);
        }
        lemma_last_index(t, c, k);
    }
}

pub proof fn lemma_last_pair_index(s: Seq<char>, a: char, b: char, k: int)
    requires
        -1 <= k,
        k + 1 < s.len() || k == -1,
        k == -1 || (s[k] == a && s[k + 1] == b),
        forall|j: int| k < j && j + 1 < s.len() ==> !(#[trigger] s[j] == a && s[j + 1] == b),
    ensures
        last_pair_index(s, a, b) == k,
    decreases s.len(),
{
    if s.len() >= 2 && k != s.len() - 2 {
        let t = s.drop_last();
        assert(!(s[s.len() - 2] == a && s[s.len() - 1] == b));
        assert forall|j: int| k < j && j + 1 < t.len() implies !(#[trigger] t[j] == a && t[j + 1]
            == b) by {
            assert(!(s[j] == a && s[j + 1] == b));
        }
        lemma_last_pair_index(t, a, b, k);
    }
}

/// Whether `c` belongs to `cls`.
pub fn class_contains(cls: CharClass, c: char) -> (r: bool)
    ensures
        r == in_class(cls, c),
{
    match cls {
        CharClass::Is(d) => c == d,
        CharClass::Whitespace => {
            ('\u{9}' <= c && c <= '\u{d}') || c == ' ' || c == '\u{85}' || c == '\u{a0}' || c
                == '\u{1680}' || ('\u{2000}' <= c && c <= '\u{200a}') || c == '\u{2028}' || c
                == '\u{2029}' || c == '\u{202f}' || c == '\u{205f}' || c == '\u{3000}'
        },
    }
}

/// Copies the characters of `s` into a vector.
pub fn chars_of(s: &str) -> (v: Vec<char>)
    ensures
        v@ == s@,
{
    let mut v: Vec<char> = Vec::new();
    for c in it: s.chars()
        invariant
            v@ == it.seq().take(it.index() as int),
    {
        v.push(c);
    }
    v
}

/// The bounds of `v[lo..hi]` once the characters of `cls` are trimmed from its start
/// (when `front`) or from its end (otherwise).
pub fn trim_bounds(v: &Vec<char>, lo: usize, hi: usize, cls: CharClass, front: bool) -> (r: (
    usize,
    usize,
))
    requires
        lo <= hi <= v.len(),
    ensures
        lo <= r.0 <= r.1 <= hi,
        front ==> r.1 == hi && v@.subrange(r.0 as int, r.1 as int) == trim_start(
            v@.subrange(lo as int, hi as int),
            cls,
        ),
        !front ==> r.0 == lo && v@.subrange(r.0 as int, r.1 as int) == trim_end(
            v@.subrange(lo as int, hi as int),
            cls,
        ),
{
    let ghost s = v@.subrange(lo as int, hi as int);
    if front {
        let mut i = lo;
        while i < hi && class_contains(cls, v[i])
            invariant
                lo <= i <= hi <= v.len(),
                s == v@.subrange(lo as int, hi as int),
                forall|j: int| 0 <= j < i - lo ==> in_class(cls, #[trigger] s[j]),
            decreases hi - i,
        {
            i = i + 1;
        }
        proof {
            lemma_trim_start(s, cls, i - lo);
            assert(s.skip(i - lo) =~= v@.subrange(i as int, hi as int));
        }
        (i, hi)
    } else {
        let mut k = hi;
        while k > lo && class_contains(cls, v[k - 1])
            invariant
                lo <= k <= hi <= v.len(),
                s == v@.subrange(lo as int, hi as int),
                forall|j: int| k - lo <= j < s.len() ==> in_class(cls, #[trigger] s[j]),
            decreases k - lo,
        {
            k = k - 1;
        }
        proof {
            lemma_trim_end(s, cls, k - lo);
            assert(s.take(k - lo) =~= v@.subrange(lo as int, k as int));
        }
        (lo, k)
    }
}

/// Position of the first `c` in `v[lo..]`, counted from `lo`, if there is one.
pub fn find_first(v: &Vec<char>, lo: usize, c: char) -> (r: Option<usize>)
    requires
        lo <= v.len(),
    ensures
        match r {
            Some(k) => k == first_index(v@.skip(lo as int), c) && lo + k < v@.len(),
            None => first_index(v@.skip(lo as int), c) == -1,
        },
{
    let ghost s = v@.skip(lo as int);
    let mut i = lo;
    while i < v.len()
        invariant
            lo <= i <= v.len(),
            s == v@.skip(lo as int),
            forall|j: int| 0 <= j < i - lo ==> #[trigger] s[j] != c,
        decreases v.len() - i,
    {
        if v[i] == c {
            proof {
                lemma_first_index(s, c, i - lo);
            }
            return Some(i - lo);
        }
        i = i + 1;
    }
    proof {
        lemma_first_index(s, c, -1);
    }
    None
}

/// Position of the last `c` in `v`, if there is one.
pub fn find_last(v: &Vec<char>, c: char) -> (r: Option<usize>)
    ensures
        match r {
            Some(k) => k == last_index(v@, c) && k < v@.len(),
            None => last_index(v@, c) == -1,
        },
{
    let mut k = v.len();
    while k > 0
        invariant
            k <= v.len(),
            forall|j: int| k <= j < v.len() ==> #[trigger] v@[j] != c,
        decreases k,
    {
        if v[k - 1] == c {
            proof {
                lemma_last_index(v@, c, k - 1);
            }
            return Some(k - 1);
        }
        k = k - 1;
    }
    proof {
        lemma_last_index(v@, c, -1);
    }
    None
}

/// Position of the last occurrence of `a b` in `v[..hi]`, if there is one.
pub fn find_last_pair(v: &Vec<char>, hi: usize, a: char, b: char) -> (r: Option<usize>)
    requires
        hi <= v.len(),
    ensures
        match r {
            Some(k) => k == last_pair_index(v@.take(hi as int), a, b) && k + 1 < hi,
            None => last_pair_index(v@.take(hi as int), a, b) == -1,
        },
{
    let ghost s = v@.take(hi as int);
    let mut k = hi;
    while k >= 2
        invariant
            k <= hi <= v.len(),
            s == v@.take(hi as int),
            forall|j: int| k - 1 <= j && j + 1 < hi ==> !(#[trigger] s[j] == a && s[j + 1] == b),
        decreases k,
    {
        if v[k - 2] == a && v[k - 1] == b {
            proof {
                lemma_last_pair_index(s, a, b, k - 2);
            }
            return Some(k - 2);
        }
        k = k - 1;
    }
    proof {
        lemma_last_pair_index(s, a, b, -1);
    }
    None
}

/// The value of the decimal digits `v[lo..hi]` when they are a non-empty
/// string of digits denoting at most `max`.
pub fn digits_in(v: &Vec<char>, lo: usize, hi: usize, max: u64) -> (r: Option<u64>)
    requires
        lo <= hi <= v.len(),
        max <= 0xffff_ffff,
    ensures
        match r {
            Some(n) => digits_within(v@.subrange(lo as int, hi as int), max as int) && n
                == digits_value(v@.subrange(lo as int, hi as int)),
            None => !digits_within(v@.subrange(lo as int, hi as int), max as int),
        },
{
    let ghost d = v@.subrange(lo as int, hi as int);
    if lo == hi {
        return None;
    }
    let mut acc: u64 = 0;
    let mut i = lo;
    while i < hi
        invariant
            lo <= i <= hi <= v.len(),
            max <= 0xffff_ffff,
            d == v@.subrange(lo as int, hi as int),
            forall|j: int| 0 <= j < i - lo ==> is_digit(#[trigger] d[j]),
            acc == digits_value(d.take(i - lo)),
            acc <= max,
        decreases hi - i,
    {
        let c = v[i];
        if !('0' <= c && c <= '9') {
            assert(!all_digits(d)) by {
                assert(!is_digit(d[i - lo]));
            }
            return None;
        }
        proof {
            lemma_digits_value_step(d, i - lo);
        }
        let digit = (c as u32 - '0' as u32) as u64;
        let next = acc * 10 + digit;
        if next > max {
            proof {
                if all_digits(d) {
                    lemma_digits_value_prefix(d, i - lo + 1);
                }
            }
            return None;
        }
        acc = next;
        i = i + 1;
    }
    assert(d.take(hi - lo) =~= d);
    Some(acc)
}

/// `parse_unsigned` of `v[lo..hi]`.
pub fn unsigned_in(v: &Vec<char>, lo: usize, hi: usize, max: u64) -> (r: Option<u64>)
    requires
        lo <= hi <= v.len(),
        max <= 0xffff_ffff,
    ensures
        match r {
            Some(n) => parse_unsigned(v@.subrange(lo as int, hi as int), max as int) == Some(
                n as int,
            ),
            None => parse_unsigned(v@.subrange(lo as int, hi as int), max as int) is None,
        },
{
    let ghost t = v@.subrange(lo as int, hi as int);
    let ds = if lo < hi && v[lo] == '+' {
        lo + 1
    } else {
        lo
    };
    proof {
        if lo < hi {
            assert(t.drop_first() =~= v@.subrange(lo + 1, hi as int));
        }
    }
    digits_in(v, ds, hi, max)
}

/// `parse_i32` of `v[lo..hi]`.
pub fn parse_i32_in(v: &Vec<char>, lo: usize, hi: usize) -> (r: Option<i32>)
    requires
        lo <= hi <= v.len(),
    ensures
        r == parse_i32(v@.subrange(lo as int, hi as int)),
{
    let ghost t = v@.subrange(lo as int, hi as int);
    if lo < hi && v[lo] == '-' {
        proof {
            assert(t.drop_first() =~= v@.subrange(lo + 1, hi as int));
        }
        match digits_in(v, lo + 1, hi, 0x8000_0000) {
            Some(n) => {
                let m = n as i64;
                Some((-m) as i32)
            },
            None => None,
        }
    } else {
        match unsigned_in(v, lo, hi, 0x7fff_ffff) {
            Some(n) => Some(n as i32),
            None => None,
        }
    }
}

/// What `str::parse::<u32>` gives for `s`.
pub fn parse_u32(s: &str) -> (r: Option<u32>)
    ensures
        match r {
            Some(n) => parse_unsigned(s@, 0xffff_ffff) == Some(n as int),
            None => parse_unsigned(s@, 0xffff_ffff) is None,
        },
{
    let v = chars_of(s);
    proof {
        assert(v@.subrange(0, v@.len() as int) =~= s@);
    }
    match unsigned_in(&v, 0, v.len(), 0xffff_ffff) {
        Some(n) => Some(n as u32),
        None => None,
    }
}

} // verus!
