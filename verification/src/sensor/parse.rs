//! The text that a 1-Wire thermometer (`w1_slave`) gives, such as
//!
//! ```text
//! a3 01 4b 46 7f ff 0e 10 d8 : crc=d8 YES
//! a3 01 4b 46 7f ff 0e 10 d8 t=32768
//! ```
//!
//! The first line ends in `YES` when the checksum held; the value after the
//! last `t=` is the temperature in thousandths of a degree Celsius.

use vstd::prelude::*;

use crate::text::{
    CharClass, chars_of, digits_value, digits_within, find_first, find_last_pair, first_index,
    is_digit, is_whitespace, last_pair_index, lemma_first_index, lemma_last_pair_index,
    lemma_trim_end, lemma_trim_start, parse_i32, parse_i32_in, trim, trim_bounds,
};

verus! {

/// Why a reading was refused.
#[derive(Debug, Clone, Copy, PartialEq, Eq, Structural)]
pub enum Error {
    /// The first line does not end in `YES`: the device reported a bad checksum.
    Checksum,
    /// The value after `t=` is not an `i32`.
    Parse,
}

/// The first line of `text`, its line feed included, as `BufRead::read_line` reads it.
pub open spec fn first_line(text: Seq<char>) -> Seq<char> {
    let i = first_index(text, '\n');
    if i < 0 {
        text
    } else {
        text.take(i + 1)
    }
}

pub open spec fn ends_with(s: Seq<char>, suffix: Seq<char>) -> bool {
    suffix.len() <= s.len() && s.skip(s.len() - suffix.len()) == suffix
}

/// The first two lines of `text`, as two calls of `read_line` gather them.
pub open spec fn reading_lines(text: Seq<char>) -> Seq<char> {
    let l1 = first_line(text);
    l1 + first_line(text.skip(l1.len() as int))
}

/// The device's checksum held: the first line ends in `YES` and a line feed.
pub open spec fn checksum_ok(text: Seq<char>) -> bool {
    ends_with(first_line(text), seq!['Y', 'E', 'S', '\n'])
}

/// What follows the last `t=` in `s`; all of `s` when there is none.
pub open spec fn after_last_t(s: Seq<char>) -> Seq<char> {
    let k = last_pair_index(s, 't', '=');
    if k < 0 {
        s
    } else {
        s.skip(k + 2)
    }
}

/// The value text: what follows the last `t=` in the two lines, trimmed of whitespace.
pub open spec fn value_text(text: Seq<char>) -> Seq<char> {
    trim(after_last_t(reading_lines(text)))
}

/// The outcome of reading `text`: the temperature in thousandths of a degree.
pub open spec fn reading_of(text: Seq<char>) -> Result<i32, Error> {
    if !checksum_ok(text) {
        Err(Error::Checksum)
    } else {
        match parse_i32(value_text(text)) {
            Some(v) => Ok(v),
            None => Err(Error::Parse),
        }
    }
}

/// Reads the temperature, in thousandths of a degree Celsius, from the
/// first two lines of a thermometer's output.
pub fn parse_millidegrees(text: &str) -> (r: Result<i32, Error>)
    ensures
        r == reading_of(text@),
{
    let v = chars_of(text);
    let ghost s = text@;
    let l1_end = line_end(&v, 0);
    proof {
        assert(s.skip(0) =~= s);
        assert(s.subrange(0, l1_end as int) =~= s.take(l1_end as int));
    }
    if !ends_with_yes(&v, l1_end) {
        return Err(Error::Checksum);
    }
    let l2_end = line_end(&v, l1_end);
    proof {
        assert(reading_lines(s) =~= s.take(l2_end as int));
    }
    let (lo, te) = value_span(&v, l2_end);
    match parse_i32_in(&v, lo, te) {
        Some(n) => Ok(n),
        None => Err(Error::Parse),
    }
}

/// The end of the line that starts at `lo`: just past its line feed, or the end of `v`.
fn line_end(v: &Vec<char>, lo: usize) -> (r: usize)
    requires
        lo <= v.len(),
    ensures
        lo <= r <= v.len(),
        v@.subrange(lo as int, r as int) == first_line(v@.skip(lo as int)),
{
    let r = match find_first(v, lo, '\n') {
        Some(k) => lo + k + 1,
        None => v.len(),
    };
    proof {
        let t = v@.skip(lo as int);
        if first_index(t, '\n') < 0 {
            assert(t =~= v@.subrange(lo as int, r as int));
        } else {
            assert(t.take(r - lo) =~= v@.subrange(lo as int, r as int));
        }
    }
    r
}

/// Whether `v[..end]` ends in `YES` and a line feed.
fn ends_with_yes(v: &Vec<char>, end: usize) -> (r: bool)
    requires
        end <= v.len(),
    ensures
        r == ends_with(v@.take(end as int), seq!['Y', 'E', 'S', '\n']),
{
    let ghost l = v@.take(end as int);
    let r = end >= 4 && v[end - 4] == 'Y' && v[end - 3] == 'E' && v[end - 2] == 'S' && v[end - 1]
        == '\n';
    proof {
        if end >= 4 {
            let t = l.skip(end - 4);
            assert(t[0] == l[end - 4]);
            assert(t[1] == l[end - 3]);
            assert(t[2] == l[end - 2]);
            assert(t[3] == l[end - 1]);
            if r {
                assert(t =~= seq!['Y', 'E', 'S', '\n']);
            }
        }
    }
    r
}

/// The bounds in `v` of the value text of `v[..hi]`: what follows its last
/// `t=`, trimmed of whitespace.
fn value_span(v: &Vec<char>, hi: usize) -> (r: (usize, usize))
    requires
        hi <= v.len(),
    ensures
        r.0 <= r.1 <= hi,
        v@.subrange(r.0 as int, r.1 as int) == trim(after_last_t(v@.take(hi as int))),
{
    let ghost lines = v@.take(hi as int);
    let start = match find_last_pair(v, hi, 't', '=') {
        Some(k) => k + 2,
        None => 0,
    };
    proof {
        if last_pair_index(lines, 't', '=') >= 0 {
            assert(lines.skip(start as int) =~= v@.subrange(start as int, hi as int));
        } else {
            assert(lines =~= v@.subrange(0, hi as int));
        }
    }
    let (ts, end) = trim_bounds(v, start, hi, CharClass::Whitespace, true);
    trim_bounds(v, ts, end, CharClass::Whitespace, false)
}

/// The sign of a written temperature: `-` for a negative one, nothing otherwise.
pub open spec fn sign_text(negative: bool) -> Seq<char> {
    if negative {
        seq!['-']
    } else {
        Seq::empty()
    }
}

/// The first line of a text that starts with a line ending in a line feed is that line.
pub proof fn lemma_first_line_of(line: Seq<char>, rest: Seq<char>)
    requires
        line.len() > 0,
        line.last() == '\n',
        !line.drop_last().contains('\n'),
    ensures
        first_line(line + rest) == line,
{
    let text = line + rest;
    let n = line.len() as int;
    assert forall|j: int| 0 <= j < text.len() && j < n - 1 implies #[trigger] text[j] != '\n' by {
        assert(text[j] == line.drop_last()[j]);
    }
    lemma_first_index(text, '\n', n - 1);
    assert(text.take(n) =~= line);
}

/// Whether the checksum held is decided by the first line alone: a reader
/// that has read the first line (up to its line feed, or all there was) can
/// tell a bad checksum before reading on.
pub proof fn lemma_checksum_first_line_only(line: Seq<char>, rest: Seq<char>)
    requires
        !line.drop_last().contains('\n'),
        (line.len() > 0 && line.last() == '\n') || rest.len() == 0,
    ensures
        checksum_ok(line + rest) == checksum_ok(line),
        (reading_of(line + rest) == Err::<i32, Error>(Error::Checksum)) == (reading_of(line)
            == Err::<i32, Error>(Error::Checksum)),
{
    if rest.len() == 0 {
        assert(line + rest =~= line);
    } else {
        lemma_first_line_of(line, rest);
        lemma_first_line_of(line, Seq::empty());
        assert(line + Seq::<char>::empty() =~= line);
    }
}

/// A written temperature: an optional `-` and digits.
pub open spec fn written_value(negative: bool, digits: Seq<char>) -> Seq<char> {
    sign_text(negative) + digits
}

/// A written temperature holds neither a line feed, nor a `t`, nor whitespace,
/// and is read back by `str::parse::<i32>`.
pub proof fn lemma_written_value(negative: bool, digits: Seq<char>)
    requires
        digits_within(
            digits,
            if negative {
                0x8000_0000
            } else {
                0x7fff_ffff
            },
        ),
    ensures
        forall|j: int|
            0 <= j < written_value(negative, digits).len() ==> #[trigger] written_value(
                negative,
                digits,
            )[j] != '\n' && written_value(negative, digits)[j] != 't' && !is_whitespace(
                written_value(negative, digits)[j],
            ),
        parse_i32(written_value(negative, digits)) == Some(
            (if negative {
                -digits_value(digits)
            } else {
                digits_value(digits)
            }) as i32,
        ),
{
    let value = written_value(negative, digits);
    assert forall|j: int| 0 <= j < value.len() implies #[trigger] value[j] != '\n' && value[j]
        != 't' && !is_whitespace(value[j]) by {
        if negative && j == 0 {
        } else {
            let i = if negative {
                j - 1
            } else {
                j
            };
            assert(value[j] == digits[i]);
            assert(is_digit(digits[i]));
        }
    }
    if negative {
        assert(value.drop_first() =~= digits);
    } else {
        assert(value =~= digits);
        assert(is_digit(digits[0]));
    }
}

/// The value text of two lines, the second ending in `t=`, a written
/// temperature and a line feed, is that temperature.
pub proof fn lemma_value_text_of(l1: Seq<char>, head2: Seq<char>, value: Seq<char>)
    requires
        reading_lines(l1 + head2 + seq!['t', '='] + value + seq!['\n']) == l1 + head2 + seq![
            't',
            '=',
        ] + value + seq!['\n'],
        value.len() > 0,
        forall|j: int|
            0 <= j < value.len() ==> #[trigger] value[j] != 't' && !is_whitespace(value[j]),
    ensures
        value_text(l1 + head2 + seq!['t', '='] + value + seq!['\n']) == value,
{
    let text = l1 + head2 + seq!['t', '='] + value + seq!['\n'];
    let k = (l1.len() + head2.len()) as int;
    assert forall|j: int| k < j && j + 1 < text.len() implies !(#[trigger] text[j] == 't' && text[j
        + 1] == '=') by {
        if j == k + 1 {
            assert(text[j] == '=');
        } else {
            assert(text[j] == value[j - k - 2]);
        }
    }
    lemma_last_pair_index(text, 't', '=', k);
    let tail = text.skip(k + 2);
    assert(tail =~= value + seq!['\n']);
    assert(tail[0] == value[0]);
    lemma_trim_start(tail, CharClass::Whitespace, 0);
    assert(tail.skip(0) =~= tail);
    assert(tail[value.len() - 1] == value[value.len() - 1]);
    lemma_trim_end(tail, CharClass::Whitespace, value.len() as int);
    assert(tail.take(value.len() as int) =~= value);
}

/// A thermometer's output whose first line ends in `YES` and whose second
/// line ends in `t=` and a temperature (in thousandths of a degree, within
/// the range of `i32`) reads as that temperature, whatever else the two
/// lines hold.
pub proof fn lemma_reading_of_written(
    head1: Seq<char>,
    head2: Seq<char>,
    negative: bool,
    digits: Seq<char>,
)
    requires
        !head1.contains('\n'),
        !head2.contains('\n'),
        digits_within(
            digits,
            if negative {
                0x8000_0000
            } else {
                0x7fff_ffff
            },
        ),
    ensures
        reading_of(
            head1 + seq!['Y', 'E', 'S', '\n'] + head2 + seq!['t', '='] + sign_text(negative) + digits
                + seq!['\n'],
        ) == Ok::<i32, Error>(
            (if negative {
                -digits_value(digits)
            } else {
                digits_value(digits)
            }) as i32,
        ),
{
    let l1 = head1 + seq!['Y', 'E', 'S', '\n'];
    let value = written_value(negative, digits);
    lemma_written_value(negative, digits);
    let r = head2 + seq!['t', '='] + value + seq!['\n'];
    let text = l1 + r;
    assert(text =~= head1 + seq!['Y', 'E', 'S', '\n'] + head2 + seq!['t', '='] + sign_text(negative)
        + digits + seq!['\n']);
    assert(l1.drop_last() =~= head1 + seq!['Y', 'E', 'S']);
    assert(!l1.drop_last().contains('\n')) by {
        if l1.drop_last().contains('\n') {
            let j = choose|j: int| 0 <= j < l1.drop_last().len() && l1.drop_last()[j] == '\n';
            if j < head1.len() {
                assert(head1[j] == '\n');
            }
        }
    }
    lemma_first_line_of(l1, r);
    assert(l1.skip(l1.len() - 4) =~= seq!['Y', 'E', 'S', '\n']);
    assert(text.skip(l1.len() as int) =~= r);
    assert(r =~= (head2 + seq!['t', '='] + value) + seq!['\n']);
    assert(!(head2 + seq!['t', '='] + value).contains('\n')) by {
        let h = head2 + seq!['t', '='] + value;
        if h.contains('\n') {
            let j = choose|j: int| 0 <= j < h.len() && h[j] == '\n';
            if j < head2.len() {
                assert(head2[j] == '\n');
            } else if j >= head2.len() + 2 {
                assert(value[j - head2.len() - 2] == '\n');
            }
        }
    }
    assert((head2 + seq!['t', '='] + value + seq!['\n']).drop_last() =~= head2 + seq!['t', '=']
        + value);
    lemma_first_line_of(r, Seq::empty());
    assert(r + Seq::<char>::empty() =~= r);
    assert(reading_lines(text) =~= text);
    assert(text =~= l1 + head2 + seq!['t', '='] + value + seq!['\n']);
    lemma_value_text_of(l1, head2, value);
}

} // verus!
