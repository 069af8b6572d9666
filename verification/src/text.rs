//! Source texts as bytes: lines, comments and blanks.
//!
//! A text is split at every line feed. In a line, everything from the first
//! `//` on is a comment.

use vstd::prelude::*;
use vstd::slice::slice_subrange;
use vstd::string::StringSliceAdditionalSpecFns;

verus! {

/// The byte that ends a line.
pub const LINE_FEED: u8 = 10;

/// The byte that, twice in a row, starts a comment.
pub const SLASH: u8 = 47;

/// Space, tab, carriage return and the other control bytes between tab and
/// carriage return, line feed included.
pub open spec fn is_blank_spec(byte: u8) -> bool {
    byte == 32 || (9 <= byte <= 13)
}

/// Space, tab, carriage return and the other control bytes between tab and
/// carriage return, line feed included.
#[verifier::when_used_as_spec(is_blank_spec)]
pub fn is_blank(byte: u8) -> (blank: bool)
    ensures
        blank == is_blank_spec(byte),
{
    byte == 32 || (9 <= byte && byte <= 13)
}

/// Where the line that starts at `start` ends: the position of the first
/// line feed at or after `start`, or the end of the text.
pub open spec fn line_end_spec(text: Seq<u8>, start: int) -> int
    decreases text.len() - start,
{
    if start >= text.len() {
        text.len() as int
    } else if text[start] == LINE_FEED {
        start
    } else {
        line_end_spec(text, start + 1)
    }
}

/// A line ends at or behind its start, at a line feed or at the end of the text, and holds no line feed.
pub proof fn line_end_bounds(text: Seq<u8>, start: int)
    requires
        0 <= start <= text.len(),
    ensures
        start <= line_end_spec(text, start) <= text.len(),
        line_end_spec(text, start) < text.len() ==> text[line_end_spec(text, start)] == LINE_FEED,
        forall|i: int| start <= i < line_end_spec(text, start) ==> text[i] != LINE_FEED,
    decreases text.len() - start,
{
    if start < text.len() && text[start] != LINE_FEED {
        line_end_bounds(text, start + 1);
    }
}

/// Where the line that starts at `start` ends.
pub fn line_end(text: &[u8], start: usize) -> (end: usize)
    requires
        start <= text.len(),
    ensures
        end == line_end_spec(text@, start as int),
        start <= end <= text.len(),
{
    let mut end = start;
    while end < text.len() && text[end] != LINE_FEED
        invariant
            start <= end <= text.len(),
            line_end_spec(text@, start as int) == line_end_spec(text@, end as int),
        decreases text.len() - end,
    {
        end += 1;
    }
    end
}

/// Where the comment of `line` starts, looking from `from` on: the position
/// of the first `//`, or the end of the line.
pub open spec fn comment_start_spec(line: Seq<u8>, from: int) -> int
    decreases line.len() - from,
{
    if from + 1 >= line.len() {
        line.len() as int
    } else if line[from] == SLASH && line[from + 1] == SLASH {
        from
    } else {
        comment_start_spec(line, from + 1)
    }
}

/// `bytes` without its blanks.
pub open spec fn squeeze(bytes: Seq<u8>) -> Seq<u8>
    decreases bytes.len(),
{
    if bytes.len() == 0 {
        Seq::empty()
    } else if is_blank_spec(bytes.last()) {
        squeeze(bytes.drop_last())
    } else {
        squeeze(bytes.drop_last()).push(bytes.last())
    }
}

/// What `line` says: the bytes before its comment, blanks removed.
pub open spec fn content_spec(line: Seq<u8>) -> Seq<u8> {
    squeeze(line.take(comment_start_spec(line, 0)))
}

/// Where the comment of `line` starts: the position of the first `//`, or
/// the end of the line.
pub fn comment_start(line: &[u8]) -> (stop: usize)
    ensures
        stop == comment_start_spec(line@, 0),
        stop <= line.len(),
{
    let mut stop: usize = 0;
    while line.len() - stop >= 2 && !(line[stop] == SLASH && line[stop + 1] == SLASH)
        invariant
            stop <= line.len(),
            comment_start_spec(line@, 0) == comment_start_spec(line@, stop as int),
        decreases line.len() - stop,
    {
        stop += 1;
    }
    if line.len() - stop < 2 {
        line.len()
    } else {
        stop
    }
}

/// What `line` says.
pub fn content(line: &[u8]) -> (out: Vec<u8>)
    ensures
        out@ == content_spec(line@),
        out.len() <= line.len(),
{
    let stop = comment_start(line);
    let mut out: Vec<u8> = Vec::new();
    let mut i: usize = 0;
    while i < stop
        invariant
            i <= stop <= line.len(),
            out@ == squeeze(line@.take(i as int)),
            out.len() <= i,
        decreases stop - i,
    {
        assert(line@.take(i + 1).drop_last() == line@.take(i as int));
        if !is_blank(line[i]) {
            out.push(line[i]);
        }
        i += 1;
    }
    out
}

/// Whether two byte strings are the same.
pub fn bytes_equal(left: &[u8], right: &[u8]) -> (equal: bool)
    ensures
        equal == (left@ == right@),
{
    if left.len() != right.len() {
        return false;
    }
    let mut i: usize = 0;
    while i < left.len()
        invariant
            i <= left.len(),
            left.len() == right.len(),
            forall|k: int| 0 <= k < i ==> left@[k] == right@[k],
        decreases left.len() - i,
    {
        if left[i] != right[i] {
            return false;
        }
        i += 1;
    }
    assert(left@ =~= right@);
    true
}

/// Whether `bytes` is the word `word`.
pub open spec fn spells_spec(bytes: Seq<u8>, word: &str) -> bool {
    bytes == word.spec_bytes()
}

/// Whether `bytes` is the word `word`.
pub fn spells(bytes: &[u8], word: &str) -> (same: bool)
    ensures
        same == spells_spec(bytes@, word),
{
    bytes_equal(bytes, word.as_bytes())
}

/// Whether `byte` is a decimal digit.
pub open spec fn is_digit_spec(byte: u8) -> bool {
    48 <= byte <= 57
}

/// Whether `byte` is a decimal digit.
#[verifier::when_used_as_spec(is_digit_spec)]
pub fn is_digit(byte: u8) -> (digit: bool)
    ensures
        digit == is_digit_spec(byte),
{
    48 <= byte && byte <= 57
}

/// Whether `bytes` is a number: one decimal digit or more, and nothing else.
pub open spec fn is_number_spec(bytes: Seq<u8>) -> bool {
    bytes.len() > 0 && forall|i: int| 0 <= i < bytes.len() ==> is_digit_spec(#[trigger] bytes[i])
}

/// The number that the decimal digits `digits` write.
pub open spec fn decimal_value(digits: Seq<u8>) -> int
    decreases digits.len(),
{
    if digits.len() == 0 {
        0
    } else {
        10 * decimal_value(digits.drop_last()) + (digits.last() - 48)
    }
}

/// What reading a number with an upper limit gives.
#[derive(Clone, Copy, Debug, PartialEq, Eq, Structural)]
pub enum Number {
    /// The bytes are no number.
    Malformed,
    /// The number is above the limit.
    TooLarge,
    Value(u16),
}

/// What `bytes` reads as, with `limit` the largest number accepted.
pub open spec fn number_spec(bytes: Seq<u8>, limit: u16) -> Number {
    if !is_number_spec(bytes) {
        Number::Malformed
    } else if decimal_value(bytes) > limit {
        Number::TooLarge
    } else {
        Number::Value(decimal_value(bytes) as u16)
    }
}

/// Reads `bytes` as a decimal number of at most `limit`.
pub fn number(bytes: &[u8], limit: u16) -> (out: Number)
    ensures
        out == number_spec(bytes@, limit),
        out matches Number::Value(value) ==> value <= limit && value == decimal_value(bytes@),
{
    if bytes.len() == 0 {
        return Number::Malformed;
    }
    let mut too_large = false;
    let mut value: u32 = 0;
    let mut i: usize = 0;
    while i < bytes.len()
        invariant
            i <= bytes.len(),
            forall|k: int| 0 <= k < i ==> is_digit_spec(#[trigger] bytes@[k]),
            !too_large ==> value == decimal_value(bytes@.take(i as int)),
            too_large ==> decimal_value(bytes@.take(i as int)) > limit,
            value <= limit,
        decreases bytes.len() - i,
    {
        if !is_digit(bytes[i]) {
            return Number::Malformed;
        }
        assert(bytes@.take(i + 1).drop_last() == bytes@.take(i as int));
        if !too_large {
            let next: u32 = 10 * value + (bytes[i] - 48) as u32;
            if next > limit as u32 {
                too_large = true;
            } else {
                value = next;
            }
        }
        i += 1;
    }
    assert(bytes@.take(bytes.len() as int) == bytes@);
    if too_large {
        Number::TooLarge
    } else {
        Number::Value(value as u16)
    }
}

/// The part `text[start..end]` of a text.
pub fn part(text: &[u8], start: usize, end: usize) -> (out: &[u8])
    requires
        start <= end <= text.len(),
    ensures
        out@ == text@.subrange(start as int, end as int),
{
    slice_subrange(text, start, end)
}

} // verus!
