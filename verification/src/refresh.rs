//! The display's refresh rate, as the compositor's state dump tells it.
//!
//! The dump is text. The first line that mentions `refresh-rate` carries the
//! rate behind its first colon, as in `refresh-rate: 60.000004 Hz`; the whole
//! frames per second stand before the decimal point.

use crate::error::SensorError;
use crate::sensor::Fps;
use crate::text::{is_space, parse_word, word_in_range, word_value};
use vstd::prelude::*;

verus! {

/// The word that marks the line: `refresh-rate`.
pub open spec fn needle() -> Seq<u8> {
    seq![0x72u8, 0x65u8, 0x66u8, 0x72u8, 0x65u8, 0x73u8, 0x68u8, 0x2du8, 0x72u8, 0x61u8, 0x74u8, 0x65u8]
}

/// Index of the first `b` in `s[from..to]`; `to` where there is none.
pub open spec fn first_at(s: Seq<u8>, from: int, to: int, b: u8) -> int
    decreases to - from,
{
    if from >= to {
        to
    } else if s[from] == b {
        from
    } else {
        first_at(s, from + 1, to, b)
    }
}

/// The first `b` of a range lies in the range, or at its end.
pub proof fn lemma_first_at_bounds(s: Seq<u8>, from: int, to: int, b: u8)
    requires
        from <= to,
    ensures
        from <= first_at(s, from, to, b) <= to,
    decreases to - from,
{
    if from < to && s[from] != b {
        lemma_first_at_bounds(s, from + 1, to, b);
    }
}

/// The marking word stands in `s` at index `i`.
pub open spec fn needle_at(s: Seq<u8>, i: int) -> bool {
    forall|k: int| 0 <= k < needle().len() ==> s[i + k] == #[trigger] needle()[k]
}

/// The marking word stands somewhere in `s[from..to]`.
pub open spec fn mentions_rate(s: Seq<u8>, from: int, to: int) -> bool {
    exists|i: int| from <= i && i + needle().len() <= to && #[trigger] needle_at(s, i)
}

/// The first line at or after index `from` that mentions the rate, as the
/// indices where it starts and where it ends. Lines end at a line feed.
pub open spec fn rate_line(s: Seq<u8>, from: int) -> Option<(int, int)>
    decreases s.len() - from,
{
    if from < 0 || from >= s.len() {
        None
    } else {
        let end = first_at(s, from, s.len() as int, 0x0a);
        if mentions_rate(s, from, end) {
            Some((from, end))
        } else if end >= s.len() {
            None
        } else {
            proof {
                lemma_first_at_bounds(s, from, s.len() as int, 0x0a);
            }
            rate_line(s, end + 1)
        }
    }
}

/// Index of the first byte of `s[from..to]` that is no white space; `to`
/// where all of it is.
pub open spec fn skip_spaces(s: Seq<u8>, from: int, to: int) -> int
    decreases to - from,
{
    if from >= to {
        to
    } else if !is_space(s[from]) {
        from
    } else {
        skip_spaces(s, from + 1, to)
    }
}

/// Index behind the last byte of `s[from..to]` that is no white space;
/// `from` where all of it is.
pub open spec fn drop_spaces(s: Seq<u8>, from: int, to: int) -> int
    decreases to - from,
{
    if from >= to {
        from
    } else if !is_space(s[to - 1]) {
        to
    } else {
        drop_spaces(s, from, to - 1)
    }
}

/// Where the rate stands in the line `s[from..to]`: behind the first colon,
/// up to the next colon or the first decimal point, without the white space
/// around it. `None` for a line without a colon.
pub open spec fn rate_field(s: Seq<u8>, from: int, to: int) -> Option<(int, int)> {
    let colon = first_at(s, from, to, 0x3a);
    if colon >= to {
        None
    } else {
        let start = colon + 1;
        let stop = first_at(s, start, first_at(s, start, to, 0x3a), 0x2e);
        let a = skip_spaces(s, start, stop);
        Some((a, drop_spaces(s, a, stop)))
    }
}

/// What the dump `s` says of the refresh rate: nothing, where no line
/// mentions it or that line has no colon; else the rate, or an error where
/// no whole number of frames per second stands there.
pub open spec fn spec_refresh_rate(s: Seq<u8>) -> Result<Option<Fps>, SensorError> {
    match rate_line(s, 0) {
        None => Ok(None),
        Some((from, to)) => match rate_field(s, from, to) {
            None => Ok(None),
            Some((a, b)) => match word_value(s.subrange(a, b), false) {
                Some(v) => if v <= u32::MAX {
                    Ok(Some(v as u32))
                } else {
                    Err(SensorError::Unparseable)
                },
                None => Err(SensorError::Unparseable),
            },
        },
    }
}

fn find_byte(text: &[u8], from: usize, to: usize, b: u8) -> (at: usize)
    requires
        from <= to <= text@.len(),
    ensures
        at == first_at(text@, from as int, to as int, b),
        from <= at <= to,
{
    let mut i: usize = from;
    while i < to && text[i] != b
        invariant
            from <= i <= to <= text@.len(),
            first_at(text@, from as int, to as int, b) == first_at(text@, i as int, to as int, b),
        decreases to - i,
    {
        i = i + 1;
    }
    i
}

fn needle_byte(k: usize) -> (b: u8)
    requires
        k < needle().len(),
    ensures
        b == needle()[k as int],
{
    let word: [u8; 12] = [0x72, 0x65, 0x66, 0x72, 0x65, 0x73, 0x68, 0x2d, 0x72, 0x61, 0x74, 0x65];
    word[k]
}

fn mentions(text: &[u8], from: usize, to: usize) -> (found: bool)
    requires
        from <= to <= text@.len(),
    ensures
        found == mentions_rate(text@, from as int, to as int),
{
    let len: usize = 12;
    let n: usize = text.len();
    if to - from < len {
        return false;
    }
    let last: usize = to - len;
    let mut i: usize = from;
    while i <= last
        invariant
            from <= i <= last + 1,
            last + len == to,
            len == needle().len(),
            to <= text@.len(),
            n == text@.len(),
            forall|j: int| from <= j < i ==> !needle_at(text@, j),
        decreases last + 1 - i,
    {
        let mut k: usize = 0;
        while k < len && text[i + k] == needle_byte(k)
            invariant
                k <= len,
                len == needle().len(),
                i + len <= text@.len(),
                n == text@.len(),
                forall|m: int| 0 <= m < k ==> text@[i + m] == #[trigger] needle()[m],
            decreases len - k,
        {
            k = k + 1;
        }
        if k == len {
            assert(needle_at(text@, i as int));
            return true;
        }
        assert(!needle_at(text@, i as int)) by {
            assert(text@[i + k] != needle()[k as int]);
        }
        i = i + 1;
    }
    false
}

fn skip(text: &[u8], from: usize, to: usize) -> (at: usize)
    requires
        from <= to <= text@.len(),
    ensures
        at == skip_spaces(text@, from as int, to as int),
        from <= at <= to,
{
    let mut i: usize = from;
    while i < to && (text[i] == 0x20 || (0x09 <= text[i] && text[i] <= 0x0d))
        invariant
            from <= i <= to <= text@.len(),
            skip_spaces(text@, from as int, to as int) == skip_spaces(text@, i as int, to as int),
        decreases to - i,
    {
        i = i + 1;
    }
    i
}

fn drop_end(text: &[u8], from: usize, to: usize) -> (at: usize)
    requires
        from <= to <= text@.len(),
    ensures
        at == drop_spaces(text@, from as int, to as int),
        from <= at <= to,
{
    let mut i: usize = to;
    while i > from && (text[i - 1] == 0x20 || (0x09 <= text[i - 1] && text[i - 1] <= 0x0d))
        invariant
            from <= i <= to <= text@.len(),
            drop_spaces(text@, from as int, to as int) == drop_spaces(text@, from as int, i as int),
        decreases i - from,
    {
        i = i - 1;
    }
    i
}

/// Reads the rate out of the line `text[from..to]`.
fn read_rate(text: &[u8], from: usize, to: usize) -> (rate: Result<Option<Fps>, SensorError>)
    requires
        from <= to <= text@.len(),
    ensures
        rate == match rate_field(text@, from as int, to as int) {
            None => Ok::<Option<Fps>, SensorError>(None),
            Some((a, b)) => match word_value(text@.subrange(a, b), false) {
                Some(v) => if v <= u32::MAX {
                    Ok(Some(v as u32))
                } else {
                    Err(SensorError::Unparseable)
                },
                None => Err(SensorError::Unparseable),
            },
        },
{
    let colon: usize = find_byte(text, from, to, 0x3a);
    if colon >= to {
        return Ok(None);
    }
    let start: usize = colon + 1;
    let next: usize = find_byte(text, start, to, 0x3a);
    let stop: usize = find_byte(text, start, next, 0x2e);
    let a: usize = skip(text, start, stop);
    let b: usize = drop_end(text, a, stop);
    proof {
        let word = text@.subrange(a as int, b as int);
        if word_value(word, false) is Some {
            let digits = if crate::text::has_sign(word, false) {
                word.skip(1)
            } else {
                word
            };
            crate::text::lemma_digits_nonnegative(digits);
        }
    }
    match parse_word(text, a, b, false, 0, u32::MAX as i128) {
        Some(v) => Ok(Some(v as u32)),
        None => Err(SensorError::Unparseable),
    }
}

/// Reads the display's refresh rate out of the compositor's state dump.
pub fn parse_refresh_rate(dump: &[u8]) -> (rate: Result<Option<Fps>, SensorError>)
    ensures
        rate == spec_refresh_rate(dump@),
{
    let n: usize = dump.len();
    let mut from: usize = 0;
    while from < n
        invariant
            from <= n,
            n == dump@.len(),
            rate_line(dump@, 0) == rate_line(dump@, from as int),
        decreases n - from,
    {
        let end: usize = find_byte(dump, from, n, 0x0a);
        if mentions(dump, from, end) {
            return read_rate(dump, from, end);
        }
        if end >= n {
            return Ok(None);
        }
        from = end + 1;
    }
    Ok(None)
}

} // verus!
