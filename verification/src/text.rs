//! Lists of integers as the kernel writes them: decimal words separated by
//! white space.

use crate::error::SetupError;
use crate::order::ints;
use vstd::prelude::*;

verus! {

/// White space: the space, and the controls from tab to carriage return.
pub open spec fn is_space(b: u8) -> bool {
    b == 0x20 || (0x09 <= b && b <= 0x0d)
}

/// A decimal digit.
pub open spec fn is_digit(b: u8) -> bool {
    0x30 <= b && b <= 0x39
}

/// Length of the longest prefix of `s` that holds no white space.
pub open spec fn word_len(s: Seq<u8>) -> nat
    decreases s.len(),
{
    if s.len() == 0 || is_space(s[0]) {
        0
    } else {
        1 + word_len(s.skip(1))
    }
}

/// A word is no longer than what it is taken from, and not empty where that
/// starts with something other than white space.
pub proof fn lemma_word_len_bounds(s: Seq<u8>)
    ensures
        word_len(s) <= s.len(),
        s.len() > 0 && !is_space(s[0]) ==> word_len(s) >= 1,
    decreases s.len(),
{
    if s.len() > 0 && !is_space(s[0]) {
        lemma_word_len_bounds(s.skip(1));
    }
}

/// The words of `s`, in order: skip white space, take the longest run
/// without any, and go on behind it.
pub open spec fn words(s: Seq<u8>) -> Seq<Seq<u8>>
    decreases s.len(),
{
    if s.len() == 0 {
        Seq::empty()
    } else if is_space(s[0]) {
        words(s.skip(1))
    } else {
        proof {
            lemma_word_len_bounds(s);
        }
        seq![s.take(word_len(s) as int)] + words(s.skip(word_len(s) as int))
    }
}

/// The number that a run of decimal digits writes.
pub open spec fn digits_value(d: Seq<u8>) -> int
    decreases d.len(),
{
    if d.len() == 0 {
        0
    } else {
        digits_value(d.drop_last()) * 10 + (d.last() - 0x30)
    }
}

/// `d` holds decimal digits only.
pub open spec fn all_digits(d: Seq<u8>) -> bool {
    forall|i: int| 0 <= i < d.len() ==> is_digit(#[trigger] d[i])
}

/// Whether `word` opens with a sign: `+` always counts, `-` only where
/// negative numbers can be written.
pub open spec fn has_sign(word: Seq<u8>, signed: bool) -> bool {
    word.len() > 0 && (word[0] == 0x2b || (signed && word[0] == 0x2d))
}

/// The integer that `word` writes: an optional sign and then one or more
/// decimal digits, nothing else. `None` where it writes none.
pub open spec fn word_value(word: Seq<u8>, signed: bool) -> Option<int> {
    let digits = if has_sign(word, signed) {
        word.skip(1)
    } else {
        word
    };
    if digits.len() > 0 && all_digits(digits) {
        if has_sign(word, signed) && word[0] == 0x2d {
            Some(-digits_value(digits))
        } else {
            Some(digits_value(digits))
        }
    } else {
        None
    }
}

/// `word` writes an integer between `min` and `max`.
pub open spec fn word_in_range(word: Seq<u8>, signed: bool, min: int, max: int) -> bool {
    word_value(word, signed) matches Some(v) && min <= v <= max
}

/// Largest magnitude of a 128-bit integer: two to the power of 127.
const MAGNITUDE_MAX: u128 = 0x8000_0000_0000_0000_0000_0000_0000_0000;

fn is_space_byte(b: u8) -> (r: bool)
    ensures
        r == is_space(b),
{
    b == 0x20 || (0x09 <= b && b <= 0x0d)
}

proof fn lemma_digits_push(d: Seq<u8>, b: u8)
    ensures
        digits_value(d.push(b)) == digits_value(d) * 10 + (b - 0x30),
{
    assert(d.push(b).drop_last() =~= d);
}

/// Digits write no negative number.
pub proof fn lemma_digits_nonnegative(d: Seq<u8>)
    requires
        all_digits(d),
    ensures
        digits_value(d) >= 0,
    decreases d.len(),
{
    if d.len() > 0 {
        assert forall|i: int| 0 <= i < d.drop_last().len() implies is_digit(
            #[trigger] d.drop_last()[i],
        ) by {
            assert(d.drop_last()[i] == d[i]);
        }
        lemma_digits_nonnegative(d.drop_last());
        assert(is_digit(d[d.len() - 1]));
    }
}

/// Reads the word `text[start..end]` as an integer between `min` and `max`.
pub fn parse_word(
    text: &[u8],
    start: usize,
    end: usize,
    signed: bool,
    min: i128,
    max: i128,
) -> (value: Option<i128>)
    requires
        start <= end <= text@.len(),
    ensures
        value is Some <==> word_in_range(
            text@.subrange(start as int, end as int),
            signed,
            min as int,
            max as int,
        ),
        value matches Some(v) ==> word_value(text@.subrange(start as int, end as int), signed)
            == Some(v as int),
{
    let ghost word = text@.subrange(start as int, end as int);
    let mut i: usize = start;
    let mut negative = false;
    if i < end && (text[i] == 0x2b || (signed && text[i] == 0x2d)) {
        negative = text[i] == 0x2d;
        i = i + 1;
    }
    let first: usize = i;
    let ghost digits = text@.subrange(first as int, end as int);
    proof {
        assert(word.len() > 0 ==> word[0] == text@[start as int]);
        if has_sign(word, signed) {
            assert(word.skip(1) =~= digits);
        } else {
            assert(word =~= digits);
        }
    }
    if first >= end {
        return None;
    }
    let mut acc: u128 = 0;
    let mut huge = false;
    while i < end
        invariant
            first <= i <= end <= text@.len(),
            start <= end,
            word == text@.subrange(start as int, end as int),
            digits == text@.subrange(first as int, end as int),
            digits == if has_sign(word, signed) {
                word.skip(1)
            } else {
                word
            },
            all_digits(text@.subrange(first as int, i as int)),
            acc <= MAGNITUDE_MAX,
            !huge ==> acc == digits_value(text@.subrange(first as int, i as int)),
            huge ==> digits_value(text@.subrange(first as int, i as int)) > MAGNITUDE_MAX,
        decreases end - i,
    {
        let b: u8 = text[i];
        let ghost before = text@.subrange(first as int, i as int);
        let ghost now = text@.subrange(first as int, i as int + 1);
        proof {
            assert(now =~= before.push(b));
            lemma_digits_push(before, b);
        }
        if !(0x30 <= b && b <= 0x39) {
            proof {
                assert(digits[i - first] == b);
            }
            return None;
        }
        proof {
            assert forall|k: int| 0 <= k < now.len() implies is_digit(#[trigger] now[k]) by {
                if k < before.len() {
                    assert(now[k] == before[k]);
                }
            }
        }
        if !huge {
            let digit: u128 = (b - 0x30) as u128;
            if acc > (MAGNITUDE_MAX - digit) / 10 {
                huge = true;
            } else {
                acc = acc * 10 + digit;
            }
        }
        i = i + 1;
    }
    proof {
        assert(text@.subrange(first as int, i as int) =~= digits);
    }
    if huge {
        return None;
    }
    let v: i128 = if acc < MAGNITUDE_MAX {
        if negative {
            -(acc as i128)
        } else {
            acc as i128
        }
    } else if negative {
        i128::MIN
    } else {
        return None;
    };
    if min <= v && v <= max {
        Some(v)
    } else {
        None
    }
}

/// Every word of `s` writes an integer between `min` and `max`.
pub open spec fn all_words_in_range(s: Seq<u8>, signed: bool, min: int, max: int) -> bool {
    forall|k: int|
        0 <= k < words(s).len() ==> word_in_range(#[trigger] words(s)[k], signed, min, max)
}

/// The integers that the words of `s` write, in order.
pub open spec fn list_values(s: Seq<u8>, signed: bool) -> Seq<int> {
    Seq::new(words(s).len(), |k: int| word_value(words(s)[k], signed).unwrap())
}

proof fn lemma_words_skip_space(s: Seq<u8>, i: int)
    requires
        0 <= i < s.len(),
        is_space(s[i]),
    ensures
        words(s.skip(i)) == words(s.skip(i + 1)),
{
    assert(s.skip(i).skip(1) =~= s.skip(i + 1));
}

proof fn lemma_word_len_run(s: Seq<u8>, n: int)
    requires
        0 <= n <= s.len(),
        forall|k: int| 0 <= k < n ==> !is_space(#[trigger] s[k]),
        n == s.len() || is_space(s[n]),
    ensures
        word_len(s) == n,
    decreases n,
{
    if n > 0 {
        let rest = s.skip(1);
        assert forall|k: int| 0 <= k < n - 1 implies !is_space(#[trigger] rest[k]) by {
            assert(rest[k] == s[k + 1]);
        }
        lemma_word_len_run(rest, n - 1);
    }
}

proof fn lemma_words_take_word(s: Seq<u8>, i: int, j: int)
    requires
        0 <= i < j <= s.len(),
        forall|k: int| i <= k < j ==> !is_space(#[trigger] s[k]),
        j == s.len() || is_space(s[j]),
    ensures
        words(s.skip(i)) == seq![s.subrange(i, j)] + words(s.skip(j)),
{
    let tail = s.skip(i);
    assert forall|k: int| 0 <= k < j - i implies !is_space(#[trigger] tail[k]) by {
        assert(tail[k] == s[i + k]);
    }
    lemma_word_len_run(tail, j - i);
    assert(tail.take(j - i) =~= s.subrange(i, j));
    assert(tail.skip(j - i) =~= s.skip(j));
}

/// Counts the words of `text`.
pub fn count_words(text: &[u8]) -> (count: usize)
    ensures
        count == words(text@).len(),
{
    let n: usize = text.len();
    let mut count: usize = 0;
    let ghost mut done: Seq<Seq<u8>> = Seq::empty();
    let mut i: usize = 0;
    proof {
        assert(text@.skip(0) =~= text@);
    }
    while i < n
        invariant
            0 <= i <= n,
            n == text@.len(),
            words(text@) == done + words(text@.skip(i as int)),
            count == done.len(),
            count <= i,
        decreases n - i,
    {
        if is_space_byte(text[i]) {
            proof {
                lemma_words_skip_space(text@, i as int);
            }
            i = i + 1;
        } else {
            let start: usize = i;
            let mut j: usize = i + 1;
            while j < n && !is_space_byte(text[j])
                invariant
                    start < j <= n,
                    n == text@.len(),
                    forall|k: int| start <= k < j ==> !is_space(#[trigger] text@[k]),
                decreases n - j,
            {
                j = j + 1;
            }
            proof {
                let word = text@.subrange(start as int, j as int);
                lemma_words_take_word(text@, start as int, j as int);
                assert(words(text@) =~= done.push(word) + words(text@.skip(j as int)));
                done = done.push(word);
            }
            count = count + 1;
            i = j;
        }
    }
    proof {
        assert(text@.skip(n as int) =~= Seq::<u8>::empty());
        assert(words(text@) =~= done);
    }
    count
}

/// Reads `text` as a list of integers between `min` and `max`, separated by
/// white space. Fails as soon as one word is not such an integer.
pub fn parse_list(text: &[u8], signed: bool, min: i128, max: i128) -> (list: Result<
    Vec<i128>,
    SetupError,
>)
    ensures
        list is Ok <==> all_words_in_range(text@, signed, min as int, max as int),
        list matches Ok(v) ==> ints(v@) == list_values(text@, signed),
        list matches Err(e) ==> e == SetupError::Unparseable,
{
    let n: usize = text.len();
    let mut out: Vec<i128> = Vec::new();
    let ghost mut done: Seq<Seq<u8>> = Seq::empty();
    let mut i: usize = 0;
    proof {
        assert(text@.skip(0) =~= text@);
    }
    while i < n
        invariant
            0 <= i <= n,
            n == text@.len(),
            words(text@) == done + words(text@.skip(i as int)),
            out@.len() == done.len(),
            forall|k: int|
                0 <= k < done.len() ==> word_in_range(
                    #[trigger] done[k],
                    signed,
                    min as int,
                    max as int,
                ),
            forall|k: int|
                0 <= k < done.len() ==> word_value(#[trigger] done[k], signed) == Some(
                    out@[k] as int,
                ),
        decreases n - i,
    {
        if is_space_byte(text[i]) {
            proof {
                lemma_words_skip_space(text@, i as int);
            }
            i = i + 1;
        } else {
            let start: usize = i;
            let mut j: usize = i + 1;
            while j < n && !is_space_byte(text[j])
                invariant
                    start < j <= n,
                    n == text@.len(),
                    forall|k: int| start <= k < j ==> !is_space(#[trigger] text@[k]),
                decreases n - j,
            {
                j = j + 1;
            }
            let ghost word = text@.subrange(start as int, j as int);
            proof {
                lemma_words_take_word(text@, start as int, j as int);
                assert(words(text@) =~= done.push(word) + words(text@.skip(j as int)));
            }
            match parse_word(text, start, j, signed, min, max) {
                Some(v) => {
                    out.push(v);
                    proof {
                        done = done.push(word);
                    }
                },
                None => {
                    proof {
                        assert(words(text@)[done.len() as int] == word);
                    }
                    return Err(SetupError::Unparseable);
                },
            }
            i = j;
        }
    }
    proof {
        assert(text@.skip(n as int) =~= Seq::<u8>::empty());
        assert(words(text@) =~= done);
        assert(ints(out@) =~= list_values(text@, signed));
    }
    Ok(out)
}

} // verus!
