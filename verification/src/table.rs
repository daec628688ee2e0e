//! The frequency table of one cluster: the frequencies the hardware supports,
//! in cycles per second, lowest first and each one once.

use crate::error::SetupError;
use crate::order::{ints, sort, unique};
use crate::shared::khz_to_hz;
use crate::text::{all_words_in_range, list_values, parse_list, word_value, words};
use vstd::prelude::*;
use vstd::seq_lib::*;

verus! {

/// Largest frequency in kilohertz whose cycles per second fit in 64 bits.
pub const KHZ_MAX: i128 = 9_223_372_036_854_775;

/// Smallest frequency in kilohertz whose cycles per second fit in 64 bits.
pub const KHZ_MIN: i128 = -9_223_372_036_854_775;

/// Every word of `text` is a frequency in kilohertz that the table can hold.
pub open spec fn lists_frequencies(text: Seq<u8>) -> bool {
    all_words_in_range(text, true, KHZ_MIN as int, KHZ_MAX as int)
}

/// Some word of `text` writes, in kilohertz, the frequency `hz`.
pub open spec fn lists_frequency(text: Seq<u8>, hz: i64) -> bool {
    exists|k: int| 0 <= k < words(text).len() && word_writes(#[trigger] words(text)[k], hz)
}

/// `word` writes, in kilohertz, the frequency `hz`.
pub open spec fn word_writes(word: Seq<u8>, hz: i64) -> bool {
    word_value(word, true) matches Some(khz) && khz * 1000 == hz
}

/// `s` rises strictly from each entry to the next.
pub open spec fn strictly_ascending(s: Seq<i64>) -> bool {
    forall|i: int, j: int| 0 <= i < j < s.len() ==> s[i] < s[j]
}

/// A table is determined by the frequencies it holds: two strictly
/// ascending sequences with the same entries are one sequence.
pub proof fn lemma_table_determined(a: Seq<i64>, b: Seq<i64>)
    requires
        strictly_ascending(a),
        strictly_ascending(b),
        forall|hz: i64| a.contains(hz) <==> b.contains(hz),
    ensures
        a == b,
    decreases a.len(),
{
    if a.len() == 0 {
        if b.len() > 0 {
            assert(b.contains(b[0]));
        }
        assert(a =~= b);
    } else {
        assert(a.contains(a.last()));
        let kb = choose|k: int| 0 <= k < b.len() && b[k] == a.last();
        assert(b.contains(b.last()));
        let ka = choose|k: int| 0 <= k < a.len() && a[k] == b.last();
        assert(a.last() == b.last()) by {
            if ka < a.len() - 1 {
                assert(a[ka] < a[a.len() - 1]);
            }
            if kb < b.len() - 1 {
                assert(b[kb] < b[b.len() - 1]);
            }
        }
        let front_a = a.drop_last();
        let front_b = b.drop_last();
        assert forall|hz: i64| front_a.contains(hz) <==> front_b.contains(hz) by {
            if front_a.contains(hz) {
                let k = choose|k: int| 0 <= k < front_a.len() && front_a[k] == hz;
                assert(a[k] == hz && a[k] < a[a.len() - 1]);
                assert(a.contains(hz));
                let m = choose|m: int| 0 <= m < b.len() && b[m] == hz;
                assert(front_b[m] == hz);
            }
            if front_b.contains(hz) {
                let k = choose|k: int| 0 <= k < front_b.len() && front_b[k] == hz;
                assert(b[k] == hz && b[k] < b[b.len() - 1]);
                assert(b.contains(hz));
                let m = choose|m: int| 0 <= m < a.len() && a[m] == hz;
                assert(front_a[m] == hz);
            }
        }
        lemma_table_determined(front_a, front_b);
        assert(a =~= front_a.push(a.last()));
        assert(b =~= front_b.push(b.last()));
    }
}

/// The frequencies one cluster supports.
pub struct FrequencyTable {
    freqs: Vec<i64>,
}

impl View for FrequencyTable {
    type V = Seq<i64>;

    closed spec fn view(&self) -> Seq<i64> {
        self.freqs@
    }
}

impl FrequencyTable {
    /// A table holds at least one frequency, and its entries rise strictly.
    pub open spec fn wf(&self) -> bool {
        &&& self@.len() > 0
        &&& strictly_ascending(self@)
    }

    /// Reads a table from a list of frequencies in kilohertz, separated by
    /// white space, in any order. Each frequency is kept once.
    pub fn parse(text: &[u8]) -> (table: Result<FrequencyTable, SetupError>)
        ensures
            match table {
                Ok(t) => {
                    &&& t.wf()
                    &&& lists_frequencies(text@)
                    &&& forall|hz: i64| t@.contains(hz) <==> lists_frequency(text@, hz)
                },
                Err(SetupError::Unparseable) => !lists_frequencies(text@),
                Err(SetupError::Empty) => lists_frequencies(text@) && words(text@).len() == 0,
            },
    {
        let listed: Vec<i128> = match parse_list(text, true, KHZ_MIN, KHZ_MAX) {
            Ok(v) => v,
            Err(_) => {
                return Err(SetupError::Unparseable);
            },
        };
        let ghost values = list_values(text@, true);
        proof {
            assert(listed@.len() == values.len());
            assert forall|k: int| 0 <= k < listed@.len() implies listed@[k] as int == values[k] by {
                assert(ints(listed@)[k] == values[k]);
            }
        }
        let ordered: Vec<i128> = sort(&listed);
        let khz: Vec<i128> = unique(&ordered);
        proof {
            assert forall|x: i128| khz@.contains(x) <==> listed@.contains(x) by {
                to_multiset_contains(ordered@, x);
                to_multiset_contains(listed@, x);
            }
            assert forall|k: int| 0 <= k < khz@.len() implies KHZ_MIN <= #[trigger] khz@[k]
                <= KHZ_MAX by {
                assert(khz@.contains(khz@[k]));
                let m = choose|m: int| 0 <= m < listed@.len() && listed@[m] == khz@[k];
                assert(word_value(words(text@)[m], true) == Some(values[m]));
            }
        }
        if khz.len() == 0 {
            proof {
                if words(text@).len() > 0 {
                    assert(listed@.contains(listed@[0]));
                    assert(khz@.contains(listed@[0]));
                }
            }
            return Err(SetupError::Empty);
        }
        let mut freqs: Vec<i64> = Vec::new();
        let mut i: usize = 0;
        while i < khz.len()
            invariant
                i <= khz.len(),
                freqs@.len() == i,
                forall|k: int| 0 <= k < khz@.len() ==> KHZ_MIN <= #[trigger] khz@[k] <= KHZ_MAX,
                forall|k: int| 0 <= k < i ==> #[trigger] freqs@[k] as int == khz@[k] * 1000,
            decreases khz.len() - i,
        {
            let k: i128 = khz[i];
            freqs.push(khz_to_hz(k as i64));
            i = i + 1;
        }
        let table = FrequencyTable { freqs };
        proof {
            assert forall|a: int, b: int| 0 <= a < b < table@.len() implies table@[a]
                < table@[b] by {
                assert(khz@[a] < khz@[b]);
            }
            assert forall|hz: i64| table@.contains(hz) <==> lists_frequency(text@, hz) by {
                if table@.contains(hz) {
                    let k = choose|k: int| 0 <= k < table@.len() && table@[k] == hz;
                    assert(hz as int == khz@[k] * 1000);
                    assert(khz@.contains(khz@[k]));
                    let m = choose|m: int| 0 <= m < listed@.len() && listed@[m] == khz@[k];
                    assert(word_value(words(text@)[m], true) == Some(values[m]));
                    assert(word_writes(words(text@)[m], hz));
                }
                if lists_frequency(text@, hz) {
                    let m = choose|m: int|
                        0 <= m < words(text@).len() && word_writes(#[trigger] words(text@)[m], hz);
                    assert(values[m] * 1000 == hz);
                    assert(listed@.contains(listed@[m]));
                    assert(khz@.contains(listed@[m]));
                    let k = choose|k: int| 0 <= k < khz@.len() && khz@[k] == listed@[m];
                    assert(table@[k] == hz);
                }
            }
        }
        Ok(table)
    }

    /// Number of frequencies in the table.
    pub fn len(&self) -> (n: usize)
        ensures
            n == self@.len(),
    {
        self.freqs.len()
    }

    /// Index of the highest frequency.
    pub fn top(&self) -> (pos: usize)
        requires
            self.wf(),
        ensures
            pos == self@.len() - 1,
    {
        self.freqs.len() - 1
    }

    /// The frequency at `pos`, in cycles per second.
    pub fn get(&self, pos: usize) -> (hz: i64)
        requires
            pos < self@.len(),
        ensures
            hz == self@[pos as int],
    {
        self.freqs[pos]
    }
}

} // verus!
