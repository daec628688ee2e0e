//! Putting lists of integers in order.

use vstd::prelude::*;
use vstd::seq_lib::*;

verus! {

/// The entries of `s` as mathematical integers.
pub open spec fn ints(s: Seq<i128>) -> Seq<int> {
    Seq::new(s.len(), |k: int| s[k] as int)
}

/// `s` never falls from one entry to the next.
pub open spec fn sorted(s: Seq<i128>) -> bool {
    forall|i: int, j: int| 0 <= i <= j < s.len() ==> s[i] <= s[j]
}

/// `s` rises from each entry to the next, so no value occurs twice.
pub open spec fn strictly_sorted(s: Seq<i128>) -> bool {
    forall|i: int, j: int| 0 <= i < j < s.len() ==> s[i] < s[j]
}

/// The entries of `v` in ascending order: the same values, each as often as
/// in `v`.
pub fn sort(v: &Vec<i128>) -> (r: Vec<i128>)
    ensures
        sorted(r@),
        r@.to_multiset() == v@.to_multiset(),
        ints(r@).to_multiset() == ints(v@).to_multiset(),
{
    let mut out: Vec<i128> = Vec::new();
    let mut i: usize = 0;
    proof {
        assert(v@.take(0) =~= out@);
    }
    while i < v.len()
        invariant
            i <= v.len(),
            sorted(out@),
            out@.to_multiset() == v@.take(i as int).to_multiset(),
            ints(out@).to_multiset() == ints(v@.take(i as int)).to_multiset(),
        decreases v.len() - i,
    {
        let x: i128 = v[i];
        let mut p: usize = 0;
        while p < out.len() && out[p] <= x
            invariant
                p <= out.len(),
                forall|k: int| 0 <= k < p ==> out@[k] <= x,
            decreases out.len() - p,
        {
            p = p + 1;
        }
        let ghost before = out@;
        out.insert(p, x);
        proof {
            to_multiset_insert(before, p as int, x);
            assert(v@.take(i as int + 1) =~= v@.take(i as int).push(x));
            to_multiset_build(v@.take(i as int), x);
            assert(ints(out@) =~= ints(before).insert(p as int, x as int));
            to_multiset_insert(ints(before), p as int, x as int);
            assert(ints(v@.take(i as int + 1)) =~= ints(v@.take(i as int)).push(x as int));
            to_multiset_build(ints(v@.take(i as int)), x as int);
            assert forall|a: int, b: int| 0 <= a <= b < out@.len() implies out@[a] <= out@[b] by {
                if a < p && b > p {
                    assert(out@[a] == before[a]);
                    assert(out@[b] == before[b - 1]);
                } else if a > p {
                    assert(out@[a] == before[a - 1]);
                    assert(out@[b] == before[b - 1]);
                } else if b < p {
                    assert(out@[a] == before[a]);
                    assert(out@[b] == before[b]);
                } else if a == p && b > p {
                    assert(out@[b] == before[b - 1]);
                    assert(before[p as int] <= before[b - 1]);
                }
            }
        }
        i = i + 1;
    }
    proof {
        assert(v@.take(v.len() as int) =~= v@);
    }
    out
}

/// The values of a sorted `v`, each once, in ascending order.
pub fn unique(v: &Vec<i128>) -> (r: Vec<i128>)
    requires
        sorted(v@),
    ensures
        strictly_sorted(r@),
        forall|x: i128| r@.contains(x) <==> v@.contains(x),
{
    let mut out: Vec<i128> = Vec::new();
    let mut i: usize = 0;
    while i < v.len()
        invariant
            i <= v.len(),
            sorted(v@),
            strictly_sorted(out@),
            forall|x: i128| out@.contains(x) <==> v@.take(i as int).contains(x),
            out@.len() > 0 ==> i > 0 && out@.last() == v@[i - 1],
            out@.len() == 0 ==> i == 0,
        decreases v.len() - i,
    {
        let x: i128 = v[i];
        let ghost before = out@;
        let ghost seen = v@.take(i as int);
        let ghost now = v@.take(i as int + 1);
        proof {
            assert(now =~= seen.push(x));
        }
        let fresh = out.len() == 0 || out[out.len() - 1] < x;
        if fresh {
            out.push(x);
            proof {
                assert forall|a: int, b: int| 0 <= a < b < out@.len() implies out@[a] < out@[b] by {
                    if b == before.len() {
                        assert(out@[a] == before[a]);
                        assert(before[a] <= before.last());
                    } else {
                        assert(out@[a] == before[a]);
                        assert(out@[b] == before[b]);
                    }
                }
                assert forall|y: i128| out@.contains(y) <==> now.contains(y) by {
                    if out@.contains(y) {
                        let k = choose|k: int| 0 <= k < out@.len() && out@[k] == y;
                        if k < before.len() {
                            assert(before[k] == y);
                            assert(before.contains(y));
                            assert(seen.contains(y));
                            let m = choose|m: int| 0 <= m < seen.len() && seen[m] == y;
                            assert(now[m] == y);
                        } else {
                            assert(now[i as int] == y);
                        }
                    }
                    if now.contains(y) {
                        let m = choose|m: int| 0 <= m < now.len() && now[m] == y;
                        if m < seen.len() {
                            assert(seen[m] == y);
                            assert(seen.contains(y));
                            assert(before.contains(y));
                            let k = choose|k: int| 0 <= k < before.len() && before[k] == y;
                            assert(out@[k] == y);
                        } else {
                            assert(out@[before.len() as int] == y);
                        }
                    }
                }
            }
        } else {
            proof {
                assert(out@.last() == x);
                assert forall|y: i128| out@.contains(y) <==> now.contains(y) by {
                    if out@.contains(y) {
                        assert(seen.contains(y));
                        let m = choose|m: int| 0 <= m < seen.len() && seen[m] == y;
                        assert(now[m] == y);
                    }
                    if now.contains(y) {
                        let m = choose|m: int| 0 <= m < now.len() && now[m] == y;
                        if m < seen.len() {
                            assert(seen[m] == y);
                            assert(seen.contains(y));
                        } else {
                            assert(out@[out@.len() - 1] == y);
                        }
                    }
                }
            }
        }
        i = i + 1;
    }
    proof {
        assert(v@.take(v.len() as int) =~= v@);
    }
    out
}

} // verus!
