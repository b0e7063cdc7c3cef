//! Samples, series and the trades a solver can report.
use vstd::prelude::*;

verus! {

/// A sample: its timestamp and its value.
pub type Sample = (usize, i32);

/// A solver's answer: acquire timestamp, dispose timestamp and gain.
pub type Trade = (usize, usize, i64);

/// The answer for a series in which no feasible pair was found.
pub open spec fn zero_trade() -> Trade {
    (0usize, 0usize, 0i64)
}

/// Gain of acquiring at index `i` and disposing at index `j`.
pub open spec fn gain(s: Seq<Sample>, i: int, j: int) -> int {
    s[j].1 - s[i].1
}

/// Indices `i` and `j` form a feasible pair: `i`'s timestamp is strictly earlier.
pub open spec fn feasible(s: Seq<Sample>, i: int, j: int) -> bool {
    0 <= i < s.len() && 0 <= j < s.len() && s[i].0 < s[j].0
}

/// The trade reported for the pair of indices `i`, `j`.
pub open spec fn trade_of(s: Seq<Sample>, i: int, j: int) -> Trade {
    (s[i].0, s[j].0, gain(s, i, j) as i64)
}

/// Some feasible pair exists in `s`.
pub open spec fn has_feasible(s: Seq<Sample>) -> bool {
    exists|i: int, j: int| feasible(s, i, j)
}

/// Timestamps are the positions `0, 1, ..., len - 1`.
pub open spec fn indexed_timestamps(s: Seq<Sample>) -> bool {
    forall|k: int| 0 <= k < s.len() ==> #[trigger] s[k].0 == k
}

/// Timestamps are pairwise distinct.
pub open spec fn distinct_timestamps(s: Seq<Sample>) -> bool {
    forall|i: int, j: int|
        0 <= i < s.len() && 0 <= j < s.len() && i != j ==> #[trigger] s[i].0 != #[trigger] s[j].0
}

/// Timestamps strictly increase along the array.
pub open spec fn time_ordered(s: Seq<Sample>) -> bool {
    forall|i: int, j: int| 0 <= i < j < s.len() ==> #[trigger] s[i].0 < #[trigger] s[j].0
}

/// Values strictly increase along the array.
pub open spec fn strictly_increasing(s: Seq<Sample>) -> bool {
    forall|i: int, j: int| 0 <= i < j < s.len() ==> #[trigger] s[i].1 < #[trigger] s[j].1
}

/// Values strictly decrease along the array.
pub open spec fn strictly_decreasing(s: Seq<Sample>) -> bool {
    forall|i: int, j: int| 0 <= i < j < s.len() ==> #[trigger] s[i].1 > #[trigger] s[j].1
}

/// Gain of two samples as an `i64`; the difference of two `i32` always fits.
pub fn gain_between(buy: Sample, sell: Sample) -> (r: i64)
    ensures
        r == sell.1 - buy.1,
{
    sell.1 as i64 - buy.1 as i64
}

/// A fresh vector holding the same samples in the same order.
pub(crate) fn copy_series(s: &Vec<Sample>) -> (r: Vec<Sample>)
    ensures
        r@ == s@,
{
    let mut r: Vec<Sample> = Vec::with_capacity(s.len());
    let mut k: usize = 0;
    while k < s.len()
        invariant
            k <= s.len(),
            r@ == s@.subrange(0, k as int),
        decreases s.len() - k,
    {
        r.push(s[k]);
        k = k + 1;
        assert(r@ =~= s@.subrange(0, k as int));
    }
    assert(r@ =~= s@);
    r
}

} // verus!
