//! One pass over array order with a running minimum.
use vstd::prelude::*;
use crate::series::{Sample, Trade, zero_trade, trade_of, gain, gain_between};

verus! {

/// Array positions `a < b`, both in `s`.
pub open spec fn in_order(s: Seq<Sample>, a: int, b: int) -> bool {
    0 <= a < b < s.len()
}

/// `i` is the last position of a minimal value among the positions before `j`.
pub open spec fn last_min_before(s: Seq<Sample>, i: int, j: int) -> bool {
    &&& 0 <= i < j <= s.len()
    &&& forall|a: int| 0 <= a < j ==> s[i].1 <= #[trigger] s[a].1
    &&& forall|a: int| i < a < j ==> s[i].1 < #[trigger] s[a].1
}

/// `(i, j)` is the pair the greedy pass settles on: positive gain, maximal
/// over array order, the first dispose position reaching it, and the last
/// minimum before that position as acquire.
pub open spec fn greedy_pair(s: Seq<Sample>, i: int, j: int) -> bool {
    &&& in_order(s, i, j)
    &&& gain(s, i, j) > 0
    &&& forall|a: int, b: int| #[trigger] in_order(s, a, b) ==> gain(s, a, b) <= gain(s, i, j)
    &&& forall|a: int, b: int| #[trigger] in_order(s, a, b) && b < j ==> gain(s, a, b) < gain(s, i, j)
    &&& last_min_before(s, i, j)
}

/// Some later position holds a larger value than an earlier one.
pub open spec fn has_rise(s: Seq<Sample>) -> bool {
    exists|a: int, b: int| #[trigger] in_order(s, a, b) && s[a].1 < s[b].1
}

/// `r` is the greedy pass's answer on `s`. Timestamps are only reported, never
/// compared: array order stands for time.
pub open spec fn greedy_result(s: Seq<Sample>, r: Trade) -> bool {
    if s.len() < 2 {
        r == zero_trade()
    } else if !has_rise(s) {
        r == (s[0].0, s[0].0, 0i64)
    } else {
        exists|i: int, j: int| greedy_pair(s, i, j) && r == trade_of(s, i, j)
    }
}

/// Greedy solver: a single pass that keeps the position of the running minimum.
/// Optimal only where array order is time order; never apply it to a series
/// sorted by value.
pub fn find_best_buy_and_sell_greedy(stocks: &Vec<Sample>) -> (r: Trade)
    ensures
        greedy_result(stocks@, r),
{
    let s = Ghost(stocks@);
    let n = stocks.len();
    if n < 2 {
        return (0, 0, 0);
    }
    let mut i: usize = 0;
    let mut res: i64 = 0;
    let mut max_i: usize = 0;
    let mut max_j: usize = 0;
    let mut j: usize = 0;
    while j < n
        invariant
            s@ == stocks@,
            n == s@.len(),
            j <= n,
            i < n,
            j == 0 ==> i == 0,
            j > 0 ==> last_min_before(s@, i as int, j as int),
            res >= 0,
            forall|a: int, b: int| #[trigger] in_order(s@, a, b) && b < j ==> gain(s@, a, b) <= res,
            res == 0 ==> max_i == 0 && max_j == 0,
            res > 0 ==> {
                &&& max_j < j
                &&& in_order(s@, max_i as int, max_j as int)
                &&& gain(s@, max_i as int, max_j as int) == res
                &&& forall|a: int, b: int| #[trigger] in_order(s@, a, b) && b < max_j ==> gain(s@, a, b) < res
                &&& last_min_before(s@, max_i as int, max_j as int)
            },
        decreases n - j,
    {
        if stocks[i].1 < stocks[j].1 {
            let g = gain_between(stocks[i], stocks[j]);
            if g > res {
                res = g;
                max_i = i;
                max_j = j;
            }
        } else {
            i = j;
        }
        j = j + 1;
    }
    if res > 0 {
        assert(has_rise(s@)) by {
            assert(in_order(s@, max_i as int, max_j as int));
        }
        assert(greedy_pair(s@, max_i as int, max_j as int));
    } else {
        assert(!has_rise(s@)) by {
            assert forall|a: int, b: int| #[trigger] in_order(s@, a, b) implies !(s@[a].1 < s@[b].1) by {
                assert(gain(s@, a, b) <= res);
            }
        }
    }
    (stocks[max_i].0, stocks[max_j].0, res)
}

} // verus!
