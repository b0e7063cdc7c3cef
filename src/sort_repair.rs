//! Sort the series by value, then walk inwards from the two extremes.
use vstd::prelude::*;
use crate::series::{Sample, Trade, zero_trade, trade_of, gain, gain_between, copy_series};

verus! {

/// What the repair walk returns on `p` (a value-sorted series) from the window
/// `[buy, sell]`.
///
/// A feasible extreme pair is returned at once. Otherwise the next-smallest
/// acquire and the next-largest dispose are tried; when both are feasible the
/// larger gain wins, a tie going to the shifted acquire. When neither is, the
/// window shrinks on both sides. An exhausted window gives the zero trade.
/// This only looks one step inwards on each side, so it is not optimal in general.
pub open spec fn repair(p: Seq<Sample>, buy: int, sell: int) -> Trade
    decreases p.len() - buy,
{
    if !(0 <= buy && buy < sell && sell < p.len()) {
        zero_trade()
    } else if p[buy].0 < p[sell].0 {
        trade_of(p, buy, sell)
    } else {
        let buy_shift_ok = p[buy + 1].0 < p[sell].0;
        let sell_shift_ok = p[buy].0 < p[sell - 1].0;
        if buy_shift_ok && sell_shift_ok {
            if gain(p, buy + 1, sell) >= gain(p, buy, sell - 1) {
                trade_of(p, buy + 1, sell)
            } else {
                trade_of(p, buy, sell - 1)
            }
        } else if buy_shift_ok {
            trade_of(p, buy + 1, sell)
        } else if sell_shift_ok {
            trade_of(p, buy, sell - 1)
        } else {
            repair(p, buy + 1, sell - 1)
        }
    }
}

/// The repair walk over the whole of a value-sorted series.
pub open spec fn repair_all(p: Seq<Sample>) -> Trade {
    if p.len() < 2 {
        zero_trade()
    } else {
        repair(p, 0, p.len() - 1)
    }
}

/// Runs the repair walk on a series that the caller has already sorted by value.
pub fn search_sorted_by_value(sorted: &Vec<Sample>) -> (r: Trade)
    ensures
        r == repair_all(sorted@),
{
    let n = sorted.len();
    if n < 2 {
        return (0, 0, 0);
    }
    let mut buy: usize = 0;
    let mut sell: usize = n - 1;
    while buy < sell
        invariant
            n == sorted@.len(),
            sell < n,
            repair(sorted@, buy as int, sell as int) == repair_all(sorted@),
        decreases n - buy,
    {
        let b = sorted[buy];
        let s = sorted[sell];
        if b.0 < s.0 {
            return (b.0, s.0, gain_between(b, s));
        }
        let b2 = sorted[buy + 1];
        let s2 = sorted[sell - 1];
        let buy_shift_ok = b2.0 < s.0;
        let sell_shift_ok = b.0 < s2.0;
        if buy_shift_ok && sell_shift_ok {
            let g1 = gain_between(b2, s);
            let g2 = gain_between(b, s2);
            if g1 >= g2 {
                return (b2.0, s.0, g1);
            } else {
                return (b.0, s2.0, g2);
            }
        } else if buy_shift_ok {
            return (b2.0, s.0, gain_between(b2, s));
        } else if sell_shift_ok {
            return (b.0, s2.0, gain_between(b, s2));
        }
        buy = buy + 1;
        sell = sell - 1;
    }
    (0, 0, 0)
}

/// Values ascend along the array (equal values in any order).
pub open spec fn sorted_by_value(p: Seq<Sample>) -> bool {
    forall|i: int, j: int| 0 <= i <= j < p.len() ==> #[trigger] p[i].1 <= #[trigger] p[j].1
}

/// `p` holds the samples of `s`, each as often, ordered by value.
pub open spec fn is_value_ordering(p: Seq<Sample>, s: Seq<Sample>) -> bool {
    p.to_multiset() == s.to_multiset() && sorted_by_value(p)
}

/// `r` is what the sort-and-repair solver may answer on `s`: the repair walk
/// over some ordering of `s` by value (the sort leaves equal values unordered).
pub open spec fn sort_repair_result(s: Seq<Sample>, r: Trade) -> bool {
    exists|p: Seq<Sample>| is_value_ordering(p, s) && r == repair_all(p)
}

/// Relies on `slice::sort_unstable_by_key`: the vector keeps its samples, each
/// as often, and ends in ascending order of value; equal values may come in any order.
#[verifier::external_body]
fn sort_by_value(v: &mut Vec<Sample>)
    ensures
        final(v)@.to_multiset() == old(v)@.to_multiset(),
        sorted_by_value(final(v)@),
{
    v.sort_unstable_by_key(|a| a.1);
}

/// Sort-and-repair solver: sorts a copy of the series by value and runs the
/// repair walk on it. The series itself is left as it is.
pub fn find_best_buy_and_sell_algo1(stocks: &Vec<Sample>) -> (r: Trade)
    ensures
        sort_repair_result(stocks@, r),
{
    let mut sorted = copy_series(stocks);
    sort_by_value(&mut sorted);
    let r = search_sorted_by_value(&sorted);
    assert(is_value_ordering(sorted@, stocks@));
    r
}

} // verus!
