//! Properties that relate the solvers to each other and to the shape of a series.
use vstd::prelude::*;
use crate::series::{
    Sample, Trade, zero_trade, trade_of, gain, feasible, has_feasible, indexed_timestamps,
    distinct_timestamps, time_ordered, strictly_increasing, strictly_decreasing,
};
use crate::exhaustive::{exhaustive_result, chosen_pair};
use crate::greedy::{greedy_result, greedy_pair, has_rise, in_order};
use crate::sort_repair::{repair, repair_all, sort_repair_result, is_value_ordering};

verus! {

broadcast use vstd::seq_lib::group_to_multiset_ensures;

/// The exhaustive answer has the largest gain of all feasible pairs, and is
/// itself one of them; without a feasible pair it is the zero trade.
pub proof fn exhaustive_is_optimal(s: Seq<Sample>, r: Trade)
    requires
        exhaustive_result(s, r),
    ensures
        has_feasible(s) ==> exists|i: int, j: int| feasible(s, i, j) && r == trade_of(s, i, j),
        forall|k: int, l: int| #[trigger] feasible(s, k, l) ==> gain(s, k, l) <= r.2,
        !has_feasible(s) ==> r == zero_trade(),
{
    if has_feasible(s) {
        let (i, j) = choose|i: int, j: int| chosen_pair(s, i, j) && r == trade_of(s, i, j);
        assert(feasible(s, i, j));
    }
}

/// The repair walk answers the zero trade or the trade of a feasible pair.
proof fn repair_picks_feasible(p: Seq<Sample>, buy: int, sell: int)
    ensures
        repair(p, buy, sell) == zero_trade()
            || exists|i: int, j: int| feasible(p, i, j) && repair(p, buy, sell) == trade_of(p, i, j),
    decreases p.len() - buy,
{
    if 0 <= buy && buy < sell && sell < p.len() {
        if p[buy].0 < p[sell].0 {
            assert(feasible(p, buy, sell));
        } else if p[buy + 1].0 < p[sell].0 {
            assert(feasible(p, buy + 1, sell));
            assert(p[buy].0 < p[sell - 1].0 ==> feasible(p, buy, sell - 1));
        } else if p[buy].0 < p[sell - 1].0 {
            assert(feasible(p, buy, sell - 1));
        } else {
            repair_picks_feasible(p, buy + 1, sell - 1);
        }
    }
}

/// Every sample of an ordering of `s` is a sample of `s`.
proof fn ordering_sample_in_series(p: Seq<Sample>, s: Seq<Sample>, i: int)
    requires
        p.to_multiset() == s.to_multiset(),
        0 <= i < p.len(),
    ensures
        exists|k: int| 0 <= k < s.len() && s[k] == p[i],
{
    assert(p.contains(p[i]));
    assert(p.to_multiset().count(p[i]) > 0);
    assert(s.to_multiset().count(p[i]) > 0);
    assert(s.contains(p[i]));
}

/// Every sample of `s` is a sample of an ordering of `s`.
proof fn series_sample_in_ordering(p: Seq<Sample>, s: Seq<Sample>, k: int)
    requires
        p.to_multiset() == s.to_multiset(),
        0 <= k < s.len(),
    ensures
        exists|i: int| 0 <= i < p.len() && p[i] == s[k],
{
    assert(s.contains(s[k]));
    assert(s.to_multiset().count(s[k]) > 0);
    assert(p.to_multiset().count(s[k]) > 0);
    assert(p.contains(s[k]));
}

/// Feasibility. On a series of at least two samples with distinct timestamps
/// the exhaustive answer acquires strictly before it disposes. The
/// sort-and-repair answer, unless its walk ran out (the zero trade), is the
/// trade of a feasible pair of the series. On a series whose timestamps follow
/// array order and which rises somewhere, so is the greedy answer.
pub proof fn solvers_answer_feasible_pairs(s: Seq<Sample>, r1: Trade, r2: Trade, r3: Trade)
    requires
        exhaustive_result(s, r1),
        sort_repair_result(s, r2),
        greedy_result(s, r3),
    ensures
        s.len() >= 2 && distinct_timestamps(s) ==> r1.0 < r1.1,
        r2 != zero_trade() ==> r2.0 < r2.1
            && exists|i: int, j: int| feasible(s, i, j) && r2 == trade_of(s, i, j),
        time_ordered(s) && has_rise(s) ==> r3.0 < r3.1,
{
    if s.len() >= 2 && distinct_timestamps(s) {
        assert(s[0].0 != s[1].0);
        if s[0].0 < s[1].0 {
            assert(feasible(s, 0, 1));
        } else {
            assert(feasible(s, 1, 0));
        }
        let (i, j) = choose|i: int, j: int| chosen_pair(s, i, j) && r1 == trade_of(s, i, j);
        assert(feasible(s, i, j));
    }
    let p = choose|p: Seq<Sample>| is_value_ordering(p, s) && r2 == repair_all(p);
    if r2 != zero_trade() {
        repair_picks_feasible(p, 0, p.len() - 1);
        let (i, j) = choose|i: int, j: int| feasible(p, i, j) && r2 == trade_of(p, i, j);
        ordering_sample_in_series(p, s, i);
        ordering_sample_in_series(p, s, j);
        let a = choose|k: int| 0 <= k < s.len() && s[k] == p[i];
        let b = choose|k: int| 0 <= k < s.len() && s[k] == p[j];
        assert(feasible(s, a, b));
        assert(r2 == trade_of(s, a, b));
    }
    if time_ordered(s) && has_rise(s) {
        let (i, j) = choose|i: int, j: int| greedy_pair(s, i, j) && r3 == trade_of(s, i, j);
        assert(in_order(s, i, j));
    }
}

/// The trade from the first to the last sample of `s`.
pub open spec fn first_to_last(s: Seq<Sample>) -> Trade {
    trade_of(s, 0, s.len() - 1)
}

/// On a strictly increasing series with timestamps `0..n`, an ordering by value
/// starts with the first sample and ends with the last.
proof fn ordering_of_increasing(p: Seq<Sample>, s: Seq<Sample>)
    requires
        is_value_ordering(p, s),
        strictly_increasing(s),
        s.len() >= 1,
    ensures
        p.len() == s.len(),
        p[0] == s[0],
        p[p.len() - 1] == s[s.len() - 1],
{
    let n = s.len() as int;
    assert(p.len() == p.to_multiset().len());
    assert(s.len() == s.to_multiset().len());
    ordering_sample_in_series(p, s, 0);
    let k = choose|k: int| 0 <= k < s.len() && s[k] == p[0];
    series_sample_in_ordering(p, s, 0);
    let m = choose|i: int| 0 <= i < p.len() && p[i] == s[0];
    assert(p[0].1 <= p[m].1);
    if k > 0 {
        assert(s[0].1 < s[k].1);
    }
    ordering_sample_in_series(p, s, n - 1);
    let k2 = choose|k: int| 0 <= k < s.len() && s[k] == p[n - 1];
    series_sample_in_ordering(p, s, n - 1);
    let m2 = choose|i: int| 0 <= i < p.len() && p[i] == s[n - 1];
    assert(p[m2].1 <= p[n - 1].1);
    if k2 < n - 1 {
        assert(s[k2].1 < s[n - 1].1);
    }
}

/// Monotone increasing series. On a non-empty strictly increasing series with
/// timestamps `0..n`, all three solvers answer `(0, n - 1, last - first)`.
pub proof fn increasing_series_first_to_last(s: Seq<Sample>, r1: Trade, r2: Trade, r3: Trade)
    requires
        s.len() >= 1,
        strictly_increasing(s),
        indexed_timestamps(s),
        exhaustive_result(s, r1),
        sort_repair_result(s, r2),
        greedy_result(s, r3),
    ensures
        r1 == first_to_last(s),
        r2 == first_to_last(s),
        r3 == first_to_last(s),
{
    let n = s.len() as int;
    assert(s[0].0 == 0);
    assert(s[n - 1].0 == n - 1);
    let p = choose|p: Seq<Sample>| is_value_ordering(p, s) && r2 == repair_all(p);
    ordering_of_increasing(p, s);
    if n == 1 {
        assert(!has_feasible(s)) by {
            assert forall|i: int, j: int| !#[trigger] feasible(s, i, j) by {
                if feasible(s, i, j) {
                    assert(i == 0 && j == 0);
                }
            }
        }
    } else {
        assert(feasible(s, 0, n - 1));
        let (i, j) = choose|i: int, j: int| chosen_pair(s, i, j) && r1 == trade_of(s, i, j);
        assert(s[i].0 == i && s[j].0 == j);
        if j < n - 1 {
            assert(s[j].1 < s[n - 1].1);
        }
        if i > 0 {
            assert(s[0].1 < s[i].1);
        }
        assert(in_order(s, 0, 1) && s[0].1 < s[1].1);
        let (a, b) = choose|a: int, b: int| greedy_pair(s, a, b) && r3 == trade_of(s, a, b);
        assert(in_order(s, 0, n - 1));
        if b < n - 1 {
            assert(s[b].1 < s[n - 1].1);
        }
        if a > 0 {
            assert(s[0].1 < s[a].1);
        }
        assert(repair(p, 0, n - 1) == trade_of(p, 0, n - 1));
    }
}

/// Monotone decreasing series. On a strictly decreasing series of at least two
/// samples with timestamps `0..n`, the exhaustive answer is a feasible pair
/// with a negative gain, and no feasible pair loses less.
pub proof fn decreasing_series_least_loss(s: Seq<Sample>, r: Trade)
    requires
        s.len() >= 2,
        strictly_decreasing(s),
        indexed_timestamps(s),
        exhaustive_result(s, r),
    ensures
        r.0 < r.1,
        r.2 < 0,
        forall|k: int, l: int| #[trigger] feasible(s, k, l) ==> gain(s, k, l) <= r.2,
{
    assert(s[0].0 == 0 && s[1].0 == 1);
    assert(feasible(s, 0, 1));
    let (i, j) = choose|i: int, j: int| chosen_pair(s, i, j) && r == trade_of(s, i, j);
    assert(s[i].0 == i && s[j].0 == j);
    assert(s[i].1 > s[j].1);
}

/// Degenerate series. On a series of fewer than two samples every solver
/// answers the zero trade.
pub proof fn short_series_zero_trade(s: Seq<Sample>, r1: Trade, r2: Trade, r3: Trade)
    requires
        s.len() < 2,
        exhaustive_result(s, r1),
        sort_repair_result(s, r2),
        greedy_result(s, r3),
    ensures
        r1 == zero_trade(),
        r2 == zero_trade(),
        r3 == zero_trade(),
{
    assert(!has_feasible(s)) by {
        assert forall|i: int, j: int| !#[trigger] feasible(s, i, j) by {
            if feasible(s, i, j) {
                assert(i == 0 && j == 0);
            }
        }
    }
    let p = choose|p: Seq<Sample>| is_value_ordering(p, s) && r2 == repair_all(p);
    assert(p.len() == p.to_multiset().len());
    assert(s.len() == s.to_multiset().len());
}

} // verus!
