//! Exhaustive search over every feasible pair.
use vstd::prelude::*;
use crate::series::{Sample, Trade, zero_trade, trade_of, gain, feasible, has_feasible, gain_between};

verus! {

/// `(i, j)` is the pair the exhaustive search settles on: feasible, of maximal
/// gain, with the latest acquire index among optimal pairs, and for that acquire
/// the earliest dispose index of maximal gain.
pub open spec fn chosen_pair(s: Seq<Sample>, i: int, j: int) -> bool {
    &&& feasible(s, i, j)
    &&& forall|k: int, l: int| #[trigger] feasible(s, k, l) ==> gain(s, k, l) <= gain(s, i, j)
    &&& forall|k: int, l: int| #[trigger] feasible(s, k, l) && i < k ==> gain(s, k, l) < gain(s, i, j)
    &&& forall|l: int| #[trigger] feasible(s, i, l) && l < j ==> gain(s, i, l) < gain(s, i, j)
}

/// `r` is the exhaustive search's answer on `s`: the trade of the chosen pair,
/// or the zero trade when `s` has no feasible pair (fewer than two samples, or
/// all timestamps equal).
pub open spec fn exhaustive_result(s: Seq<Sample>, r: Trade) -> bool {
    if has_feasible(s) {
        exists|i: int, j: int| chosen_pair(s, i, j) && r == trade_of(s, i, j)
    } else {
        r == zero_trade()
    }
}

/// For the acquire index `i`: the first index of maximal value among the
/// samples strictly later in time, if there is one.
fn best_later(stocks: &Vec<Sample>, i: usize) -> (r: Option<usize>)
    requires
        i < stocks@.len(),
    ensures
        match r {
            Some(j) => {
                &&& feasible(stocks@, i as int, j as int)
                &&& forall|l: int| #[trigger] feasible(stocks@, i as int, l) ==> stocks@[l].1 <= stocks@[j as int].1
                &&& forall|l: int| #[trigger] feasible(stocks@, i as int, l) && l < j ==> stocks@[l].1 < stocks@[j as int].1
            },
            None => forall|l: int| !#[trigger] feasible(stocks@, i as int, l),
        },
{
    let s = Ghost(stocks@);
    let t = stocks[i].0;
    let mut best: Option<usize> = None;
    let mut j: usize = 0;
    while j < stocks.len()
        invariant
            s@ == stocks@,
            i < s@.len(),
            t == s@[i as int].0,
            j <= s@.len(),
            match best {
                Some(h) => {
                    &&& h < j
                    &&& feasible(s@, i as int, h as int)
                    &&& forall|l: int| #[trigger] feasible(s@, i as int, l) && l < j ==> s@[l].1 <= s@[h as int].1
                    &&& forall|l: int| #[trigger] feasible(s@, i as int, l) && l < h ==> s@[l].1 < s@[h as int].1
                },
                None => forall|l: int| #[trigger] feasible(s@, i as int, l) ==> l >= j,
            },
        decreases s@.len() - j,
    {
        let c = stocks[j];
        if c.0 > t {
            match best {
                None => {
                    best = Some(j);
                },
                Some(h) => {
                    if c.1 > stocks[h].1 {
                        best = Some(j);
                    }
                },
            }
        }
        j = j + 1;
    }
    best
}

/// Exhaustive solver: for each sample, the best later sample; of those, the
/// pair with the largest gain (a negative one too, when nothing better exists).
/// Optimal, quadratic in the length of the series.
pub fn find_best_buy_and_sell_naive(stocks: &Vec<Sample>) -> (r: Trade)
    ensures
        exhaustive_result(stocks@, r),
{
    let s = Ghost(stocks@);
    let mut best: Trade = (0, 0, 0);
    let mut found = false;
    let mut bi: Ghost<int> = Ghost(0);
    let mut bj: Ghost<int> = Ghost(0);
    let mut i: usize = 0;
    while i < stocks.len()
        invariant
            s@ == stocks@,
            i <= s@.len(),
            found ==> {
                &&& bi@ < i
                &&& feasible(s@, bi@, bj@)
                &&& best == trade_of(s@, bi@, bj@)
                &&& forall|k: int, l: int| #[trigger] feasible(s@, k, l) && k < i ==> gain(s@, k, l) <= gain(s@, bi@, bj@)
                &&& forall|k: int, l: int| #[trigger] feasible(s@, k, l) && k < i && bi@ < k ==> gain(s@, k, l) < gain(s@, bi@, bj@)
                &&& forall|l: int| #[trigger] feasible(s@, bi@, l) && l < bj@ ==> gain(s@, bi@, l) < gain(s@, bi@, bj@)
            },
            !found ==> best == zero_trade(),
            !found ==> forall|k: int, l: int| #[trigger] feasible(s@, k, l) ==> k >= i,
        decreases s@.len() - i,
    {
        match best_later(stocks, i) {
            Some(j) => {
                let g = gain_between(stocks[i], stocks[j]);
                if !found || g >= best.2 {
                    best = (stocks[i].0, stocks[j].0, g);
                    found = true;
                    bi = Ghost(i as int);
                    bj = Ghost(j as int);
                }
            },
            None => {},
        }
        i = i + 1;
    }
    if found {
        assert(has_feasible(s@));
        assert(chosen_pair(s@, bi@, bj@));
    } else {
        assert(!has_feasible(s@));
    }
    best
}

} // verus!
