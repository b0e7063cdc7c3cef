use stock_profit::exhaustive::find_best_buy_and_sell_naive;
use stock_profit::greedy::find_best_buy_and_sell_greedy;
use stock_profit::sort_repair::{find_best_buy_and_sell_algo1, search_sorted_by_value};
use stock_profit::generator::random_stock_sample;
use rand::rngs::StdRng;
use rand::SeedableRng;

fn series(values: &[i32]) -> Vec<(usize, i32)> {
    values.iter().enumerate().map(|(t, v)| (t, *v)).collect()
}

/// Best gain over all feasible pairs, computed independently of the library.
fn brute_force_best(s: &[(usize, i32)]) -> Option<i64> {
    let mut best: Option<i64> = None;
    for a in s {
        for b in s {
            if a.0 < b.0 {
                let g = b.1 as i64 - a.1 as i64;
                best = Some(match best {
                    Some(x) if x >= g => x,
                    _ => g,
                });
            }
        }
    }
    best
}

fn is_feasible_trade(s: &[(usize, i32)], r: (usize, usize, i64)) -> bool {
    s.iter().any(|a| {
        s.iter().any(|b| a.0 == r.0 && b.0 == r.1 && a.0 < b.0 && b.1 as i64 - a.1 as i64 == r.2)
    })
}

#[test]
fn concrete_scenario_exhaustive_and_greedy() {
    let s = vec![(0, 5), (1, 1), (2, 9), (3, 3), (4, 8)];
    assert_eq!(find_best_buy_and_sell_naive(&s), (1, 2, 8));
    assert_eq!(find_best_buy_and_sell_greedy(&s), (1, 2, 8));
    assert_eq!(find_best_buy_and_sell_algo1(&s), (1, 2, 8));
}

#[test]
fn decreasing_series_least_negative_pair() {
    let s = series(&[10, 8, 6, 4]);
    assert_eq!(find_best_buy_and_sell_naive(&s), (2, 3, -2));
}

#[test]
fn decreasing_series_uneven_drops() {
    let s = series(&[20, 11, 9, 1]);
    assert_eq!(find_best_buy_and_sell_naive(&s), (1, 2, -2));
}

#[test]
fn increasing_series_all_solvers() {
    let s = series(&[-3, 1, 4, 10, 12, 40]);
    let expected = (0, 5, 43);
    assert_eq!(find_best_buy_and_sell_naive(&s), expected);
    assert_eq!(find_best_buy_and_sell_algo1(&s), expected);
    assert_eq!(find_best_buy_and_sell_greedy(&s), expected);
}

#[test]
fn increasing_series_of_two() {
    let s = series(&[7, 8]);
    assert_eq!(find_best_buy_and_sell_naive(&s), (0, 1, 1));
    assert_eq!(find_best_buy_and_sell_algo1(&s), (0, 1, 1));
    assert_eq!(find_best_buy_and_sell_greedy(&s), (0, 1, 1));
}

#[test]
fn empty_series_zero_trade() {
    let s: Vec<(usize, i32)> = Vec::new();
    assert_eq!(find_best_buy_and_sell_naive(&s), (0, 0, 0));
    assert_eq!(find_best_buy_and_sell_algo1(&s), (0, 0, 0));
    assert_eq!(find_best_buy_and_sell_greedy(&s), (0, 0, 0));
}

#[test]
fn single_sample_zero_trade() {
    let s = vec![(7, 42)];
    assert_eq!(find_best_buy_and_sell_naive(&s), (0, 0, 0));
    assert_eq!(find_best_buy_and_sell_algo1(&s), (0, 0, 0));
    assert_eq!(find_best_buy_and_sell_greedy(&s), (0, 0, 0));
}

#[test]
fn equal_timestamps_have_no_feasible_pair() {
    let s = vec![(3, 1), (3, 9)];
    assert_eq!(find_best_buy_and_sell_naive(&s), (0, 0, 0));
}

#[test]
fn gain_beyond_i32() {
    let s = series(&[i32::MIN, i32::MAX]);
    let expected = (0, 1, i32::MAX as i64 - i32::MIN as i64);
    assert_eq!(find_best_buy_and_sell_naive(&s), expected);
    assert_eq!(find_best_buy_and_sell_algo1(&s), expected);
    assert_eq!(find_best_buy_and_sell_greedy(&s), expected);
}

#[test]
fn exhaustive_ties_take_last_acquire_first_dispose() {
    // (0,1), (0,3), (2,3) all gain 4; the latest acquire is 2.
    let s = series(&[1, 5, 1, 5]);
    assert_eq!(find_best_buy_and_sell_naive(&s), (2, 3, 4));
    // For acquire 0 the first dispose of value 9 is timestamp 1.
    let s = series(&[0, 9, 9]);
    assert_eq!(find_best_buy_and_sell_naive(&s), (0, 1, 9));
}

#[test]
fn exhaustive_follows_timestamps_not_positions() {
    let s = vec![(2, 9), (0, 1), (1, 4)];
    assert_eq!(find_best_buy_and_sell_naive(&s), (0, 2, 8));
}

#[test]
fn exhaustive_matches_brute_force_on_small_series() {
    let mut rng = StdRng::seed_from_u64(11);
    for round in 0..300u64 {
        let allow = round % 2 == 0;
        let s = random_stock_sample(&mut rng, 12, 0, 50, -50, allow, 7).unwrap();
        let r = find_best_buy_and_sell_naive(&s);
        match brute_force_best(&s) {
            Some(best) => {
                assert_eq!(r.2, best);
                assert!(is_feasible_trade(&s, r));
            }
            None => assert_eq!(r, (0, 0, 0)),
        }
    }
}

#[test]
fn solvers_answer_feasible_pairs_on_generated_series() {
    let mut rng = StdRng::seed_from_u64(5);
    for round in 0..300u64 {
        let s = random_stock_sample(&mut rng, 30, 2, 100, 0, round % 3 == 0, 4).unwrap();
        let r1 = find_best_buy_and_sell_naive(&s);
        assert!(r1.0 < r1.1);
        assert!(is_feasible_trade(&s, r1));
        let r2 = find_best_buy_and_sell_algo1(&s);
        assert!(r2 == (0, 0, 0) || is_feasible_trade(&s, r2));
        assert!(r2 == (0, 0, 0) || r2.2 <= r1.2);
        let r3 = find_best_buy_and_sell_greedy(&s);
        if r3.2 > 0 {
            assert!(is_feasible_trade(&s, r3));
            assert_eq!(r3.2, r1.2);
        }
    }
}

#[test]
fn greedy_without_rise_reports_first_timestamp() {
    let s = vec![(4, 5), (7, 3), (9, 3)];
    assert_eq!(find_best_buy_and_sell_greedy(&s), (4, 4, 0));
}

#[test]
fn greedy_takes_last_minimum_and_first_best_dispose() {
    // best gain 6 is first reached at position 2, before the repeat at 4.
    let s = series(&[4, 1, 7, 1, 7, 2]);
    assert_eq!(find_best_buy_and_sell_greedy(&s), (1, 2, 6));
    // minimum 1 at positions 1 and 2: the later one is the acquire.
    let s = series(&[4, 1, 1, 7]);
    assert_eq!(find_best_buy_and_sell_greedy(&s), (2, 3, 6));
}

#[test]
fn sort_repair_on_unsorted_input() {
    let s = vec![(0, 9), (1, 2), (2, 5), (3, 7)];
    // sorted: (1,2) (2,5) (3,7) (0,9); extremes infeasible; buy shift (2,5)->(0,9)
    // infeasible, sell shift (1,2)->(3,7) feasible.
    assert_eq!(find_best_buy_and_sell_algo1(&s), (1, 3, 5));
}

#[test]
fn sort_repair_both_shifts_tie_goes_to_buy_shift() {
    let sorted = vec![(2, 0), (0, 1), (3, 9), (1, 10)];
    // extremes ts 2 vs 1: infeasible. buy shift ts 0 < 1: gain 9. sell shift ts 2 < 3: gain 9.
    assert_eq!(search_sorted_by_value(&sorted), (0, 1, 9));
}

#[test]
fn sort_repair_both_shifts_larger_gain_wins() {
    let sorted = vec![(2, 0), (0, 3), (3, 9), (1, 10)];
    // buy shift gain 7, sell shift gain 9.
    assert_eq!(search_sorted_by_value(&sorted), (2, 3, 9));
}

#[test]
fn sort_repair_shrinks_window_to_feasible_extremes() {
    let sorted = vec![(3, 0), (1, 2), (2, 8), (0, 10)];
    // window [0,3]: 3<0 no; buy shift 1<0 no; sell shift 3<2 no -> shrink to
    // [1,2]: 1<2 yes.
    assert_eq!(search_sorted_by_value(&sorted), (1, 2, 6));
}

#[test]
fn sort_repair_shrinks_window_then_finds_pair() {
    let sorted = vec![(3, 0), (4, 1), (0, 2), (5, 3), (2, 8), (1, 9)];
    // window [0,5]: 3<1 no; 4<1 no; 3<2 no -> shrink to [1,4]: 4<2 no;
    // buy shift 0<2 yes (gain 6); sell shift 4<5 yes (gain 2) -> buy shift.
    assert_eq!(search_sorted_by_value(&sorted), (0, 2, 6));
}

#[test]
fn sort_repair_exhausted_window_gives_zero_trade() {
    let s = series(&[5, 1]);
    assert_eq!(find_best_buy_and_sell_algo1(&s), (0, 0, 0));
    let s = series(&[10, 8, 6, 4]);
    assert_eq!(find_best_buy_and_sell_algo1(&s), (0, 0, 0));
}
