use ear_trainer::{Fraction, Stat, Stats, WEIGHT_UNIT};

fn stat(wins: u32, losses: u32) -> Stat {
    Stat { wins, losses }
}

#[test]
fn fresh_stat_has_rate_zero_and_top_weight() {
    let s = Stat::new();
    assert_eq!(s.total(), 0);
    assert_eq!(s.rate(), Fraction { num: 0, den: 1 });
    assert_eq!(s.weight(), Fraction { num: 5, den: 4 });
    assert_eq!(s.pick_weight(), 5 * WEIGHT_UNIT / 4);
}

#[test]
fn perfect_record_gives_quarter_weight() {
    let s = stat(3, 0);
    assert_eq!(s.rate(), Fraction { num: 3, den: 3 });
    assert_eq!(s.weight(), Fraction { num: 3, den: 12 });
    assert_eq!(s.pick_weight(), WEIGHT_UNIT / 4);
}

#[test]
fn half_rate_gives_three_quarter_weight() {
    let s = stat(1, 1);
    assert_eq!(s.total(), 2);
    assert_eq!(s.weight(), Fraction { num: 6, den: 8 });
    assert_eq!(s.pick_weight(), 786432);
}

#[test]
fn pick_weight_rounds_up() {
    let s = stat(1, 2);
    assert_eq!(s.weight(), Fraction { num: 11, den: 12 });
    assert_eq!(s.pick_weight(), 961195);
}

#[test]
fn weights_stay_in_range_and_fall_with_rate() {
    let mut last = f64::INFINITY;
    for wins in 0..=10u32 {
        let s = stat(wins, 10 - wins);
        let w = s.weight();
        let value = w.num as f64 / w.den as f64;
        assert!(value >= 0.25 && value <= 1.25);
        if wins < 10 {
            assert!(value > 0.25);
        }
        assert!(value < last);
        last = value;
    }
}

#[test]
fn large_counts_do_not_overflow() {
    let s = stat(u32::MAX, u32::MAX);
    assert_eq!(s.total(), 2 * u32::MAX as u64);
    assert_eq!(s.weight(), Fraction { num: 6 * u32::MAX as u64, den: 8 * u32::MAX as u64 });
    assert_eq!(s.pick_weight(), 786432);
}

#[test]
fn win_and_loss_touch_one_note() {
    let mut st = Stats::new(3);
    st.win(1);
    assert_eq!(st.get(1), stat(1, 0));
    st.lose(1);
    assert_eq!(st.get(1), stat(1, 1));
    st.lose(2);
    st.lose(2);
    assert_eq!(st.get(2), stat(0, 2));
    assert_eq!(st.get(0), stat(0, 0));
    assert_eq!(st.len(), 3);
}

#[test]
fn record_outcome_picks_counter() {
    let mut st = Stats::new(2);
    st.record_outcome(0, true);
    st.record_outcome(0, true);
    st.record_outcome(0, false);
    assert_eq!(st.get(0), stat(2, 1));
    assert_eq!(st.get(1), stat(0, 0));
}

#[test]
fn weights_follow_stats() {
    let mut st = Stats::new(3);
    st.win(0);
    st.lose(1);
    assert_eq!(st.weights(), vec![WEIGHT_UNIT / 4, 5 * WEIGHT_UNIT / 4, 5 * WEIGHT_UNIT / 4]);
}

#[test]
fn overall_sums_counters() {
    let mut st = Stats::new(4);
    st.win(0);
    st.win(3);
    st.lose(3);
    st.lose(2);
    st.lose(2);
    assert_eq!(st.overall(), (2, 3));
    assert_eq!(Stats::new(0).overall(), (0, 0));
}
