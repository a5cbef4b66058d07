use ear_trainer::{choose_biased, pick_index, select, ScaleSet, Session, Stats, WEIGHT_UNIT};
use rand::rngs::StdRng;
use rand::SeedableRng;

#[test]
fn pick_index_walks_cumulative_weights() {
    let w = [3u64, 5, 2];
    let expected = [0usize, 0, 0, 1, 1, 1, 1, 1, 2, 2];
    for (draw, want) in expected.iter().enumerate() {
        assert_eq!(pick_index(&w, draw as u64), *want);
    }
}

#[test]
fn pick_index_single_weight() {
    assert_eq!(pick_index(&[7], 0), 0);
    assert_eq!(pick_index(&[7], 6), 0);
}

#[test]
fn equal_weights_split_evenly() {
    let mut rng = StdRng::seed_from_u64(7);
    let items = ['a', 'b'];
    let weights = [WEIGHT_UNIT, WEIGHT_UNIT];
    let n = 100_000;
    let mut first = 0u32;
    for _ in 0..n {
        let (i, item) = choose_biased(&mut rng, &items, &weights);
        assert!(i < 2);
        assert_eq!(*item, items[i]);
        if i == 0 {
            first += 1;
        }
    }
    let freq = first as f64 / n as f64;
    assert!((freq - 0.5).abs() < 0.01, "frequency {freq}");
}

#[test]
fn tiny_weight_is_rare_but_reachable() {
    let mut rng = StdRng::seed_from_u64(11);
    let items = [0, 1];
    let weights = [10_000u64, 1];
    let n = 100_000;
    let mut first = 0u32;
    for _ in 0..n {
        let (i, _) = choose_biased(&mut rng, &items, &weights);
        assert!(i < 2);
        if i == 0 {
            first += 1;
        }
    }
    assert!(first as f64 / n as f64 > 0.99);
    assert!(first < n);
}

#[test]
fn select_stays_in_bounds_and_keeps_stats() {
    let mut rng = StdRng::seed_from_u64(3);
    let scale = ScaleSet::from_mask(0b1010_1101_0101);
    let mut stats = Stats::new(scale.len());
    stats.win(0);
    stats.lose(5);
    for _ in 0..1000 {
        let (i, note) = select(&mut rng, &scale, &stats);
        assert!(i < scale.len());
        assert_eq!(note, scale.note(i));
    }
    assert_eq!(stats.get(0).wins, 1);
    assert_eq!(stats.get(5).losses, 1);
    assert_eq!(stats.get(3).wins + stats.get(3).losses, 0);
}

#[test]
fn weak_note_is_chosen_more_often() {
    let mut rng = StdRng::seed_from_u64(5);
    let scale = ScaleSet::from_mask(0b1000_0000_0000);
    let mut stats = Stats::new(scale.len());
    for _ in 0..10 {
        stats.win(0);
        stats.lose(1);
    }
    let mut weak = 0u32;
    let n = 20_000;
    for _ in 0..n {
        if select(&mut rng, &scale, &stats).0 == 1 {
            weak += 1;
        }
    }
    // weights 1/4 and 5/4: the weak note should come up about 5/6 of the time
    let freq = weak as f64 / n as f64;
    assert!((freq - 5.0 / 6.0).abs() < 0.02, "frequency {freq}");
}

#[test]
fn session_next_note_is_in_scale() {
    let mut rng = StdRng::seed_from_u64(9);
    let session = Session::new(0b1010_1101_0101);
    for _ in 0..200 {
        let (i, note) = session.next_note(&mut rng);
        assert_eq!(session.scale().note(i), note);
    }
}
