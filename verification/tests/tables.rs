use roguelike::rng::seed_rng;
use roguelike::tables::{from_dungeon_level, pick_weighted, sample_weighted, total_of_weights, Transition};

fn table(entries: &[(u32, u32)]) -> Vec<Transition> {
    let mut t = Vec::new();
    for &(level, value) in entries {
        t.push(Transition { level, value });
    }
    t
}

#[test]
fn depth_scaled_thresholds() {
    // A table with thresholds at depths 3, 5, and 7 steps up monotonically.
    let t = table(&[(3, 15), (5, 30), (7, 60)]);
    assert_eq!(from_dungeon_level(&t, 1), 0);
    assert_eq!(from_dungeon_level(&t, 4), 15);
    assert_eq!(from_dungeon_level(&t, 6), 30);
    assert_eq!(from_dungeon_level(&t, 10), 60);
}

#[test]
fn threshold_boundaries() {
    let t = table(&[(3, 15), (5, 30), (7, 60)]);
    assert_eq!(from_dungeon_level(&t, 2), 0);
    assert_eq!(from_dungeon_level(&t, 3), 15);
    assert_eq!(from_dungeon_level(&t, 5), 30);
    assert_eq!(from_dungeon_level(&t, 7), 60);
    assert_eq!(from_dungeon_level(&t, u32::MAX), 60);
}

#[test]
fn empty_table_returns_default() {
    let t = table(&[]);
    assert_eq!(from_dungeon_level(&t, 1), 0);
    assert_eq!(from_dungeon_level(&t, 100), 0);
}

#[test]
fn pick_weighted_intervals() {
    let weights = vec![80u32, 20u32];
    assert_eq!(total_of_weights(&weights), 100);
    assert_eq!(pick_weighted(&weights, 0), 0);
    assert_eq!(pick_weighted(&weights, 79), 0);
    assert_eq!(pick_weighted(&weights, 80), 1);
    assert_eq!(pick_weighted(&weights, 99), 1);
}

#[test]
fn zero_weight_never_picked() {
    let weights = vec![0u32, 5u32, 0u32];
    for roll in 0..5u64 {
        assert_eq!(pick_weighted(&weights, roll), 1);
    }
}

#[test]
fn weighted_sampler_distribution() {
    // Sampling many times from weights {A: 80, B: 20} lands close to 80%.
    let weights = vec![80u32, 20u32];
    let mut rng = seed_rng(20240601);
    let total = 100000u32;
    let mut a_count = 0u32;
    for _ in 0..total {
        if sample_weighted(&weights, &mut rng) == 0 {
            a_count += 1;
        }
    }
    let share = a_count as f64 / total as f64;
    assert!(share > 0.78 && share < 0.82, "observed share {}", share);
}
