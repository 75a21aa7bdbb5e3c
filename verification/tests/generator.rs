use platformer_core::gaps::{elevated_mask, GapRules};
use platformer_core::rng::coin_flips;
use platformer_core::tiles::{
    background_layer, build_map, default_gap_rules, elevated_layer, generate_map, ground_layer,
    step_count, TileKind,
};

fn rules(min_gaps: u64, max_gaps: u64, min_tiles: u64) -> GapRules {
    GapRules {
        min_consecutive_gaps: min_gaps,
        max_consecutive_gaps: max_gaps,
        min_consecutive_tiles: min_tiles,
    }
}

#[test]
fn ground_layer_spans_the_strip() {
    let ground = ground_layer(1000, 10);
    assert_eq!(ground.len(), 100);
    assert_eq!(ground[0].x, -1000);
    assert_eq!(ground[99].x, 980);
    for (i, t) in ground.iter().enumerate() {
        assert_eq!(t.x, -1000 + 20 * i as i64);
        assert_eq!(t.y, -200);
        assert_eq!(t.z, 1);
        assert!(t.collidable);
        assert_eq!(t.kind, TileKind::Ground);
        if i > 0 {
            assert_eq!(t.x - ground[i - 1].x, 20);
        }
    }
}

#[test]
fn step_count_truncates() {
    assert_eq!(step_count(1000, 10), 100);
    assert_eq!(step_count(105, 10), 10);
    assert_eq!(step_count(9, 10), 0);
    assert_eq!(step_count(0, 10), 0);
    assert_eq!(step_count(1000, 0), 0);
}

#[test]
fn degenerate_configurations_yield_empty_maps() {
    assert!(generate_map(0, 10, 7).is_empty());
    assert!(generate_map(1000, 0, 7).is_empty());
}

#[test]
fn background_layer_stacks_downward() {
    let bg = background_layer(100, 10);
    assert_eq!(bg.len(), 200);
    for (k, t) in bg.iter().enumerate() {
        let i = (k / 20) as i64;
        let j = (k % 20) as i64;
        assert_eq!(t.x, -100 + 20 * i);
        assert_eq!(t.y, 190 - 20 * j);
        assert_eq!(t.z, -1);
        assert!(!t.collidable);
        assert_eq!(t.kind, TileKind::Background);
    }
}

#[test]
fn mask_follows_hand_computed_pattern_under_default_rules() {
    let coins = vec![true, true, false, true, false];
    let mask = elevated_mask(&coins, default_gap_rules());
    assert_eq!(mask, vec![false, false, false, true, false]);
}

#[test]
fn gap_run_reaches_minimum_when_tile_minimum_is_zero() {
    let coins = vec![true, false, false, false];
    let mask = elevated_mask(&coins, rules(2, 3, 0));
    assert_eq!(mask, vec![true, true, false, false]);
}

#[test]
fn gap_runs_are_capped_at_the_maximum() {
    let coins = vec![true; 6];
    let mask = elevated_mask(&coins, rules(2, 3, 0));
    assert_eq!(mask, vec![true, true, true, false, true, true]);
    let longest = mask
        .split(|e| !*e)
        .map(|run| run.len())
        .max()
        .unwrap_or(0);
    assert!(longest <= 3);
}

#[test]
fn default_rules_isolate_every_gap() {
    let coins = vec![true; 12];
    let mask = elevated_mask(&coins, default_gap_rules());
    assert_eq!(
        mask,
        vec![
            false, false, true, false, false, true, false, false, true, false, false, true
        ]
    );
    for k in 0..mask.len() - 1 {
        if mask[k] {
            assert!(!mask[k + 1]);
        }
    }
}

#[test]
fn a_gap_only_opens_after_enough_solid_tiles() {
    for seed in 0..20u64 {
        let coins = coin_flips(seed, 200);
        let mask = elevated_mask(&coins, default_gap_rules());
        let mut solid_run = 0u64;
        for &empty in mask.iter() {
            if empty {
                assert!(solid_run >= 2);
                solid_run = 0;
            } else {
                solid_run += 1;
            }
        }
    }
}

#[test]
fn identical_seeds_give_identical_maps() {
    let a = generate_map(1000, 10, 12345);
    let b = generate_map(1000, 10, 12345);
    assert_eq!(a, b);
    let fa = coin_flips(9, 64);
    let fb = coin_flips(9, 64);
    assert_eq!(fa, fb);
}

#[test]
fn build_map_lays_the_layers_out_in_order() {
    let coins = vec![true, true, false, true, false, true];
    let map = build_map(60, 10, &coins);
    // mask under the default rules: solid, solid, solid, gap, solid, solid
    assert_eq!(map.len(), 6 + 120 + 5);
    for i in 0..6 {
        assert_eq!(map[i].x, -60 + 20 * i as i64);
        assert_eq!(map[i].y, -200);
        assert!(map[i].collidable);
    }
    for k in 6..126 {
        assert_eq!(map[k].kind, TileKind::Background);
        assert!(!map[k].collidable);
    }
    let elevated: Vec<i64> = map[126..].iter().map(|t| t.x).collect();
    assert_eq!(elevated, vec![-60, -40, -20, 20, 40]);
    for t in &map[126..] {
        assert_eq!(t.y, -120);
        assert!(t.collidable);
        assert_eq!(t.kind, TileKind::Ground);
    }
}

#[test]
fn elevated_layer_sits_four_spacings_above_the_ground() {
    let mask = vec![false, true, false];
    let elev = elevated_layer(30, 10, &mask);
    assert_eq!(elev.len(), 2);
    assert_eq!(elev[0].x, -30);
    assert_eq!(elev[1].x, 10);
    for t in &elev {
        assert_eq!(t.y, -200 + 80);
    }
}

#[test]
fn golden_gap_columns_for_a_fixed_seed() {
    let coins = coin_flips(42, 100);
    let mask = elevated_mask(&coins, default_gap_rules());
    let gaps: Vec<usize> = mask
        .iter()
        .enumerate()
        .filter(|(_, e)| **e)
        .map(|(k, _)| k)
        .collect();
    let expected: Vec<usize> = vec![
        3, 6, 10, 13, 16, 20, 23, 26, 29, 32, 35, 38, 41, 44, 53, 56, 59, 63, 67, 70, 73, 76, 81,
        84, 88, 94, 97,
    ];
    assert_eq!(gaps, expected);
    let map = generate_map(1000, 10, 42);
    assert_eq!(map.len(), 100 + 2000 + (100 - gaps.len()));
}
