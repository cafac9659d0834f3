use cogs_gamedev::chance::{PickerError, WeightedPicker};
use rand::rngs::StdRng;
use rand::SeedableRng;

fn loot() -> Vec<(&'static str, u64)> {
    vec![
        ("common", 100),
        ("uncommon", 50),
        ("rare", 20),
        ("legendary", 10),
        ("mythic", 1),
    ]
}

/// Counts, for each slot, the draws that end at it, over every column and
/// every coin below `denominator`.
fn count_draws<T>(picker: &WeightedPicker<T>, n: usize, denominator: u128) -> Vec<u128> {
    let mut counts = vec![0u128; n];
    for column in 0..n {
        for coin in 0..denominator {
            counts[picker.resolve(column, coin)] += 1;
        }
    }
    counts
}

#[test]
fn chance_pick() {
    let picker = WeightedPicker::new(loot()).unwrap();

    let mut rng = rand::thread_rng();
    for _ in 0..10 {
        println!("- {}", picker.get(&mut rng));
    }
}

#[test]
fn mod_pick() {
    let picker = WeightedPicker::new(vec![
        ("common", 100),
        ("uncommon", 50),
        ("rare", 20),
        ("legendary", 10),
        ("mythic", 1),
    ])
    .unwrap();

    let mut rand = rand::thread_rng();
    for _ in 0..10 {
        println!("- {}", picker.get(&mut rand));
    }
}

#[test]
fn new_refuses_the_empty_list() {
    let none: Vec<(u8, u64)> = Vec::new();
    assert!(matches!(WeightedPicker::new(none), Err(PickerError::InvalidInput)));
}

#[test]
fn new_takes_every_list_that_is_not_empty() {
    let lists: Vec<Vec<u64>> = vec![
        vec![1],
        vec![0],
        vec![0, 0, 0],
        vec![1, 3],
        vec![3, 1],
        vec![5, 5, 5, 5],
        vec![100, 50, 20, 10, 1],
        vec![u64::MAX, u64::MAX, 1],
        vec![0, 7, 0, 9],
    ];
    for weights in lists {
        let n = weights.len();
        let entries: Vec<(usize, u64)> = weights.iter().copied().enumerate().collect();
        let picker = WeightedPicker::new(entries).unwrap();
        for column in 0..n {
            for coin in [0u128, 1, 2, 1000, u64::MAX as u128, u128::MAX] {
                assert!(picker.resolve(column, coin) < n);
            }
        }
    }
}

#[test]
fn draws_are_in_proportion_to_the_weights() {
    let picker = WeightedPicker::new(loot()).unwrap();
    let counts = count_draws(&picker, 5, 181);
    assert_eq!(counts, vec![500, 250, 100, 50, 5]);
}

#[test]
fn one_to_three() {
    let picker = WeightedPicker::new(vec![('a', 1), ('b', 3)]).unwrap();
    assert_eq!(count_draws(&picker, 2, 4), vec![2, 6]);
    let picker = WeightedPicker::new(vec![('a', 3), ('b', 1)]).unwrap();
    assert_eq!(count_draws(&picker, 2, 4), vec![6, 2]);
}

#[test]
fn a_weight_of_zero_is_never_drawn() {
    let picker = WeightedPicker::new(vec![('a', 0), ('b', 7), ('c', 0), ('d', 9)]).unwrap();
    assert_eq!(count_draws(&picker, 4, 16), vec![0, 28, 0, 36]);
}

#[test]
fn all_weights_zero_is_uniform() {
    let picker = WeightedPicker::new(vec![('a', 0), ('b', 0), ('c', 0)]).unwrap();
    assert_eq!(count_draws(&picker, 3, 1), vec![1, 1, 1]);
    let mut rng = StdRng::seed_from_u64(5);
    let mut seen = [0u32; 3];
    for _ in 0..3000 {
        seen[picker.get_idx(&mut rng)] += 1;
    }
    for count in seen {
        assert!(count > 800 && count < 1200);
    }
}

#[test]
fn equal_weights_are_uniform() {
    for n in 1..12usize {
        let entries: Vec<(usize, u64)> = (0..n).map(|i| (i, 6)).collect();
        let picker = WeightedPicker::new(entries).unwrap();
        let counts = count_draws(&picker, n, 6 * n as u128);
        assert_eq!(counts, vec![6 * n as u128; n]);
    }
}

#[test]
fn equal_weights_pass_a_chi_squared_test() {
    let n = 8usize;
    let draws = 80_000u32;
    let entries: Vec<(usize, u64)> = (0..n).map(|i| (i, 3)).collect();
    let picker = WeightedPicker::new(entries).unwrap();
    let mut rng = StdRng::seed_from_u64(2024);
    let mut seen = vec![0u32; n];
    for _ in 0..draws {
        seen[picker.get_idx(&mut rng)] += 1;
    }
    let expected = draws as f64 / n as f64;
    let chi2: f64 = seen
        .iter()
        .map(|&count| {
            let d = count as f64 - expected;
            d * d / expected
        })
        .sum();
    // the 99.9th percentile of chi squared with 7 degrees of freedom
    assert!(chi2 < 24.32, "chi squared was {}", chi2);
}

#[test]
fn sampled_frequencies_follow_the_weights() {
    let picker = WeightedPicker::new(loot()).unwrap();
    let mut rng = StdRng::seed_from_u64(7);
    let draws = 1_000_000u32;
    let mut seen = [0u32; 5];
    for _ in 0..draws {
        seen[picker.get_idx(&mut rng)] += 1;
    }
    let weights = [100.0f64, 50.0, 20.0, 10.0, 1.0];
    let total: f64 = weights.iter().sum();
    for i in 0..5 {
        let observed = seen[i] as f64 / draws as f64;
        let expected = weights[i] / total;
        assert!(
            (observed - expected).abs() < 0.01,
            "slot {}: observed {}, expected {}",
            i,
            observed,
            expected
        );
    }
    assert!(seen[4] > 0);
}

#[test]
fn a_single_entry_is_always_drawn() {
    let picker = WeightedPicker::new(vec![("only", 1)]).unwrap();
    let mut rng = StdRng::seed_from_u64(11);
    for _ in 0..1000 {
        assert_eq!(*picker.get(&mut rng), "only");
        assert_eq!(picker.get_idx(&mut rng), 0);
    }
    for coin in 0..5u128 {
        assert_eq!(picker.resolve(0, coin), 0);
    }
}

#[test]
fn get_idx_stays_in_range() {
    let picker = WeightedPicker::new(vec![('a', 2), ('b', 1), ('c', 4)]).unwrap();
    let mut rng = StdRng::seed_from_u64(3);
    let mut seen = [false; 3];
    for _ in 0..2000 {
        let idx = picker.get_idx(&mut rng);
        assert!(idx < 3);
        seen[idx] = true;
    }
    assert_eq!(seen, [true, true, true]);
}

#[test]
fn get_by_idx_reads_the_slots_in_order() {
    let picker = WeightedPicker::new(loot()).unwrap();
    assert_eq!(picker.get_by_idx(0), Some(&"common"));
    assert_eq!(picker.get_by_idx(1), Some(&"uncommon"));
    assert_eq!(picker.get_by_idx(2), Some(&"rare"));
    assert_eq!(picker.get_by_idx(3), Some(&"legendary"));
    assert_eq!(picker.get_by_idx(4), Some(&"mythic"));
}

#[test]
fn out_of_range_slots_are_absent() {
    let mut picker = WeightedPicker::new(loot()).unwrap();
    assert_eq!(picker.get_by_idx(5), None);
    assert_eq!(picker.get_by_idx(usize::MAX), None);
    assert!(picker.get_mut_by_idx(5).is_none());
    assert!(picker.get_mut_by_idx(usize::MAX).is_none());
}

#[test]
fn changing_an_item_keeps_the_table() {
    let mut picker = WeightedPicker::new(loot()).unwrap();
    let before = count_draws(&picker, 5, 181);
    *picker.get_mut_by_idx(2).unwrap() = "epic";
    assert_eq!(picker.get_by_idx(2), Some(&"epic"));
    assert_eq!(picker.get_by_idx(1), Some(&"uncommon"));
    assert_eq!(picker.get_by_idx(3), Some(&"legendary"));
    assert_eq!(count_draws(&picker, 5, 181), before);

    let mut a = StdRng::seed_from_u64(99);
    let mut b = StdRng::seed_from_u64(99);
    let untouched = WeightedPicker::new(loot()).unwrap();
    for _ in 0..500 {
        assert_eq!(picker.get_idx(&mut a), untouched.get_idx(&mut b));
    }
}

#[test]
fn pick_draws_as_a_picker_does() {
    for seed in 0..200u64 {
        let mut a = StdRng::seed_from_u64(seed);
        let mut b = StdRng::seed_from_u64(seed);
        let picked = WeightedPicker::pick(loot(), &mut a).unwrap();
        let picker = WeightedPicker::new(loot()).unwrap();
        assert_eq!(picked, *picker.get(&mut b));
    }
}

#[test]
fn pick_refuses_the_empty_list() {
    let none: Vec<(u8, u64)> = Vec::new();
    let mut rng = StdRng::seed_from_u64(1);
    assert_eq!(WeightedPicker::pick(none, &mut rng), Err(PickerError::InvalidInput));
}

#[test]
fn a_clone_draws_alike() {
    let picker = WeightedPicker::new(loot()).unwrap();
    let copy = picker.clone();
    assert_eq!(count_draws(&copy, 5, 181), count_draws(&picker, 5, 181));
    for i in 0..5 {
        assert_eq!(copy.get_by_idx(i), picker.get_by_idx(i));
    }
}

#[test]
fn large_weights_do_not_overflow() {
    let picker = WeightedPicker::new(vec![('a', u64::MAX), ('b', u64::MAX), ('c', 0)]).unwrap();
    let mut rng = StdRng::seed_from_u64(17);
    let mut seen = [0u32; 3];
    for _ in 0..4000 {
        seen[picker.get_idx(&mut rng)] += 1;
    }
    assert_eq!(seen[2], 0);
    assert!(seen[0] > 1700 && seen[1] > 1700);
}
