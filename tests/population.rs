use neurobots::population::{retain_flagged, shortfall, survives, take_first_reachable};

#[test]
fn take_first_reachable_swaps_in_last() {
    let mut foods = vec![10, 20, 30, 40];
    let eaten = take_first_reachable(&mut foods, &vec![false, true, true, false]);
    assert_eq!(eaten, Some(20));
    assert_eq!(foods, vec![10, 40, 30]);
}

#[test]
fn take_first_reachable_last_slot() {
    let mut foods = vec![1, 2, 3];
    let eaten = take_first_reachable(&mut foods, &vec![false, false, true]);
    assert_eq!(eaten, Some(3));
    assert_eq!(foods, vec![1, 2]);
}

#[test]
fn take_first_reachable_none_in_reach() {
    let mut foods = vec![1, 2, 3];
    assert_eq!(take_first_reachable(&mut foods, &vec![false, false, false]), None);
    assert_eq!(foods, vec![1, 2, 3]);
    let mut empty: Vec<u32> = Vec::new();
    assert_eq!(take_first_reachable(&mut empty, &Vec::new()), None);
}

#[test]
fn retain_flagged_keeps_order() {
    let mut bots = vec!['a', 'b', 'c', 'd', 'e'];
    retain_flagged(&mut bots, &vec![true, false, true, false, true]);
    assert_eq!(bots, vec!['a', 'c', 'e']);
}

#[test]
fn retain_flagged_all_and_none() {
    let mut all = vec![1, 2, 3];
    retain_flagged(&mut all, &vec![true, true, true]);
    assert_eq!(all, vec![1, 2, 3]);
    let mut none = vec![1, 2, 3];
    retain_flagged(&mut none, &vec![false, false, false]);
    assert!(none.is_empty());
}

#[test]
fn survives_needs_field_and_energy() {
    assert!(survives(true, 1000));
    assert!(survives(true, 1));
    assert!(!survives(true, 0));
    assert!(!survives(false, 1000));
}

#[test]
fn shortfall_values() {
    assert_eq!(shortfall(37, 40), 3);
    assert_eq!(shortfall(0, 40), 40);
    assert_eq!(shortfall(40, 40), 0);
    assert_eq!(shortfall(45, 40), 0);
}

#[test]
fn population_never_below_minimum_after_top_up() {
    let min_count = 4usize;
    let mut bots = vec![100u32, 0, 50, 0, 7];
    let in_field = vec![true, true, false, true, true];
    let keep: Vec<bool> = bots.iter().zip(&in_field).map(|(&e, &f)| survives(f, e)).collect();
    retain_flagged(&mut bots, &keep);
    assert_eq!(bots, vec![100, 7]);
    let spawn = shortfall(bots.len(), min_count);
    for _ in 0..spawn {
        bots.push(1000);
    }
    assert_eq!(bots.len(), min_count);
}

#[test]
fn food_count_restored_after_respawn() {
    let mut foods = vec![300u32, 120, 450, 200, 100];
    let before = foods.len();
    // each bot's view of the current food list, as the reach test gives it
    let reach_by_bot = [
        vec![false, false, true, false, false],
        vec![false, false, false, false],
        vec![true, false, false, true],
    ];
    let mut eaten = 0usize;
    let mut energy = vec![0u32; 3];
    for (bot, reach) in reach_by_bot.iter().enumerate() {
        if let Some(f) = take_first_reachable(&mut foods, reach) {
            energy[bot] += f;
            eaten += 1;
        }
    }
    assert_eq!(eaten, 2);
    assert_eq!(energy, vec![450, 0, 300]);
    assert_eq!(foods.len() + eaten, before);
    for _ in 0..eaten {
        foods.push(250);
    }
    assert_eq!(foods.len(), before);
}
