use ffxii_tza_rng::character::Character;
use ffxii_tza_rng::rng::RNG;
use ffxii_tza_rng::rng_helper::{RNGHelper, ValueLens};
use ffxii_tza_rng::spell::Spell;

#[test]
fn new_fills_the_window() {
    let c = Character::default();
    let helper = RNGHelper::new(None, &c, 6);
    assert_eq!(helper.rng.seed, 4537);
    assert_eq!(helper.rng.position, 6);
    let raws: Vec<u32> = helper.values.iter().map(|v| v.value).collect();
    assert_eq!(
        raws,
        vec![1288459236, 2139177191, 74803024, 3048110697, 1213569425, raws[5]]
    );
    let heals: Vec<i32> = helper.values.iter().map(|v| v.spell).collect();
    assert_eq!(heals, vec![2259, 2213, 2044, 2219, 2197, 2031]);
    let chests: Vec<u8> = helper.values.iter().map(|v| v.chest).collect();
    assert_eq!(chests, vec![36, 91, 24, 97, 25, 61]);
    let positions: Vec<u32> = helper.values.iter().map(|v| v.position).collect();
    assert_eq!(positions, vec![1, 2, 3, 4, 5, 6]);
    assert_eq!(
        helper.values[0],
        ValueLens { position: 1, value: 1288459236, spell: 2259, chest: 36 }
    );
}

#[test]
fn new_with_a_seed_and_no_draws() {
    let c = Character::default();
    let helper = RNGHelper::new(Some(77), &c, 0);
    assert_eq!(helper.rng.seed, 77);
    assert_eq!(helper.rng.position, 0);
    assert!(helper.values.is_empty());
}

#[test]
fn default_helper() {
    let helper = RNGHelper::default();
    assert_eq!(helper.rng.seed, RNG::DEFAULT_SEED);
    assert_eq!(helper.values.len(), 500);
    assert_eq!(helper.rng.position, 500);
    assert_eq!(helper.values[0].spell, 2259);
    assert_eq!(helper.values[499].position, 500);
}

#[test]
fn push_appends_one_record() {
    let c = Character::new(10, 20, Spell::Cura, false);
    let mut helper = RNGHelper::new(Some(9), &c, 3);
    let mut rng = RNG::from(9);
    let raws: Vec<u32> = (0..4).map(|_| rng.gen_rand()).collect();
    helper.push(&c);
    assert_eq!(helper.values.len(), 4);
    assert_eq!(helper.rng.position, 4);
    for (i, v) in helper.values.iter().enumerate() {
        assert_eq!(v.position, i as u32 + 1);
        assert_eq!(v.value, raws[i]);
        assert_eq!(v.spell, c.cast(raws[i]));
        assert_eq!(v.chest as u32, raws[i] % 100);
    }
}

#[test]
fn advance_keeps_length_and_shifts_positions() {
    let c = Character::default();
    let mut helper = RNGHelper::new(Some(2024), &c, 7);
    let first = helper.values[0].position;
    let mut rng = RNG::from(2024);
    let raws: Vec<u32> = (0..700).map(|_| rng.gen_rand()).collect();
    for n in 1..=650u32 {
        helper.next(&c);
        assert_eq!(helper.values.len(), 7);
        assert_eq!(helper.values[0].position, first + n);
        assert_eq!(helper.rng.position, 7 + n);
        for (j, v) in helper.values.iter().enumerate() {
            assert_eq!(v.position, first + n + j as u32);
            assert_eq!(v.value, raws[(n as usize) + j]);
        }
    }
}

#[test]
fn advance_on_an_empty_window_appends() {
    let c = Character::default();
    let mut helper = RNGHelper::new(Some(5), &c, 0);
    helper.next(&c);
    assert_eq!(helper.values.len(), 1);
    assert_eq!(helper.values[0].position, 1);
    assert_eq!(helper.rng.position, 1);
    helper.next(&c);
    assert_eq!(helper.values.len(), 1);
    assert_eq!(helper.values[0].position, 2);
}

#[test]
fn apply_character_recomputes_heals_only() {
    let before = Character::default();
    let after = Character::new(33, 44, Spell::Curaga, false);
    let mut helper = RNGHelper::new(Some(31337), &before, 40);
    let old: Vec<ValueLens> = helper.values.clone();
    helper.apply_character(&after);
    assert_eq!(helper.rng.position, 40);
    assert_eq!(helper.values.len(), 40);
    let mut changed = false;
    for (v, o) in helper.values.iter().zip(old.iter()) {
        assert_eq!(v.position, o.position);
        assert_eq!(v.value, o.value);
        assert_eq!(v.chest, o.chest);
        assert_eq!(v.spell, after.cast(v.value));
        assert_eq!(o.spell, before.cast(o.value));
        changed = changed || v.spell != o.spell;
    }
    assert!(changed);
    // the generator was not consumed
    let mut fresh = RNGHelper::new(Some(31337), &after, 40);
    helper.next(&after);
    fresh.next(&after);
    assert_eq!(helper.values, fresh.values);
}

#[test]
fn match_prefix_compares_as_far_as_both_reach() {
    let c = Character::default();
    let helper = RNGHelper::new(None, &c, 3);
    assert!(helper.match_prefix(&vec![]));
    assert!(helper.match_prefix(&vec![2259]));
    assert!(helper.match_prefix(&vec![2259, 2213, 2044]));
    assert!(!helper.match_prefix(&vec![2259, 2213, 2045]));
    assert!(!helper.match_prefix(&vec![2213]));
    // a target longer than the window is compared over the window only
    assert!(helper.match_prefix(&vec![2259, 2213, 2044, 1, 2]));
    assert!(!helper.match_prefix(&vec![2259, 0, 2044, 2219]));
    let empty = RNGHelper::new(None, &c, 0);
    assert!(empty.match_prefix(&vec![1, 2, 3]));
}

#[test]
fn find_casts_stops_at_the_first_match() {
    let c = Character::default();
    let mut helper = RNGHelper::new(None, &c, 3);
    // draws 4..6 of the default seed
    assert!(helper.find_casts(&c, &vec![2219, 2197, 2031], Some(10)));
    assert_eq!(helper.rng.position, 6);
    let positions: Vec<u32> = helper.values.iter().map(|v| v.position).collect();
    assert_eq!(positions, vec![4, 5, 6]);
    let heals: Vec<i32> = helper.values.iter().map(|v| v.spell).collect();
    assert_eq!(heals, vec![2219, 2197, 2031]);
}

#[test]
fn find_casts_slides_before_it_compares() {
    let c = Character::default();
    let mut helper = RNGHelper::new(None, &c, 3);
    // the window shows this target as it stands, but is slid on first
    assert!(!helper.find_casts(&c, &vec![2259, 2213, 2044], Some(50)));
    assert_eq!(helper.rng.position, 53);
    assert_eq!(helper.values.len(), 3);
    assert_eq!(helper.values[0].position, 51);
}

#[test]
fn find_casts_with_no_slides_allowed() {
    let c = Character::default();
    let mut helper = RNGHelper::new(None, &c, 3);
    assert!(!helper.find_casts(&c, &vec![], Some(0)));
    assert_eq!(helper.rng.position, 3);
    assert!(helper.find_casts(&c, &vec![], Some(5)));
    assert_eq!(helper.rng.position, 4);
}

#[test]
fn find_casts_without_a_limit_gives_up_after_100000_slides() {
    let c = Character::default();
    let mut helper = RNGHelper::new(None, &c, 2);
    assert_eq!(RNGHelper::LIMIT, 100_000);
    // no heal is negative
    assert!(!helper.find_casts(&c, &vec![-1], None));
    assert_eq!(helper.rng.position, 100_002);
    assert_eq!(helper.values.len(), 2);
    assert_eq!(helper.values[1].position, 100_002);
}
