use ffxii_tza_rng::character::Character;
use ffxii_tza_rng::rng_helper::RNGHelper;
use ffxii_tza_rng::spell::Spell;

#[test]
fn find_seed() {
    let character = Character::default();
    let values: Vec<i32> = vec![2255, 2063, 2029, 2211, 2195];
    let rng_helper =
        RNGHelper::find_seed(&character, &values, 6_000_000, 6_500_000, 1_000).unwrap();
    assert_eq!(rng_helper.rng.seed, 6_357_987);
}

#[test]
fn try_seed_returns_the_matching_window() {
    let character = Character::default();
    let values: Vec<i32> = vec![2255, 2063, 2029, 2211, 2195];
    let helper = RNGHelper::try_seed(&character, &values, 6_357_987, 1_000).unwrap();
    assert_eq!(helper.rng.seed, 6_357_987);
    let heals: Vec<i32> = helper.values.iter().map(|v| v.spell).collect();
    assert_eq!(heals, values);
    let positions: Vec<u32> = helper.values.iter().map(|v| v.position).collect();
    assert_eq!(positions, vec![3, 4, 5, 6, 7]);
    assert_eq!(helper.rng.position, 7);
    for v in helper.values.iter() {
        assert_eq!(v.chest as u32, v.value % 100);
        assert_eq!(v.spell, character.cast(v.value));
    }
    // one slide is not enough for this seed, two are
    assert!(RNGHelper::try_seed(&character, &values, 6_357_987, 1).is_none());
    assert!(RNGHelper::try_seed(&character, &values, 6_357_987, 2).is_some());
    assert!(RNGHelper::try_seed(&character, &values, 6_357_986, 1_000).is_none());
}

#[test]
fn search_recovers_the_generating_seed() {
    for (seed, character) in [
        (1_234u32, Character::default()),
        (1_300, Character::new(45, 60, Spell::Curaga, false)),
        (1_007, Character::new(99, 99, Spell::Curaja, true)),
    ] {
        let mut source = RNGHelper::new(Some(seed), &character, 6);
        source.next(&character);
        let target: Vec<i32> = source.values.iter().map(|v| v.spell).collect();
        assert_eq!(target.len(), 6);
        let found = RNGHelper::find_seed(&character, &target, 1_000, 1_400, 50).unwrap();
        assert!(found.rng.seed <= seed);
        assert!(found.rng.seed >= 1_000);
        let heals: Vec<i32> = found.values.iter().map(|v| v.spell).collect();
        assert_eq!(heals, target);
        // six heals in a row single the seed out in so small a range
        assert_eq!(found.rng.seed, seed);
        assert_eq!(found.rng.position, 7);
        assert_eq!(found.values, source.values);
    }
}

#[test]
fn search_reports_the_least_seed() {
    let character = Character::default();
    let mut source = RNGHelper::new(Some(40), &character, 1);
    source.next(&character);
    let target: Vec<i32> = vec![source.values[0].spell];
    let found = RNGHelper::find_seed(&character, &target, 0, 41, 1_000).unwrap();
    let least = found.rng.seed;
    assert!(least <= 40);
    for seed in 0..least {
        assert!(RNGHelper::try_seed(&character, &target, seed, 1_000).is_none());
    }
    assert!(RNGHelper::try_seed(&character, &target, least, 1_000).is_some());
    assert_eq!(found.values.len(), 1);
    assert_eq!(found.values[0].spell, target[0]);
}

#[test]
fn search_without_a_match_finds_nothing() {
    let character = Character::default();
    // no heal is negative
    let target: Vec<i32> = vec![-5, 2063];
    assert!(RNGHelper::find_seed(&character, &target, 10, 60, 100).is_none());
}

#[test]
fn search_over_an_empty_range_finds_nothing() {
    let character = Character::default();
    let target: Vec<i32> = vec![];
    assert!(RNGHelper::find_seed(&character, &target, 10, 10, 100).is_none());
    assert!(RNGHelper::find_seed(&character, &target, 11, 10, 100).is_none());
}

#[test]
fn search_with_no_slides_allowed_finds_nothing() {
    let character = Character::default();
    let target: Vec<i32> = vec![];
    assert!(RNGHelper::find_seed(&character, &target, 10, 20, 0).is_none());
}

#[test]
fn empty_target_matches_the_first_seed() {
    let character = Character::default();
    let target: Vec<i32> = vec![];
    let found = RNGHelper::find_seed(&character, &target, 123, 456, 1_000).unwrap();
    assert_eq!(found.rng.seed, 123);
    assert_eq!(found.rng.position, 1);
    assert_eq!(found.values.len(), 1);
    assert_eq!(found.values[0].position, 1);
}

#[test]
fn initial_fill_is_not_compared() {
    let character = Character::default();
    let source = RNGHelper::new(Some(4537), &character, 5);
    let target: Vec<i32> = source.values.iter().map(|v| v.spell).collect();
    assert_eq!(target, vec![2259, 2213, 2044, 2219, 2197]);
    assert!(RNGHelper::try_seed(&character, &target, 4537, 200).is_none());
}

#[test]
fn target_longer_than_the_cap_still_runs_to_the_cap() {
    let character = Character::default();
    let target: Vec<i32> = vec![-1; 20];
    assert!(RNGHelper::find_seed(&character, &target, 1, 4, 3).is_none());
}
