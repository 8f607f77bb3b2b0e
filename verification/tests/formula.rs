use ffxii_tza_rng::character::{clamp_stat, Character};
use ffxii_tza_rng::rounding::{round_quotient, ONE};
use ffxii_tza_rng::spell::Spell;

const SPELLS: [Spell; 4] = [Spell::Cure, Spell::Cura, Spell::Curaga, Spell::Curaja];

// The formula as the game evaluates it, in double precision.
fn double_precision_heal(c: &Character, raw: u32) -> i32 {
    let power = c.spell.power();
    let bonus = (raw % (power as f64 * 12.5).floor() as u32) as f64 / 100.0;
    let total = power as f64 + bonus;
    let multiplier = (2.0 + c.magic as f64 * (c.level + c.magic) as f64 / 256.0)
        * (if c.serenity { 1.5 } else { 1.0 });
    (total * multiplier) as i32
}

fn agrees_with_double_precision(spell: Spell, level_step: usize) {
    let modulus = (spell.power() as f64 * 12.5).floor() as u32;
    for level in (0..=99u8).step_by(level_step) {
        for magic in 0..=99u8 {
            for serenity in [false, true] {
                let c = Character::new(level, magic, spell, serenity);
                for raw in 0..modulus {
                    assert_eq!(c.cast(raw), double_precision_heal(&c, raw));
                }
            }
        }
    }
}

#[test]
fn cure_agrees_with_double_precision() {
    agrees_with_double_precision(Spell::Cure, 1);
}

#[test]
fn cura_agrees_with_double_precision() {
    agrees_with_double_precision(Spell::Cura, 3);
}

#[test]
fn curaga_agrees_with_double_precision() {
    agrees_with_double_precision(Spell::Curaga, 7);
}

#[test]
fn curaja_agrees_with_double_precision() {
    agrees_with_double_precision(Spell::Curaja, 9);
}

#[test]
fn stats_past_the_game_range_agree_with_double_precision() {
    for (level, magic) in [(100u8, 100u8), (0, 255), (255, 0), (128, 127), (1, 254), (200, 55)] {
        for spell in SPELLS {
            for serenity in [false, true] {
                let c = Character::new(level, magic, spell, serenity);
                for raw in (0..3000u32).chain([0x7fff_ffff, 0xffff_ffff, 0x8000_0001]) {
                    assert_eq!(c.cast(raw), double_precision_heal(&c, raw));
                }
            }
        }
    }
}

#[test]
fn whole_words_agree_with_double_precision() {
    let c = Character::default();
    let mut raw: u32 = 12345;
    for _ in 0..20000 {
        raw = raw.wrapping_mul(1664525).wrapping_add(1013904223);
        assert_eq!(c.cast(raw), double_precision_heal(&c, raw));
    }
}

#[test]
fn heal_exact_values() {
    assert_eq!(Character::new(70, 99, Spell::Cure, true).cast(0), 2020);
    assert_eq!(Character::new(70, 99, Spell::Cure, false).cast(249), 1514);
    assert_eq!(Character::new(99, 99, Spell::Curaja, true).cast(1499), 15909);
    assert_eq!(Character::new(0, 0, Spell::Cura, false).cast(574), 103);
    assert_eq!(Character::new(50, 60, Spell::Curaga, true).cast(1000), 4000);
    // the residue, not the word, decides
    assert_eq!(Character::new(70, 99, Spell::Cure, true).cast(250), 2020);
    assert_eq!(Character::new(70, 99, Spell::Cure, true).cast(1288459236), 2259);
}

#[test]
fn heal_is_cut_off_after_rounding() {
    // In exact arithmetic this heal is 963 to the digit; in double precision
    // the product falls just short of it.
    let c = Character::new(42, 86, Spell::Cure, false);
    assert_eq!(c.cast(140), 962);
    assert_eq!(double_precision_heal(&c, 140), 962);
    let c = Character::new(28, 68, Spell::Cura, true);
    assert_eq!(c.cast(280), 2012);
}

#[test]
fn heal_stays_within_the_bound() {
    let top_multiplier = (2.0 + 99.0 * 198.0 / 256.0) * 1.5;
    for spell in SPELLS {
        let power = spell.power() as f64;
        let modulus = (power * 12.5).floor();
        let bound = ((power * (1.0 + (modulus - 1.0) / 100.0)) * top_multiplier).floor() as i32;
        for level in [0u8, 1, 50, 99] {
            for magic in [0u8, 1, 50, 99] {
                for serenity in [false, true] {
                    let c = Character::new(level, magic, spell, serenity);
                    for raw in 0..(modulus as u32) {
                        let h = c.cast(raw);
                        assert!(h >= 0);
                        assert!(h <= bound);
                        assert_eq!(h, c.cast(raw));
                    }
                }
            }
        }
    }
}

#[test]
fn outcome_table_lists_every_residue() {
    for spell in SPELLS {
        let c = Character::new(70, 99, spell, true);
        let table = c.outcome_table();
        assert_eq!(table.len() as u32, c.bonus_range());
        for (r, h) in table.iter().enumerate() {
            assert_eq!(*h, c.cast(r as u32));
            assert_eq!(*h, c.calculate_heal(r as u32));
        }
    }
}

#[test]
fn bonus_range_per_spell() {
    let ranges: Vec<u32> = SPELLS
        .iter()
        .map(|s| Character::new(1, 1, *s, false).bonus_range())
        .collect();
    assert_eq!(ranges, vec![250, 575, 1075, 1500]);
}

#[test]
fn multiplier_in_512ths() {
    assert_eq!(Character::new(0, 0, Spell::Cure, false).base_multiplier(), 1024);
    assert_eq!(Character::new(0, 0, Spell::Cure, true).base_multiplier(), 1536);
    assert_eq!(Character::new(99, 99, Spell::Cure, true).base_multiplier(), 60342);
    assert_eq!(Character::new(70, 99, Spell::Cure, false).base_multiplier(), (512 + 99 * 169) * 2);
}

#[test]
fn default_character() {
    let c = Character::default();
    assert_eq!(c, Character::new(70, 99, Spell::Cure, true));
    assert_eq!(c.level, 70);
    assert_eq!(c.magic, 99);
    assert_eq!(c.spell, Spell::Cure);
    assert!(c.serenity);
}

#[test]
fn stats_are_clamped_to_99() {
    assert_eq!(clamp_stat(0), 0);
    assert_eq!(clamp_stat(99), 99);
    assert_eq!(clamp_stat(100), 99);
    assert_eq!(clamp_stat(255), 99);
}

#[test]
fn rounding_to_53_bits() {
    // small quotients are whole and exact
    assert_eq!(round_quotient(7, 1), 7);
    assert_eq!(round_quotient(0, 100), 0);
    // halves go to the even neighbour
    assert_eq!(round_quotient(5, 2), 2);
    assert_eq!(round_quotient(7, 2), 4);
    assert_eq!(round_quotient(10, 4), 2);
    assert_eq!(round_quotient(11, 4), 3);
    // 2^53 + 1 has 54 bits: it goes to the even neighbour 2^53
    assert_eq!(round_quotient((1u128 << 53) + 1, 1), 1u128 << 53);
    assert_eq!(round_quotient((1u128 << 53) + 3, 1), (1u128 << 53) + 4);
    // one hundredth, in units of 2^-62
    let hundredth = round_quotient(ONE, 100);
    assert_eq!(hundredth as f64 / ONE as f64, 0.01);
    assert_eq!(hundredth % 8, 0);
    assert_ne!(hundredth, ONE);
}

#[test]
fn heal_is_the_exact_value_cut_off_unless_that_is_whole() {
    for spell in SPELLS {
        let power = spell.power() as u64;
        for (level, magic) in [(0u8, 0u8), (1, 12), (42, 86), (70, 99), (99, 99), (28, 68)] {
            for serenity in [false, true] {
                let c = Character::new(level, magic, spell, serenity);
                let k = c.base_multiplier() as u64;
                for raw in 0..c.bonus_range() {
                    let e = (100 * power + raw as u64) * k;
                    let h = c.cast(raw) as u64;
                    if e % 51200 != 0 {
                        assert_eq!(h, e / 51200);
                    } else {
                        assert!(h == e / 51200 || h + 1 == e / 51200);
                    }
                }
            }
        }
    }
}
