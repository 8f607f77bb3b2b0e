//! The casting character and the heal formula.
//!
//! The formula is `(power + bonus) * multiplier`, cut off to a whole number,
//! where `bonus` is a hundredth of the raw word's residue and `multiplier`
//! is `2 + magic * (level + magic) / 256`, half as much again under
//! serenity. It is evaluated in double precision: the division by a hundred,
//! the sum and the product are each rounded. The multiplier itself is a
//! whole number of 512ths and needs no rounding.

use vstd::prelude::*;
use crate::rounding::{
    lemma_round_to_grid_near, lemma_round_to_grid_nearest, lemma_spacing, round_quotient,
    round_to_grid, spacing, ONE,
};
use crate::spell::Spell;

verus! {

/// The character who casts.
#[derive(Debug, Copy, Clone, PartialEq, Eq, Structural)]
pub struct Character {
    pub level: u8,
    pub magic: u8,
    pub spell: Spell,
    pub serenity: bool,
}

/// The highest level and magic stat of the game.
pub const STAT_MAX: u8 = 99;

/// The modulus that cuts a raw word down to a bonus: twelve and a half
/// times the spell's power, cut off to a whole number.
pub open spec fn bonus_modulus(power: nat) -> nat {
    power * 25 / 2
}

/// The multiplier, in 512ths.
pub open spec fn multiplier_512(level: nat, magic: nat, serenity: bool) -> nat {
    (512 + magic * (level + magic)) * (if serenity { 3nat } else { 2nat })
}

/// The heal of a spell of the given power, under a multiplier of `k` 512ths,
/// for a raw word that leaves `residue`. Numbers are held in units of
/// 2^-62, so that `0x4000_0000_0000_0000` is the number one.
pub open spec fn heal(power: nat, k: nat, residue: nat) -> nat {
    let bonus = round_to_grid(residue * 0x4000_0000_0000_0000, 100);
    let total = round_to_grid(power * 0x4000_0000_0000_0000 + bonus, 1);
    round_to_grid(total * k, 512) / 0x4000_0000_0000_0000
}

/// A bound on the heal of a spell of the given power at the highest stats:
/// `power * (1 + (modulus - 1) / 100)` times the highest multiplier, cut off
/// to a whole number.
pub open spec fn heal_bound(power: nat) -> nat {
    power * (99 + bonus_modulus(power)) * multiplier_512(99, 99, true) / 51200
}

/// A stat as entered, brought down to the highest that the game has.
pub fn clamp_stat(value: u8) -> (r: u8)
    ensures
        r == if value > STAT_MAX { STAT_MAX } else { value },
{
    if value > STAT_MAX {
        STAT_MAX
    } else {
        value
    }
}

impl Character {
    /// The sum of level and magic fits in a byte.
    pub open spec fn castable(&self) -> bool {
        self.level + self.magic <= 255
    }

    /// Both stats are within the game's range.
    pub open spec fn in_range(&self) -> bool {
        self.level <= STAT_MAX && self.magic <= STAT_MAX
    }

    /// The multiplier of this character, in 512ths.
    pub open spec fn multiplier(&self) -> nat {
        multiplier_512(self.level as nat, self.magic as nat, self.serenity)
    }

    /// The modulus that cuts a raw word down to a bonus.
    pub open spec fn modulus(&self) -> nat {
        bonus_modulus(self.spell.power_spec())
    }

    /// The heal that this character's spell gives for a raw word that leaves
    /// `residue`.
    pub open spec fn heal_of(&self, residue: nat) -> nat {
        heal(self.spell.power_spec(), self.multiplier(), residue)
    }

    /// The heal that this character's spell gives for the raw word
    /// `rng_val`.
    pub open spec fn cast_spec(&self, rng_val: u32) -> int {
        self.heal_of(rng_val as nat % self.modulus()) as int
    }

    pub fn new(level: u8, magic: u8, spell: Spell, serenity: bool) -> (c: Character)
        ensures
            c == (Character { level, magic, spell, serenity }),
    {
        Character { level, magic, spell, serenity }
    }

    /// The multiplier, in 512ths.
    pub fn base_multiplier(&self) -> (k: u128)
        requires
            self.castable(),
        ensures
            k == self.multiplier(),
            1024 <= k <= 196611,
            self.in_range() ==> k <= 60342,
    {
        let magic: u128 = self.magic as u128;
        let sum: u128 = self.level as u128 + self.magic as u128;
        assert(magic * sum <= 65025) by (nonlinear_arith)
            requires
                magic <= 255,
                sum <= 255,
        ;
        assert(self.in_range() ==> magic * sum <= 19602) by (nonlinear_arith)
            requires
                self.in_range() ==> magic <= 99 && sum <= 198,
        ;
        let base: u128 = 512 + magic * sum;
        if self.serenity {
            base * 3
        } else {
            base * 2
        }
    }

    /// The modulus that cuts a raw word down to a bonus.
    pub fn bonus_range(&self) -> (m: u32)
        ensures
            m == self.modulus(),
            250 <= m <= 1500,
    {
        let power: u32 = self.spell.power() as u32;
        power * 25 / 2
    }

    /// The heal for a raw word that leaves `residue`.
    pub fn calculate_heal(&self, residue: u32) -> (h: i32)
        requires
            self.castable(),
            residue < self.modulus(),
        ensures
            h == self.heal_of(residue as nat),
            h >= 0,
            self.in_range() ==> h <= heal_bound(self.spell.power_spec()),
    {
        let power: u128 = self.spell.power() as u128;
        let k: u128 = self.base_multiplier();
        let bonus: u128 = round_quotient(residue as u128 * ONE, 100);
        let total: u128 = round_quotient(power * ONE + bonus, 1);
        assert(total * k <= 0x1000_0000_0000_0000_0000 * 196611) by (nonlinear_arith)
            requires
                total <= 0x1000_0000_0000_0000_0000,
                k <= 196611,
        ;
        let product: u128 = round_quotient(total * k, 512);
        let whole: u128 = product / ONE;
        proof {
            lemma_heal_bounded(*self, residue as nat);
        }
        whole as i32
    }

    /// The heal for the raw word `rng_val`.
    pub fn cast(&self, rng_val: u32) -> (h: i32)
        requires
            self.castable(),
        ensures
            h == self.cast_spec(rng_val),
            h >= 0,
            self.in_range() ==> h <= heal_bound(self.spell.power_spec()),
    {
        let modulus: u32 = self.bonus_range();
        self.calculate_heal(rng_val % modulus)
    }

    /// The heal for each residue that a raw word can leave, in order.
    pub fn outcome_table(&self) -> (table: Vec<i32>)
        requires
            self.castable(),
        ensures
            table.len() == self.modulus(),
            forall|r: int| 0 <= r < table.len() ==> table@[r] == self.heal_of(r as nat),
    {
        let modulus: u32 = self.bonus_range();
        let mut table: Vec<i32> = Vec::new();
        let mut r: u32 = 0;
        while r < modulus
            invariant
                self.castable(),
                modulus == self.modulus(),
                r <= modulus,
                table.len() == r,
                forall|j: int| 0 <= j < r ==> table@[j] == self.heal_of(j as nat),
            decreases modulus - r,
        {
            let h: i32 = self.calculate_heal(r);
            table.push(h);
            r += 1;
        }
        table
    }
}

impl Default for Character {
    fn default() -> (c: Self)
        ensures
            c == (Character { level: 70, magic: 99, spell: Spell::Cure, serenity: true }),
    {
        Character::new(70, 99, Spell::Cure, true)
    }
}

/// For stats within the game's range the heal is at most [`heal_bound`] of
/// the spell's power; for any stats whose sum fits in a byte it is below
/// 2^16.
pub proof fn lemma_heal_bounded(c: Character, residue: nat)
    requires
        c.castable(),
        residue < c.modulus(),
    ensures
        c.heal_of(residue) < 0x1_0000,
        c.in_range() ==> c.heal_of(residue) <= heal_bound(c.spell.power_spec()),
{
    let power = c.spell.power_spec();
    let k = c.multiplier();
    let magic = c.magic as nat;
    let sum = (c.level + c.magic) as nat;
    assert(magic * sum <= 65025) by (nonlinear_arith)
        requires
            magic <= 255,
            sum <= 255,
    ;
    assert(c.in_range() ==> magic * sum <= 19602) by (nonlinear_arith)
        requires
            c.in_range() ==> magic <= 99 && sum <= 198,
    ;
    let n1 = residue * 0x4000_0000_0000_0000;
    let bonus = round_to_grid(n1, 100);
    lemma_round_to_grid_near(n1, 100);
    let n2 = power * 0x4000_0000_0000_0000 + bonus;
    let total = round_to_grid(n2, 1);
    lemma_round_to_grid_near(n2, 1);
    let n3 = total * k;
    let product = round_to_grid(n3, 512);
    lemma_round_to_grid_near(n3, 512);
    let top: nat = (power + (residue + 1) / 100 + 1) * 0x4000_0000_0000_0000;
    assert(total <= top);
    assert(n3 <= top * k) by (nonlinear_arith)
        requires
            n3 == total * k,
            total <= top,
    ;
    assert(top * k == (power + (residue + 1) / 100 + 1) * k * 0x4000_0000_0000_0000)
        by (nonlinear_arith)
        requires
            top == (power + (residue + 1) / 100 + 1) * 0x4000_0000_0000_0000,
    ;
    let units: nat = (power + (residue + 1) / 100 + 1) * k;
    assert(units <= 137 * 196611) by (nonlinear_arith)
        requires
            units == (power + (residue + 1) / 100 + 1) * k,
            power + (residue + 1) / 100 + 1 <= 137,
            k <= 196611,
    ;
    assert(c.in_range() ==> units <= (power + (residue + 1) / 100 + 1) * 60342)
        by (nonlinear_arith)
        requires
            units == (power + (residue + 1) / 100 + 1) * k,
            c.in_range() ==> k <= 60342,
    ;
    assert(n3 <= units * 0x4000_0000_0000_0000);
    assert(n3 / 512 <= units * 0x20_0000_0000_0000);
    assert(product <= units * 0x20_0000_0000_0000 + 1 + 2 * units);
    assert(c.heal_of(residue) == product / 0x4000_0000_0000_0000);
    assert(c.heal_of(residue) <= units / 512 + 1);
    assert(multiplier_512(99, 99, true) == 60342);
    if c.in_range() {
        match c.spell {
            Spell::Cure => {
                assert(units <= 23 * 60342);
                assert(heal_bound(power) == 20 * 349 * 60342 / 51200);
            },
            Spell::Cura => {
                assert(units <= 52 * 60342);
                assert(heal_bound(power) == 46 * 674 * 60342 / 51200);
            },
            Spell::Curaga => {
                assert(units <= 97 * 60342);
                assert(heal_bound(power) == 86 * 1174 * 60342 / 51200);
            },
            Spell::Curaja => {
                assert(units <= 136 * 60342);
                assert(heal_bound(power) == 120 * 1599 * 60342 / 51200);
            },
        }
    }
}

/// The formula in whole numbers, before the division by 51200 (a hundred
/// times 512): the power and bonus in hundredths, times the multiplier in
/// 512ths.
pub open spec fn exact_numerator(power: nat, k: nat, residue: nat) -> nat {
    (100 * power + residue) * k
}

/// The heal is the formula's exact value cut off to a whole number, but
/// where the exact value is itself whole: there the rounded product may
/// fall just short of it, and the heal is that number or one less.
pub proof fn lemma_heal_near_exact(power: nat, k: nat, residue: nat)
    requires
        20 <= power <= 120,
        residue < 1500,
        1024 <= k <= 196611,
    ensures
        exact_numerator(power, k, residue) % 51200 != 0 ==> heal(power, k, residue)
            == exact_numerator(power, k, residue) / 51200,
        exact_numerator(power, k, residue) % 51200 == 0 ==> heal(power, k, residue)
            == exact_numerator(power, k, residue) / 51200 || heal(power, k, residue) + 1
            == exact_numerator(power, k, residue) / 51200,
{
    let n1 = residue * 0x4000_0000_0000_0000;
    let b = round_to_grid(n1, 100);
    let g1 = spacing(n1 / 100, 1);
    lemma_round_to_grid_nearest(n1, 100);
    lemma_spacing(n1 / 100, 1);
    assert(g1 <= 15360);
    let n2 = power * 0x4000_0000_0000_0000 + b;
    let t = round_to_grid(n2, 1);
    let g2 = spacing(n2 / 1, 1);
    lemma_round_to_grid_nearest(n2, 1);
    lemma_spacing(n2 / 1, 1);
    assert(g2 <= 139264);
    let n3 = t * k;
    let p = round_to_grid(n3, 512);
    let g3 = spacing(n3 / 512, 1);
    lemma_round_to_grid_nearest(n3, 512);
    lemma_spacing(n3 / 512, 1);
    assert(t <= 137 * 0x4000_0000_0000_0000);
    assert(n3 <= 137 * 0x4000_0000_0000_0000 * 196611) by (nonlinear_arith)
        requires
            n3 == t * k,
            t <= 137 * 0x4000_0000_0000_0000,
            k <= 196611,
    ;
    assert(g3 <= 53871414);
    let tk = n3 as int;
    let bk = b * k;
    let pk = power * k;
    let rk = residue * k;
    let e = exact_numerator(power, k, residue);
    assert(-100 * (g2 * k) <= 200 * tk - 200 * (n2 * k) <= 100 * (g2 * k)) by (nonlinear_arith)
        requires
            -g2 <= 2 * t - 2 * n2 <= g2,
            tk == t * k,
    ;
    assert(n2 * k == pk * 0x4000_0000_0000_0000 + bk) by (nonlinear_arith)
        requires
            n2 == power * 0x4000_0000_0000_0000 + b,
            pk == power * k,
            bk == b * k,
    ;
    assert(-100 * (g1 * k) <= 200 * bk - 2 * (rk * 0x4000_0000_0000_0000) <= 100 * (g1 * k))
        by (nonlinear_arith)
        requires
            -100 * g1 <= 200 * b - 2 * n1 <= 100 * g1,
            n1 == residue * 0x4000_0000_0000_0000,
            bk == b * k,
            rk == residue * k,
    ;
    assert(e == 100 * pk + rk) by (nonlinear_arith)
        requires
            e == (100 * power + residue) * k,
            pk == power * k,
            rk == residue * k,
    ;
    assert(g1 * k <= 15360 * 196611 && g2 * k <= 139264 * 196611) by (nonlinear_arith)
        requires
            g1 <= 15360,
            g2 <= 139264,
            k <= 196611,
    ;
    let slack: int = 0x400_0000_0000;
    assert(-2 * slack <= 102400 * p - 2 * (e * 0x4000_0000_0000_0000) <= 2 * slack);
    let h = heal(power, k, residue);
    assert(h == p / 0x4000_0000_0000_0000);
    let q = e / 51200;
    assert(e >= 51200 * 40) by (nonlinear_arith)
        requires
            e == (100 * power + residue) * k,
            power >= 20,
            k >= 1024,
    ;
}

} // verus!
