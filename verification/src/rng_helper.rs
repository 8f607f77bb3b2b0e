//! The sliding window of draws, and the search for the seed behind a run of
//! observed heals.

use vstd::prelude::*;
use crate::character::Character;
use crate::rng::{raw_word, RNG};

verus! {

/// One draw, seen through a character's spell.
#[derive(Debug, Clone, Copy, PartialEq, Eq, Structural)]
pub struct ValueLens {
    /// The generator's position after the draw.
    pub position: u32,
    /// The raw word.
    pub value: u32,
    /// The heal that the raw word gives.
    pub spell: i32,
    /// The chest chance: the raw word modulo 100.
    pub chest: u8,
}

/// A generator together with the window of its latest draws. It can slide
/// the window on until a given run of heals stands at its head.
#[derive(Debug)]
pub struct RNGHelper {
    pub values: Vec<ValueLens>,
    pub rng: RNG,
}

/// The record of draw number `i` (counted from 0) of the generator seeded
/// with `seed`, for the character `c`.
pub open spec fn record(c: Character, seed: u32, i: nat) -> ValueLens {
    let raw = raw_word(seed, i);
    ValueLens {
        position: (i + 1) as u32,
        value: raw,
        spell: c.cast_spec(raw) as i32,
        chest: (raw % 100) as u8,
    }
}

/// The records of the `len` draws from draw number `start` on.
pub open spec fn window(c: Character, seed: u32, start: nat, len: nat) -> Seq<ValueLens> {
    Seq::new(len, |j: int| record(c, seed, (start + j) as nat))
}

/// The window that the first `count` draws fill.
pub open spec fn filled(c: Character, seed: u32, count: nat) -> Seq<ValueLens> {
    window(c, seed, 0, count)
}

/// One slide: the oldest record, if there is one, leaves, and `fresh` joins
/// at the end.
pub open spec fn slide(w: Seq<ValueLens>, fresh: ValueLens) -> Seq<ValueLens> {
    (if w.len() > 0 { w.drop_first() } else { w }).push(fresh)
}

/// The window `w` of a generator at position `pos`, after `k` slides.
pub open spec fn advanced(
    w: Seq<ValueLens>,
    c: Character,
    seed: u32,
    pos: nat,
    k: nat,
) -> Seq<ValueLens>
    decreases k,
{
    if k == 0 {
        w
    } else {
        slide(advanced(w, c, seed, pos, (k - 1) as nat), record(c, seed, (pos + k - 1) as nat))
    }
}

/// The heals at the head of `w` are those of `target`, as far as both reach.
pub open spec fn prefix_matches(w: Seq<ValueLens>, target: Seq<i32>) -> bool {
    forall|i: int| 0 <= i < w.len() && i < target.len() ==> (#[trigger] w[i]).spell == target[i]
}

/// The number of the first slide, among the first `n`, after which the
/// window matches `target`. The window is not compared before its first
/// slide.
pub open spec fn first_hit(
    w: Seq<ValueLens>,
    c: Character,
    seed: u32,
    pos: nat,
    target: Seq<i32>,
    n: nat,
) -> Option<nat>
    decreases n,
{
    if n == 0 {
        None
    } else {
        match first_hit(w, c, seed, pos, target, (n - 1) as nat) {
            Some(k) => Some(k),
            None => if prefix_matches(advanced(w, c, seed, pos, n), target) {
                Some(n)
            } else {
                None
            },
        }
    }
}

/// The number of the first slide after which the window of a generator
/// seeded with `seed`, filled with as many draws as `target` is long,
/// matches `target`, if one of the first `iters` slides does.
pub open spec fn seed_hit(c: Character, target: Seq<i32>, seed: u32, iters: nat) -> Option<nat> {
    first_hit(filled(c, seed, target.len()), c, seed, target.len(), target, iters)
}

/// The least seed from `min` up to, but not including, `max` that hits.
pub open spec fn least_seed(
    c: Character,
    target: Seq<i32>,
    min: u32,
    max: u32,
    iters: nat,
) -> Option<u32>
    decreases max - min,
{
    if min >= max {
        None
    } else if seed_hit(c, target, min, iters) is Some {
        Some(min)
    } else {
        least_seed(c, target, (min + 1) as u32, max, iters)
    }
}

/// The positions of `w` run up to `pos` without a gap.
pub open spec fn contiguous(w: Seq<ValueLens>, pos: nat) -> bool {
    &&& w.len() <= pos
    &&& forall|j: int| 0 <= j < w.len() ==> (#[trigger] w[j]).position == pos - w.len() + j + 1
}

/// `v` with its heal worked out anew for `c`.
pub open spec fn recast(v: ValueLens, c: Character) -> ValueLens {
    ValueLens { position: v.position, value: v.value, spell: c.cast_spec(v.value) as i32, chest: v.chest }
}

/// `table` holds the heal of `c` for each residue of a raw word.
pub open spec fn is_table_of(table: Seq<i32>, c: Character) -> bool {
    &&& table.len() == c.modulus()
    &&& forall|r: int| 0 <= r < table.len() ==> table[r] == c.heal_of(r as nat)
}

/// The number of slides that a search makes at most.
pub open spec fn limit_or_default(limit: Option<usize>) -> nat {
    match limit {
        Some(n) => n as nat,
        None => RNGHelper::LIMIT as nat,
    }
}

/// The seed that a helper starts from.
pub open spec fn seed_or_default(seed: Option<u32>) -> u32 {
    match seed {
        Some(s) => s,
        None => RNG::DEFAULT_SEED,
    }
}

impl RNGHelper {
    /// How many slides a search makes where the caller sets no limit.
    pub const LIMIT: usize = 100_000;

    /// The first seed that a search tries where the caller names none.
    pub const SEED_MIN: u32 = 1;

    /// The end of the seeds that a search tries where the caller names none.
    pub const SEED_MAX: u32 = 0xffff_ffff;

    /// The generator is well formed and the window's positions run up to
    /// the generator's own.
    pub open spec fn wf(&self) -> bool {
        &&& self.rng.wf()
        &&& contiguous(self.values@, self.rng.position as nat)
    }

    /// The window after `k` slides.
    pub open spec fn slid(&self, c: Character, k: nat) -> Seq<ValueLens> {
        advanced(self.values@, c, self.rng.seed, self.rng.position as nat, k)
    }

    /// The number of the first slide, among the next `n`, after which the
    /// window matches `target`.
    pub open spec fn hit(&self, c: Character, target: Seq<i32>, n: nat) -> Option<nat> {
        first_hit(self.values@, c, self.rng.seed, self.rng.position as nat, target, n)
    }

    /// A helper whose window holds the first `iters` draws.
    pub fn new(seed: Option<u32>, character: &Character, iters: usize) -> (helper: RNGHelper)
        requires
            character.castable(),
            iters <= u32::MAX,
        ensures
            helper.wf(),
            helper.rng.seed == seed_or_default(seed),
            helper.rng.position == iters,
            helper.values@ == filled(*character, seed_or_default(seed), iters as nat),
    {
        let table = character.outcome_table();
        RNGHelper::prefilled(seed, character, &table, iters)
    }

    /// A helper whose window holds the first `iters` draws, with the heals
    /// read from `table`.
    fn prefilled(
        seed: Option<u32>,
        character: &Character,
        table: &Vec<i32>,
        iters: usize,
    ) -> (helper: RNGHelper)
        requires
            is_table_of(table@, *character),
            iters <= u32::MAX,
        ensures
            helper.wf(),
            helper.rng.seed == seed_or_default(seed),
            helper.rng.position == iters,
            helper.values@ == filled(*character, seed_or_default(seed), iters as nat),
    {
        let rng = match seed {
            Some(s) => RNG::from(s),
            None => RNG::new(),
        };
        let mut helper = RNGHelper { values: Vec::new(), rng };
        let mut i: usize = 0;
        while i < iters
            invariant
                is_table_of(table@, *character),
                i <= iters <= u32::MAX,
                helper.wf(),
                helper.rng.seed == seed_or_default(seed),
                helper.rng.position == i,
                helper.values@ == filled(*character, seed_or_default(seed), i as nat),
            decreases iters - i,
        {
            helper.push_from(character, table);
            i += 1;
            assert(helper.values@ =~= filled(*character, seed_or_default(seed), i as nat));
        }
        helper
    }

    /// Removes the oldest record, if there is one.
    fn pop(&mut self)
        ensures
            final(self).rng == old(self).rng,
            final(self).values@ == if old(self).values@.len() > 0 {
                old(self).values@.drop_first()
            } else {
                old(self).values@
            },
    {
        if self.values.len() > 0 {
            self.values.remove(0);
            assert(self.values@ =~= old(self).values@.drop_first());
        }
    }

    /// Appends the record of the raw word just drawn.
    fn append(&mut self, character: &Character, raw: u32, heal: i32)
        requires
            old(self).rng.position >= 1,
            raw == raw_word(old(self).rng.seed, (old(self).rng.position - 1) as nat),
            heal == character.cast_spec(raw),
        ensures
            final(self).rng == old(self).rng,
            final(self).values@ == old(self).values@.push(
                record(*character, old(self).rng.seed, (old(self).rng.position - 1) as nat),
            ),
    {
        self.values.push(
            ValueLens {
                position: self.rng.position,
                value: raw,
                spell: heal,
                chest: (raw % 100) as u8,
            },
        );
    }

    /// Draws one word and appends its record.
    pub fn push(&mut self, character: &Character)
        requires
            old(self).rng.wf(),
            old(self).rng.position < u32::MAX,
            character.castable(),
        ensures
            final(self).rng.wf(),
            final(self).rng.seed == old(self).rng.seed,
            final(self).rng.position == old(self).rng.position + 1,
            final(self).values@ == old(self).values@.push(
                record(*character, old(self).rng.seed, old(self).rng.position as nat),
            ),
            old(self).wf() ==> final(self).wf(),
    {
        let next_rng: u32 = self.rng.gen_rand();
        let heal: i32 = character.cast(next_rng);
        self.append(character, next_rng, heal);
    }

    /// Draws one word and appends its record, with the heal read from
    /// `table`.
    fn push_from(&mut self, character: &Character, table: &Vec<i32>)
        requires
            old(self).rng.wf(),
            old(self).rng.position < u32::MAX,
            is_table_of(table@, *character),
        ensures
            final(self).rng.wf(),
            final(self).rng.seed == old(self).rng.seed,
            final(self).rng.position == old(self).rng.position + 1,
            final(self).values@ == old(self).values@.push(
                record(*character, old(self).rng.seed, old(self).rng.position as nat),
            ),
            old(self).wf() ==> final(self).wf(),
    {
        let next_rng: u32 = self.rng.gen_rand();
        let modulus: u32 = character.bonus_range();
        let heal: i32 = table[(next_rng % modulus) as usize];
        proof {
            vstd::arithmetic::div_mod::lemma_mod_bound(next_rng as int, modulus as int);
        }
        self.append(character, next_rng, heal);
    }

    /// Slides the window on by one draw: the oldest record leaves and the
    /// record of a fresh draw joins. A window that holds nothing gains its
    /// first record.
    pub fn next(&mut self, character: &Character)
        requires
            old(self).rng.wf(),
            old(self).rng.position < u32::MAX,
            character.castable(),
        ensures
            final(self).rng.wf(),
            final(self).rng.seed == old(self).rng.seed,
            final(self).rng.position == old(self).rng.position + 1,
            final(self).values@ == slide(
                old(self).values@,
                record(*character, old(self).rng.seed, old(self).rng.position as nat),
            ),
            old(self).wf() ==> final(self).wf(),
    {
        self.pop();
        self.push(character);
    }

    /// Slides the window on by one draw, with the heal read from `table`.
    fn next_from(&mut self, character: &Character, table: &Vec<i32>)
        requires
            old(self).rng.wf(),
            old(self).rng.position < u32::MAX,
            is_table_of(table@, *character),
        ensures
            final(self).rng.wf(),
            final(self).rng.seed == old(self).rng.seed,
            final(self).rng.position == old(self).rng.position + 1,
            final(self).values@ == slide(
                old(self).values@,
                record(*character, old(self).rng.seed, old(self).rng.position as nat),
            ),
            old(self).wf() ==> final(self).wf(),
    {
        self.pop();
        self.push_from(character, table);
    }

    /// Works out every record's heal anew, for a changed character. No word
    /// is drawn.
    pub fn apply_character(&mut self, character: &Character)
        requires
            character.castable(),
        ensures
            final(self).rng == old(self).rng,
            final(self).values@.len() == old(self).values@.len(),
            forall|j: int|
                0 <= j < old(self).values@.len() ==> final(self).values@[j] == recast(
                    #[trigger] old(self).values@[j],
                    *character,
                ),
    {
        let n: usize = self.values.len();
        let mut i: usize = 0;
        while i < n
            invariant
                character.castable(),
                n == old(self).values@.len(),
                self.values@.len() == n,
                i <= n,
                self.rng == old(self).rng,
                forall|j: int|
                    0 <= j < i ==> self.values@[j] == recast(
                        #[trigger] old(self).values@[j],
                        *character,
                    ),
                forall|j: int| i <= j < n ==> self.values@[j] == old(self).values@[j],
            decreases n - i,
        {
            let v = self.values[i];
            let heal: i32 = character.cast(v.value);
            self.values.set(
                i,
                ValueLens { position: v.position, value: v.value, spell: heal, chest: v.chest },
            );
            i += 1;
        }
    }

    /// Whether the heals at the head of the window are those of `values`,
    /// as far as both reach.
    pub fn match_prefix(&self, values: &Vec<i32>) -> (matched: bool)
        ensures
            matched == prefix_matches(self.values@, values@),
    {
        let mut idx: usize = 0;
        while idx < values.len() && idx < self.values.len()
            invariant
                forall|j: int| 0 <= j < idx ==> (#[trigger] self.values@[j]).spell == values@[j],
                idx <= values@.len(),
                idx <= self.values@.len(),
            decreases values@.len() - idx,
        {
            if self.values[idx].spell != values[idx] {
                return false;
            }
            idx += 1;
        }
        true
    }

    /// Slides the window on until the heals `values` stand at its head, or
    /// `limit` slides have been made ([`RNGHelper::LIMIT`] where no limit
    /// is given). The window is compared only after a slide.
    pub fn find_casts(
        &mut self,
        character: &Character,
        values: &Vec<i32>,
        limit: Option<usize>,
    ) -> (found: bool)
        requires
            old(self).rng.wf(),
            character.castable(),
            old(self).rng.position + limit_or_default(limit) <= u32::MAX,
        ensures
            final(self).rng.wf(),
            old(self).wf() ==> final(self).wf(),
            final(self).rng.seed == old(self).rng.seed,
            found == (old(self).hit(*character, values@, limit_or_default(limit)) is Some),
            final(self).rng.position == old(self).rng.position + slides_made(
                old(self).hit(*character, values@, limit_or_default(limit)),
                limit_or_default(limit),
            ),
            final(self).values@ == old(self).slid(
                *character,
                slides_made(old(self).hit(*character, values@, limit_or_default(limit)), limit_or_default(limit)),
            ),
    {
        let loop_limit: usize = match limit {
            Some(n) => n,
            None => RNGHelper::LIMIT,
        };
        let table = character.outcome_table();
        self.find_casts_from(character, &table, values, loop_limit)
    }

    /// The search of [`RNGHelper::find_casts`], with the heals read from
    /// `table`.
    fn find_casts_from(
        &mut self,
        character: &Character,
        table: &Vec<i32>,
        values: &Vec<i32>,
        limit: usize,
    ) -> (found: bool)
        requires
            old(self).rng.wf(),
            is_table_of(table@, *character),
            old(self).rng.position + limit <= u32::MAX,
        ensures
            final(self).rng.wf(),
            old(self).wf() ==> final(self).wf(),
            final(self).rng.seed == old(self).rng.seed,
            found == (old(self).hit(*character, values@, limit as nat) is Some),
            final(self).rng.position == old(self).rng.position + slides_made(
                old(self).hit(*character, values@, limit as nat),
                limit as nat,
            ),
            final(self).values@ == old(self).slid(
                *character,
                slides_made(old(self).hit(*character, values@, limit as nat), limit as nat),
            ),
    {
        let ghost w = self.values@;
        let ghost seed = self.rng.seed;
        let ghost pos = self.rng.position as nat;
        let mut i: usize = 0;
        while i < limit
            invariant
                is_table_of(table@, *character),
                i <= limit,
                pos + limit <= u32::MAX,
                w == old(self).values@,
                old(self).wf() ==> self.wf(),
                seed == old(self).rng.seed,
                pos == old(self).rng.position,
                self.rng.wf(),
                self.rng.seed == seed,
                self.rng.position == pos + i,
                self.values@ == advanced(w, *character, seed, pos, i as nat),
                first_hit(w, *character, seed, pos, values@, i as nat) is None,
            decreases limit - i,
        {
            self.next_from(character, table);
            i += 1;
            if self.match_prefix(values) {
                proof {
                    lemma_first_hit_stays(w, *character, seed, pos, values@, i as nat, limit as nat);
                }
                return true;
            }
        }
        false
    }

    /// Tries one seed: fills a window with as many draws as `values` is
    /// long and slides it on up to `iters` times.
    pub fn try_seed(
        character: &Character,
        values: &Vec<i32>,
        seed: u32,
        iters: usize,
    ) -> (found: Option<RNGHelper>)
        requires
            character.castable(),
            values.len() + iters <= u32::MAX,
        ensures
            found is Some == seed_hit(*character, values@, seed, iters as nat) is Some,
            found matches Some(helper) ==> is_hit_of(helper, *character, values@, seed, iters as nat),
    {
        let table = character.outcome_table();
        RNGHelper::try_seed_from(character, &table, values, seed, iters)
    }

    /// The trial of [`RNGHelper::try_seed`], with the heals read from
    /// `table`.
    fn try_seed_from(
        character: &Character,
        table: &Vec<i32>,
        values: &Vec<i32>,
        seed: u32,
        iters: usize,
    ) -> (found: Option<RNGHelper>)
        requires
            is_table_of(table@, *character),
            values.len() + iters <= u32::MAX,
        ensures
            found is Some == seed_hit(*character, values@, seed, iters as nat) is Some,
            found matches Some(helper) ==> is_hit_of(helper, *character, values@, seed, iters as nat),
    {
        let mut helper = RNGHelper::prefilled(Some(seed), character, table, values.len());
        proof {
            lemma_first_hit(
                helper.values@,
                *character,
                seed,
                values@.len(),
                values@,
                iters as nat,
            );
        }
        if helper.find_casts_from(character, table, values, iters) {
            Some(helper)
        } else {
            None
        }
    }

    /// Looks for the least seed from `min` up to, but not including, `max`
    /// whose window, filled with as many draws as `values` is long, shows
    /// the heals `values` after one of its first `iters` slides.
    pub fn find_seed(
        character: &Character,
        values: &Vec<i32>,
        min: u32,
        max: u32,
        iters: usize,
    ) -> (found: Option<RNGHelper>)
        requires
            character.castable(),
            values.len() + iters <= u32::MAX,
        ensures
            match found {
                Some(helper) => {
                    &&& least_seed(*character, values@, min, max, iters as nat) == Some(helper.rng.seed)
                    &&& min <= helper.rng.seed < max
                    &&& is_hit_of(helper, *character, values@, helper.rng.seed, iters as nat)
                },
                None => least_seed(*character, values@, min, max, iters as nat) is None,
            },
    {
        let table = character.outcome_table();
        let mut seed: u32 = min;
        while seed < max
            invariant
                is_table_of(table@, *character),
                values.len() + iters <= u32::MAX,
                min <= seed,
                least_seed(*character, values@, min, max, iters as nat) == least_seed(
                    *character,
                    values@,
                    seed,
                    max,
                    iters as nat,
                ),
            decreases max - seed,
        {
            let found = RNGHelper::try_seed_from(character, &table, values, seed, iters);
            if found.is_some() {
                return found;
            }
            seed += 1;
        }
        None
    }

    /// The search of [`RNGHelper::find_seed`], with [`RNGHelper::SEED_MIN`],
    /// [`RNGHelper::SEED_MAX`] and [`RNGHelper::LIMIT`] in the place of
    /// what the caller leaves out.
    pub fn find_seed_with_defaults(
        character: &Character,
        values: &Vec<i32>,
        min: Option<u32>,
        max: Option<u32>,
        iters: Option<usize>,
    ) -> (found: Option<RNGHelper>)
        requires
            character.castable(),
            values.len() + limit_or_default(iters) <= u32::MAX,
        ensures
            match found {
                Some(helper) => {
                    &&& least_seed(
                        *character,
                        values@,
                        seed_min_or_default(min),
                        seed_max_or_default(max),
                        limit_or_default(iters),
                    ) == Some(helper.rng.seed)
                    &&& seed_min_or_default(min) <= helper.rng.seed < seed_max_or_default(max)
                    &&& is_hit_of(
                        helper,
                        *character,
                        values@,
                        helper.rng.seed,
                        limit_or_default(iters),
                    )
                },
                None => least_seed(
                    *character,
                    values@,
                    seed_min_or_default(min),
                    seed_max_or_default(max),
                    limit_or_default(iters),
                ) is None,
            },
    {
        let lo: u32 = match min {
            Some(s) => s,
            None => RNGHelper::SEED_MIN,
        };
        let hi: u32 = match max {
            Some(s) => s,
            None => RNGHelper::SEED_MAX,
        };
        let cap: usize = match iters {
            Some(n) => n,
            None => RNGHelper::LIMIT,
        };
        RNGHelper::find_seed(character, values, lo, hi, cap)
    }
}

/// The first seed that a search tries.
pub open spec fn seed_min_or_default(min: Option<u32>) -> u32 {
    match min {
        Some(s) => s,
        None => RNGHelper::SEED_MIN,
    }
}

/// The end of the seeds that a search tries.
pub open spec fn seed_max_or_default(max: Option<u32>) -> u32 {
    match max {
        Some(s) => s,
        None => RNGHelper::SEED_MAX,
    }
}

/// How many slides a search of up to `n` slides makes: up to the first hit,
/// or all `n` where there is none.
pub open spec fn slides_made(hit: Option<nat>, n: nat) -> nat {
    match hit {
        Some(k) => k,
        None => n,
    }
}

/// `helper` is what a search leaves behind that tried `seed` and hit: the
/// generator of that seed, slid on to the first hit.
pub open spec fn is_hit_of(helper: RNGHelper, c: Character, target: Seq<i32>, seed: u32, iters: nat) -> bool {
    &&& helper.wf()
    &&& helper.rng.seed == seed
    &&& seed_hit(c, target, seed, iters) matches Some(k) && {
        &&& helper.rng.position == target.len() + k
        &&& helper.values@ == advanced(filled(c, seed, target.len()), c, seed, target.len(), k)
        &&& prefix_matches(helper.values@, target)
    }
}

impl Default for RNGHelper {
    fn default() -> (helper: Self)
        ensures
            helper.wf(),
            helper.rng.seed == RNG::DEFAULT_SEED,
            helper.rng.position == 500,
            helper.values@ == filled(
                (Character { level: 70, magic: 99, spell: crate::spell::Spell::Cure, serenity: true }),
                RNG::DEFAULT_SEED,
                500,
            ),
    {
        let character = Character::default();
        RNGHelper::new(Some(RNG::DEFAULT_SEED), &character, 500)
    }
}

/// A first hit is a slide from 1 to `n` after which the window matches, and
/// after no earlier slide does it match; where there is none, the window
/// matches after none of the `n` slides.
pub proof fn lemma_first_hit(w: Seq<ValueLens>, c: Character, seed: u32, pos: nat, target: Seq<i32>, n: nat)
    ensures
        match first_hit(w, c, seed, pos, target, n) {
            Some(k) => {
                &&& 1 <= k <= n
                &&& prefix_matches(advanced(w, c, seed, pos, k), target)
                &&& forall|j: nat| 1 <= j < k ==> !prefix_matches(#[trigger] advanced(w, c, seed, pos, j), target)
            },
            None => forall|j: nat| 1 <= j <= n ==> !prefix_matches(#[trigger] advanced(w, c, seed, pos, j), target),
        },
    decreases n,
{
    if n > 0 {
        lemma_first_hit(w, c, seed, pos, target, (n - 1) as nat);
    }
}

/// A hit among the first `m` slides is the first hit among any more.
pub proof fn lemma_first_hit_stays(
    w: Seq<ValueLens>,
    c: Character,
    seed: u32,
    pos: nat,
    target: Seq<i32>,
    m: nat,
    n: nat,
)
    requires
        m <= n,
        first_hit(w, c, seed, pos, target, m) is Some,
    ensures
        first_hit(w, c, seed, pos, target, n) == first_hit(w, c, seed, pos, target, m),
    decreases n,
{
    if m < n {
        lemma_first_hit_stays(w, c, seed, pos, target, m, (n - 1) as nat);
    }
}

} // verus!
