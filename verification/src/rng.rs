//! The MT19937 word generator.
//!
//! The output stream is modelled as a function of the seed and the number of
//! the draw alone: [`raw_word`]. A well-formed generator is one whose stored
//! block and cursor are those that its seed and position call for.

use vstd::prelude::*;
use vstd::wrapping::u32_specs::{wrapping_add, wrapping_mul};

verus! {

/// Number of words in a state block.
pub const STATE_WORDS: usize = 624;

/// Distance between a word and the far word that is folded into it.
pub const SHIFT_WORDS: usize = 397;

/// The twist matrix constant.
pub const MATRIX_A: u32 = 0x9908_b0df;

/// Mask of the most significant bit of a word.
pub const UPPER_MASK: u32 = 0x8000_0000;

/// Mask of the 31 least significant bits of a word.
pub const LOWER_MASK: u32 = 0x7fff_ffff;

/// Multiplier of the seeding recurrence.
pub const SEED_MULTIPLIER: u32 = 1_812_433_253;

/// Word `i` of the block that seeding with `seed` lays down.
pub open spec fn seed_word(seed: u32, i: nat) -> u32
    decreases i,
{
    if i == 0 {
        seed
    } else {
        let prev = seed_word(seed, (i - 1) as nat);
        wrapping_add(wrapping_mul(SEED_MULTIPLIER, prev ^ (prev >> 30)), i as u32)
    }
}

/// The block that seeding with `seed` lays down.
pub open spec fn seed_state(seed: u32) -> Seq<u32> {
    Seq::new(STATE_WORDS as nat, |i: int| seed_word(seed, i as nat))
}

/// The top bit of `upper` joined with the low 31 bits of `lower`.
pub open spec fn mix(upper: u32, lower: u32) -> u32 {
    (upper & UPPER_MASK) | (lower & LOWER_MASK)
}

/// The mixed word shifted right by one, with the matrix constant folded in
/// when its low bit is set.
pub open spec fn fold(y: u32) -> u32 {
    (y >> 1) ^ (if y & 1 == 1 { MATRIX_A } else { 0 })
}

/// Word `k` of the block that follows the block `s`. The recurrence runs in
/// place, so words past the first 227 read words that are already new.
pub open spec fn twist_word(s: Seq<u32>, k: nat) -> u32
    decreases k,
{
    if k >= STATE_WORDS {
        0
    } else {
        let next = if k < STATE_WORDS - 1 { s[k as int + 1] } else { twist_word(s, 0) };
        let far = if k < STATE_WORDS - SHIFT_WORDS {
            s[k as int + SHIFT_WORDS as int]
        } else {
            twist_word(s, (k - (STATE_WORDS - SHIFT_WORDS)) as nat)
        };
        far ^ fold(mix(s[k as int], next))
    }
}

/// The block that follows the block `s`.
pub open spec fn twist(s: Seq<u32>) -> Seq<u32> {
    Seq::new(STATE_WORDS as nat, |k: int| twist_word(s, k as nat))
}

/// The output word made from the state word `y`.
pub open spec fn temper(y: u32) -> u32 {
    let a = y ^ (y >> 11);
    let b = a ^ ((a << 7) & 0x9d2c_5680);
    let c = b ^ ((b << 15) & 0xefc6_0000);
    c ^ (c >> 18)
}

/// Block number `n` of the generator seeded with `seed`; block 0 is the one
/// that seeding lays down, and no word is drawn from it.
pub open spec fn block(seed: u32, n: nat) -> Seq<u32>
    decreases n,
{
    if n == 0 {
        seed_state(seed)
    } else {
        twist(block(seed, (n - 1) as nat))
    }
}

/// The word that draw number `i` (counted from 0) returns from a generator
/// seeded with `seed`.
pub open spec fn raw_word(seed: u32, i: nat) -> u32 {
    temper(block(seed, i / (STATE_WORDS as nat) + 1)[(i % (STATE_WORDS as nat)) as int])
}

/// The number of the block that a generator holds after `draws` draws.
pub open spec fn block_after(draws: nat) -> nat {
    if draws == 0 {
        0
    } else {
        ((draws - 1) / (STATE_WORDS as int) + 1) as nat
    }
}

/// The cursor into its block that a generator holds after `draws` draws.
pub open spec fn cursor_after(draws: nat) -> nat {
    if draws == 0 {
        STATE_WORDS as nat
    } else {
        ((draws - 1) % (STATE_WORDS as int) + 1) as nat
    }
}

/// A seeded MT19937 generator.
#[derive(Debug)]
pub struct RNG {
    /// The state block.
    pub mt: Vec<u32>,
    /// How many words of the block have been drawn; 624 forces a twist.
    pub mti: usize,
    /// How many words have been drawn.
    pub position: u32,
    /// The seed of this instance.
    pub seed: u32,
}

impl RNG {
    /// The seed used where the caller gives none.
    pub const DEFAULT_SEED: u32 = 4537;

    /// The state block.
    pub open spec fn state(&self) -> Seq<u32> {
        self.mt@
    }

    /// How many words of the state block have been drawn.
    pub open spec fn cursor(&self) -> nat {
        self.mti as nat
    }

    /// The block and the cursor are those of `seed` after `position` draws.
    pub open spec fn wf(&self) -> bool {
        &&& self.state() == block(self.seed, block_after(self.position as nat))
        &&& self.cursor() == cursor_after(self.position as nat)
    }

    /// A generator seeded with [`RNG::DEFAULT_SEED`].
    pub fn new() -> (r: RNG)
        ensures
            r.wf(),
            r.seed == RNG::DEFAULT_SEED,
            r.position == 0,
    {
        RNG::sgenrand(RNG::DEFAULT_SEED)
    }

    /// A generator seeded with `seed`.
    pub fn from(seed: u32) -> (r: RNG)
        ensures
            r.wf(),
            r.seed == seed,
            r.position == 0,
    {
        RNG::sgenrand(seed)
    }

    /// Lays down the first block from `seed`.
    pub fn sgenrand(seed: u32) -> (r: RNG)
        ensures
            r.wf(),
            r.seed == seed,
            r.position == 0,
    {
        let mut mt: Vec<u32> = vec![0u32; STATE_WORDS];
        mt.set(0, seed);
        let mut mti: usize = 1;
        while mti < STATE_WORDS
            invariant
                mt.len() == STATE_WORDS,
                1 <= mti <= STATE_WORDS,
                forall|j: int| 0 <= j < mti ==> mt@[j] == seed_word(seed, j as nat),
            decreases STATE_WORDS - mti,
        {
            let prev: u32 = mt[mti - 1];
            let operand: u32 = prev ^ (prev >> 30);
            let val: u32 = SEED_MULTIPLIER.wrapping_mul(operand).wrapping_add(mti as u32);
            mt.set(mti, val);
            mti += 1;
        }
        assert(mt@ =~= seed_state(seed));
        RNG { mt, mti, position: 0, seed }
    }

    /// Replaces the state block by the one that follows it.
    fn regenerate(&mut self)
        requires
            old(self).mt.len() == STATE_WORDS,
        ensures
            final(self).mt@ == twist(old(self).mt@),
            final(self).mti == 0,
            final(self).position == old(self).position,
            final(self).seed == old(self).seed,
    {
        let ghost s = self.mt@;
        let mut kk: usize = 0;
        while kk < STATE_WORDS - SHIFT_WORDS
            invariant
                s.len() == STATE_WORDS,
                self.mt.len() == STATE_WORDS,
                kk <= STATE_WORDS - SHIFT_WORDS,
                self.position == old(self).position,
                self.seed == old(self).seed,
                forall|j: int| 0 <= j < kk ==> self.mt@[j] == twist_word(s, j as nat),
                forall|j: int| kk <= j < STATE_WORDS ==> self.mt@[j] == s[j],
            decreases STATE_WORDS - kk,
        {
            let y: u32 = (self.mt[kk] & UPPER_MASK) | (self.mt[kk + 1] & LOWER_MASK);
            let mag: u32 = if y & 1 == 1 { MATRIX_A } else { 0 };
            let word: u32 = self.mt[kk + SHIFT_WORDS] ^ ((y >> 1) ^ mag);
            self.mt.set(kk, word);
            kk += 1;
        }
        while kk < STATE_WORDS - 1
            invariant
                s.len() == STATE_WORDS,
                self.mt.len() == STATE_WORDS,
                STATE_WORDS - SHIFT_WORDS <= kk <= STATE_WORDS - 1,
                self.position == old(self).position,
                self.seed == old(self).seed,
                forall|j: int| 0 <= j < kk ==> self.mt@[j] == twist_word(s, j as nat),
                forall|j: int| kk <= j < STATE_WORDS ==> self.mt@[j] == s[j],
            decreases STATE_WORDS - kk,
        {
            let y: u32 = (self.mt[kk] & UPPER_MASK) | (self.mt[kk + 1] & LOWER_MASK);
            let mag: u32 = if y & 1 == 1 { MATRIX_A } else { 0 };
            let word: u32 = self.mt[kk - (STATE_WORDS - SHIFT_WORDS)] ^ ((y >> 1) ^ mag);
            self.mt.set(kk, word);
            kk += 1;
        }
        let y: u32 = (self.mt[STATE_WORDS - 1] & UPPER_MASK) | (self.mt[0] & LOWER_MASK);
        let mag: u32 = if y & 1 == 1 { MATRIX_A } else { 0 };
        let word: u32 = self.mt[SHIFT_WORDS - 1] ^ ((y >> 1) ^ mag);
        self.mt.set(STATE_WORDS - 1, word);
        self.mti = 0;
        assert(self.mt@ =~= twist(s));
    }

    /// Draws the next word of the stream.
    pub fn gen_rand(&mut self) -> (y: u32)
        requires
            old(self).wf(),
            old(self).position < u32::MAX,
        ensures
            y == raw_word(old(self).seed, old(self).position as nat),
            final(self).wf(),
            final(self).seed == old(self).seed,
            final(self).position == old(self).position + 1,
    {
        if self.mti >= STATE_WORDS {
            self.regenerate();
        }
        let mut y: u32 = self.mt[self.mti];
        self.mti += 1;

        y ^= y >> 11;
        y ^= (y << 7) & 0x9d2c_5680;
        y ^= (y << 15) & 0xefc6_0000;
        y ^= y >> 18;

        self.position += 1;
        y
    }
}

impl Default for RNG {
    fn default() -> (r: Self)
        ensures
            r.wf(),
            r.seed == RNG::DEFAULT_SEED,
            r.position == 0,
    {
        RNG::new()
    }
}

/// Two well-formed generators with the same seed and the same position hold
/// the same block and cursor. Each then draws the word that [`raw_word`]
/// gives for that seed and position, and is well formed again at the next
/// position: two generators seeded alike give the same words for ever.
pub proof fn lemma_same_seed_same_state(a: RNG, b: RNG)
    requires
        a.wf(),
        b.wf(),
        a.seed == b.seed,
        a.position == b.position,
    ensures
        a.state() == b.state(),
        a.cursor() == b.cursor(),
        raw_word(a.seed, a.position as nat) == raw_word(b.seed, b.position as nat),
{
}

} // verus!
