//! The state behind the entry form, and what each event does to it.
//!
//! Entries arrive already read as numbers (or as nothing, where the text
//! was no number); names arrive as text. An event changes the state, says
//! whether the page is to be drawn again, and may ask for a seed search,
//! which is run elsewhere and comes back as an event of its own.

use vstd::prelude::*;
use crate::character::{clamp_stat, Character};
use crate::rng::RNG;
use crate::rng_helper::{filled, limit_or_default, recast, slides_made, RNGHelper, ValueLens};
use crate::spell::{default_spell, same_text, spell_named, Spell};
use crate::worker::{Params, Request};

verus! {

/// How many draws the window on the page shows.
pub const WINDOW_DRAWS: usize = 500;

/// How many heals can be entered.
pub const CURE_SLOTS: usize = 5;

/// The stat taken where the entry is no number.
pub const STAT_FALLBACK: u8 = 1;

/// The slides made for each seed where no number is entered.
pub const ITERS_FALLBACK: usize = 5_000;

/// A stat of the character.
#[derive(Debug, Clone, Copy, PartialEq, Eq, Structural)]
pub enum Stat {
    Level,
    Magic,
}

/// A bound of the seed search.
#[derive(Debug, Clone, Copy, PartialEq, Eq, Structural)]
pub enum SeedParam {
    Min,
    Max,
    Iters,
}

/// The stat that an entry field's name stands for.
pub open spec fn stat_named(name: Seq<char>) -> Option<Stat> {
    if name == "level"@ {
        Some(Stat::Level)
    } else if name == "magic"@ {
        Some(Stat::Magic)
    } else {
        None
    }
}

/// The bound that an entry field's name stands for.
pub open spec fn seed_param_named(name: Seq<char>) -> Option<SeedParam> {
    if name == "min"@ {
        Some(SeedParam::Min)
    } else if name == "max"@ {
        Some(SeedParam::Max)
    } else if name == "iters"@ {
        Some(SeedParam::Iters)
    } else {
        None
    }
}

/// The stat that an entry stands for: 1 where it was no number, and no more
/// than 99.
pub open spec fn stat_entered(entry: Option<u8>) -> u8 {
    match entry {
        Some(v) => if v > 99 { 99u8 } else { v },
        None => STAT_FALLBACK,
    }
}

/// The spell that a name stands for.
pub open spec fn spell_entered(name: Seq<char>) -> Spell {
    match spell_named(name) {
        Some(spell) => spell,
        None => default_spell(),
    }
}

/// An entry as a 32-bit seed, where it is one.
pub open spec fn seed_entered(entry: Option<u64>) -> Option<u32> {
    match entry {
        Some(v) => if v <= u32::MAX { Some(v as u32) } else { None },
        None => None,
    }
}

/// An entry as a count, where it is one.
pub open spec fn count_entered(entry: Option<u64>) -> Option<usize> {
    match entry {
        Some(v) => if v <= usize::MAX { Some(v as usize) } else { None },
        None => None,
    }
}

/// The heals entered, up to the first slot that is empty.
pub open spec fn leading_values(cures: Seq<Option<i32>>) -> Seq<i32>
    decreases cures.len(),
{
    if cures.len() == 0 {
        Seq::empty()
    } else {
        match cures[0] {
            Some(v) => seq![v] + leading_values(cures.drop_first()),
            None => Seq::empty(),
        }
    }
}

/// `after` holds the records of `before`, each with its heal worked out
/// anew for `c`.
pub open spec fn recast_all(before: Seq<ValueLens>, after: Seq<ValueLens>, c: Character) -> bool {
    &&& after.len() == before.len()
    &&& forall|j: int| 0 <= j < before.len() ==> after[j] == recast(#[trigger] before[j], c)
}

/// An event of the form.
#[derive(Debug)]
pub enum Msg {
    /// A stat's field, by name, and its entry.
    StatChange(String, Option<u8>),
    /// The name of the spell chosen.
    SetSpell(String),
    /// A heal's slot and its entry.
    SetCure(usize, Option<i32>),
    ToggleSerenity,
    /// Slide the window on to the heals entered.
    FindNext,
    /// The seed's entry.
    SeedChange(Option<u32>),
    /// A search bound's field, by name, and its entry.
    SeedParamChange(String, Option<u64>),
    /// Ask for a seed search.
    FindSeed,
    /// What a seed search found.
    FindResult(Option<RNGHelper>),
}

/// What an event leaves to be done.
#[derive(Debug)]
pub struct Update {
    /// Whether the page is to be drawn again.
    pub render: bool,
    /// The search to be run, if one was asked for.
    pub request: Option<Request>,
}

/// The state behind the form.
#[derive(Debug)]
pub struct Form {
    pub character: Character,
    pub rng_helper: RNGHelper,
    pub cure_values: [Option<i32>; 5],
    pub seed_min: Option<u32>,
    pub seed_max: Option<u32>,
    pub seed_iters: Option<usize>,
    pub finding: bool,
}

impl Msg {
    /// The event can be taken in the state `form`: a heal's slot exists, a
    /// slide leaves the position within its counter, and a helper that
    /// comes back holds a well-formed generator.
    pub open spec fn fits(&self, form: &Form) -> bool {
        match self {
            Msg::SetCure(idx, _) => *idx < CURE_SLOTS,
            Msg::FindNext => form.rng_helper.rng.position + limit_or_default(None) <= u32::MAX,
            Msg::FindResult(Some(helper)) => helper.rng.wf(),
            _ => true,
        }
    }
}

impl Form {
    /// The character's stats are within the game's range and the generator
    /// is well formed.
    pub open spec fn wf(&self) -> bool {
        &&& self.character.in_range()
        &&& self.rng_helper.rng.wf()
    }

    /// The heals entered, up to the first slot that is empty.
    pub open spec fn target(&self) -> Seq<i32> {
        leading_values(self.cure_values@)
    }

    /// Everything but the character and the window's heals is as in
    /// `before`.
    pub open spec fn same_entries(&self, before: &Form) -> bool {
        &&& self.cure_values == before.cure_values
        &&& self.seed_min == before.seed_min
        &&& self.seed_max == before.seed_max
        &&& self.seed_iters == before.seed_iters
        &&& self.finding == before.finding
    }

    /// The state is that of `before` with the character `c`, and the
    /// window's heals worked out anew.
    pub open spec fn recast_from(&self, before: &Form, c: Character) -> bool {
        &&& self.character == c
        &&& self.rng_helper.rng == before.rng_helper.rng
        &&& recast_all(before.rng_helper.values@, self.rng_helper.values@, c)
        &&& self.same_entries(before)
    }

    /// The form as it first stands: the default character, the window of
    /// the default seed, no heal entered, and the search bounds given.
    pub fn new(seed_min: Option<u32>, seed_max: Option<u32>, seed_iters: Option<usize>) -> (form: Form)
        ensures
            form.wf(),
            form.character == (Character { level: 70, magic: 99, spell: Spell::Cure, serenity: true }),
            form.rng_helper.rng.seed == RNG::DEFAULT_SEED,
            form.rng_helper.values@ == filled(form.character, RNG::DEFAULT_SEED, WINDOW_DRAWS as nat),
            form.target() == Seq::<i32>::empty(),
            form.seed_min == seed_min,
            form.seed_max == seed_max,
            form.seed_iters == seed_iters,
            !form.finding,
    {
        let character = Character::new(70, 99, Spell::Cure, true);
        let rng_helper = RNGHelper::new(Some(RNG::DEFAULT_SEED), &character, WINDOW_DRAWS);
        Form {
            character,
            rng_helper,
            cure_values: [None, None, None, None, None],
            seed_min,
            seed_max,
            seed_iters,
            finding: false,
        }
    }

    /// The heals entered, up to the first slot that is empty.
    pub fn get_cure_values(&self) -> (values: Vec<i32>)
        ensures
            values@ == self.target(),
    {
        let mut values: Vec<i32> = Vec::new();
        let mut i: usize = 0;
        assert(self.cure_values@.skip(0) =~= self.cure_values@);
        assert(values@ + self.target() =~= self.target());
        while i < CURE_SLOTS
            invariant
                i <= CURE_SLOTS,
                self.cure_values@.len() == CURE_SLOTS,
                self.target() == values@ + leading_values(self.cure_values@.skip(i as int)),
            decreases CURE_SLOTS - i,
        {
            let ghost rest = self.cure_values@.skip(i as int);
            assert(rest.drop_first() =~= self.cure_values@.skip(i + 1));
            assert(rest[0] == self.cure_values@[i as int]);
            match self.cure_values[i] {
                Some(val) => {
                    let ghost before = values@;
                    values.push(val);
                    assert(values@ + leading_values(rest.drop_first()) =~= before + (seq![val]
                        + leading_values(rest.drop_first())));
                },
                None => {
                    assert(values@ + Seq::<i32>::empty() =~= values@);
                    return values;
                },
            }
            i += 1;
        }
        assert(self.cure_values@.skip(CURE_SLOTS as int).len() == 0);
        assert(values@ + Seq::<i32>::empty() =~= values@);
        values
    }

    /// Takes one event.
    pub fn update(&mut self, msg: Msg) -> (todo: Update)
        requires
            old(self).wf(),
            msg.fits(old(self)),
        ensures
            final(self).wf(),
            match msg {
                Msg::StatChange(name, entry) => match stat_named(name@) {
                    Some(Stat::Level) => {
                        &&& final(self).recast_from(
                            old(self),
                            (Character { level: stat_entered(entry), ..old(self).character }),
                        )
                        &&& todo.render
                        &&& todo.request is None
                    },
                    Some(Stat::Magic) => {
                        &&& final(self).recast_from(
                            old(self),
                            (Character { magic: stat_entered(entry), ..old(self).character }),
                        )
                        &&& todo.render
                        &&& todo.request is None
                    },
                    None => *final(self) == *old(self) && !todo.render && todo.request is None,
                },
                Msg::ToggleSerenity => {
                    &&& final(self).recast_from(
                        old(self),
                        (Character { serenity: !old(self).character.serenity, ..old(self).character }),
                    )
                    &&& todo.render
                    &&& todo.request is None
                },
                Msg::SetSpell(name) => {
                    &&& final(self).recast_from(
                        old(self),
                        (Character { spell: spell_entered(name@), ..old(self).character }),
                    )
                    &&& todo.render
                    &&& todo.request is None
                },
                Msg::SetCure(idx, entry) => {
                    &&& final(self).cure_values@ == old(self).cure_values@.update(idx as int, entry)
                    &&& final(self).character == old(self).character
                    &&& final(self).rng_helper == old(self).rng_helper
                    &&& final(self).seed_min == old(self).seed_min
                    &&& final(self).seed_max == old(self).seed_max
                    &&& final(self).seed_iters == old(self).seed_iters
                    &&& final(self).finding == old(self).finding
                    &&& todo.render
                    &&& todo.request is None
                },
                Msg::FindNext => {
                    let hit = old(self).rng_helper.hit(
                        old(self).character,
                        old(self).target(),
                        limit_or_default(None),
                    );
                    let slides = slides_made(hit, limit_or_default(None));
                    &&& final(self).character == old(self).character
                    &&& final(self).same_entries(old(self))
                    &&& final(self).rng_helper.rng.seed == old(self).rng_helper.rng.seed
                    &&& final(self).rng_helper.rng.position == old(self).rng_helper.rng.position
                        + slides
                    &&& final(self).rng_helper.values@ == old(self).rng_helper.slid(
                        old(self).character,
                        slides,
                    )
                    &&& todo.render == (hit is Some)
                    &&& todo.request is None
                },
                Msg::SeedChange(entry) => {
                    let seed = match entry {
                        Some(s) => s,
                        None => RNG::DEFAULT_SEED,
                    };
                    &&& final(self).character == old(self).character
                    &&& final(self).same_entries(old(self))
                    &&& final(self).rng_helper.rng.seed == seed
                    &&& final(self).rng_helper.rng.position == WINDOW_DRAWS
                    &&& final(self).rng_helper.values@ == filled(
                        old(self).character,
                        seed,
                        WINDOW_DRAWS as nat,
                    )
                    &&& todo.render
                    &&& todo.request is None
                },
                Msg::SeedParamChange(name, entry) => {
                    let param = seed_param_named(name@);
                    &&& final(self).character == old(self).character
                    &&& final(self).rng_helper == old(self).rng_helper
                    &&& final(self).cure_values == old(self).cure_values
                    &&& final(self).finding == old(self).finding
                    &&& final(self).seed_min == if param == Some(SeedParam::Min) {
                        seed_entered(entry)
                    } else {
                        old(self).seed_min
                    }
                    &&& final(self).seed_max == if param == Some(SeedParam::Max) {
                        seed_entered(entry)
                    } else {
                        old(self).seed_max
                    }
                    &&& final(self).seed_iters == if param == Some(SeedParam::Iters) {
                        count_entered(entry)
                    } else {
                        old(self).seed_iters
                    }
                    &&& todo.render == (param is Some)
                    &&& todo.request is None
                },
                Msg::FindSeed => {
                    &&& final(self).character == old(self).character
                    &&& final(self).rng_helper == old(self).rng_helper
                    &&& final(self).cure_values == old(self).cure_values
                    &&& final(self).seed_min == old(self).seed_min
                    &&& final(self).seed_max == old(self).seed_max
                    &&& final(self).seed_iters == old(self).seed_iters
                    &&& if old(self).target().len() == 0 {
                        &&& final(self).finding == old(self).finding
                        &&& !todo.render
                        &&& todo.request is None
                    } else {
                        &&& final(self).finding
                        &&& todo.render
                        &&& todo.request matches Some(Request::FindSeed(params)) && {
                            &&& params.character == old(self).character
                            &&& params.cure_values@ == old(self).target()
                            &&& params.min == match old(self).seed_min {
                                Some(v) => v,
                                None => RNGHelper::SEED_MIN,
                            }
                            &&& params.max == match old(self).seed_max {
                                Some(v) => v,
                                None => RNGHelper::SEED_MAX,
                            }
                            &&& params.iters == match old(self).seed_iters {
                                Some(v) => v,
                                None => ITERS_FALLBACK,
                            }
                        }
                    }
                },
                Msg::FindResult(found) => {
                    &&& final(self).character == old(self).character
                    &&& final(self).cure_values == old(self).cure_values
                    &&& final(self).seed_min == old(self).seed_min
                    &&& final(self).seed_max == old(self).seed_max
                    &&& final(self).seed_iters == old(self).seed_iters
                    &&& !final(self).finding
                    &&& final(self).rng_helper == match found {
                        Some(helper) => helper,
                        None => old(self).rng_helper,
                    }
                    &&& todo.render == (found is Some)
                    &&& todo.request is None
                },
            },
    {
        match msg {
            Msg::StatChange(attr, entry) => {
                let mut value: u8 = match entry {
                    Some(v) => v,
                    None => STAT_FALLBACK,
                };
                value = clamp_stat(value);
                if same_text(attr.as_str(), "level") {
                    self.character.level = value;
                } else if same_text(attr.as_str(), "magic") {
                    self.character.magic = value;
                } else {
                    return Update { render: false, request: None };
                }
                let character = self.character;
                self.rng_helper.apply_character(&character);
                Update { render: true, request: None }
            },
            Msg::ToggleSerenity => {
                self.character.serenity = !self.character.serenity;
                let character = self.character;
                self.rng_helper.apply_character(&character);
                Update { render: true, request: None }
            },
            Msg::SetSpell(spell) => {
                self.character.spell = Spell::from_name_or_default(spell.as_str());
                let character = self.character;
                self.rng_helper.apply_character(&character);
                Update { render: true, request: None }
            },
            Msg::SetCure(idx, val) => {
                self.cure_values[idx] = val;
                Update { render: true, request: None }
            },
            Msg::FindNext => {
                let values = self.get_cure_values();
                let character = self.character;
                let found = self.rng_helper.find_casts(&character, &values, None);
                Update { render: found, request: None }
            },
            Msg::SeedChange(val) => {
                let seed: u32 = match val {
                    Some(s) => s,
                    None => RNG::DEFAULT_SEED,
                };
                let character = self.character;
                self.rng_helper = RNGHelper::new(Some(seed), &character, WINDOW_DRAWS);
                Update { render: true, request: None }
            },
            Msg::SeedParamChange(param, raw) => {
                let seed: Option<u32> = match raw {
                    Some(v) => if v <= u32::MAX as u64 {
                        Some(v as u32)
                    } else {
                        None
                    },
                    None => None,
                };
                if same_text(param.as_str(), "min") {
                    self.seed_min = seed;
                } else if same_text(param.as_str(), "max") {
                    self.seed_max = seed;
                } else if same_text(param.as_str(), "iters") {
                    self.seed_iters = match raw {
                        Some(v) => if v <= usize::MAX as u64 {
                            Some(v as usize)
                        } else {
                            None
                        },
                        None => None,
                    };
                } else {
                    return Update { render: false, request: None };
                }
                Update { render: true, request: None }
            },
            Msg::FindSeed => {
                let values = self.get_cure_values();
                if values.len() == 0 {
                    return Update { render: false, request: None };
                }
                let min: u32 = match self.seed_min {
                    Some(v) => v,
                    None => RNGHelper::SEED_MIN,
                };
                let max: u32 = match self.seed_max {
                    Some(v) => v,
                    None => RNGHelper::SEED_MAX,
                };
                let iters: usize = match self.seed_iters {
                    Some(v) => v,
                    None => ITERS_FALLBACK,
                };
                self.finding = true;
                Update {
                    render: true,
                    request: Some(
                        Request::FindSeed(
                            Params { character: self.character, cure_values: values, min, max, iters },
                        ),
                    ),
                }
            },
            Msg::FindResult(helper) => {
                self.finding = false;
                match helper {
                    Some(h) => {
                        self.rng_helper = h;
                        Update { render: true, request: None }
                    },
                    None => Update { render: false, request: None },
                }
            },
        }
    }
}

} // verus!
