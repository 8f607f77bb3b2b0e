//! The search as a background worker is asked for it.

use vstd::prelude::*;
use crate::character::Character;
use crate::rng_helper::{is_hit_of, least_seed, RNGHelper};

verus! {

/// What a seed search is given.
#[derive(Debug)]
pub struct Params {
    pub character: Character,
    pub cure_values: Vec<i32>,
    pub min: u32,
    pub max: u32,
    pub iters: usize,
}

/// What a worker can be asked for.
#[derive(Debug)]
pub enum Request {
    FindSeed(Params),
}

impl Params {
    /// The search can be run: the character can cast, and no position runs
    /// past the end of its counter.
    pub open spec fn wf(&self) -> bool {
        &&& self.character.castable()
        &&& self.cure_values.len() + self.iters <= u32::MAX
    }

    /// Whether the search can be run.
    pub fn runnable(&self) -> (ok: bool)
        ensures
            ok == self.wf(),
    {
        let stats: u16 = self.character.level as u16 + self.character.magic as u16;
        stats <= 255 && self.cure_values.len() <= u32::MAX as usize && self.iters <= u32::MAX as usize
            - self.cure_values.len()
    }
}

/// Answers a request: the helper of the least seed that shows the heals, or
/// nothing where no seed of the range does.
pub fn handle_input(msg: Request) -> (found: Option<RNGHelper>)
    requires
        msg matches Request::FindSeed(params) && params.wf(),
    ensures
        msg matches Request::FindSeed(params) && match found {
            Some(helper) => {
                &&& least_seed(
                    params.character,
                    params.cure_values@,
                    params.min,
                    params.max,
                    params.iters as nat,
                ) == Some(helper.rng.seed)
                &&& is_hit_of(
                    helper,
                    params.character,
                    params.cure_values@,
                    helper.rng.seed,
                    params.iters as nat,
                )
            },
            None => least_seed(
                params.character,
                params.cure_values@,
                params.min,
                params.max,
                params.iters as nat,
            ) is None,
        },
{
    match msg {
        Request::FindSeed(params) => RNGHelper::find_seed(
            &params.character,
            &params.cure_values,
            params.min,
            params.max,
            params.iters,
        ),
    }
}

} // verus!
