//! Seed recovery for the Mersenne-Twister generator behind a role-playing
//! game's healing spells: the generator itself, the heal formula, a sliding
//! window of draws, and the brute-force search that ties them together.

pub mod character;
pub mod form;
pub mod rng;
pub mod rng_helper;
pub mod rounding;
pub mod search_lemmas;
pub mod spell;
pub mod worker;
