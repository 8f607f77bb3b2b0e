//! What holds of the sliding window and of the seed search, proved from
//! their models.

use vstd::prelude::*;
use crate::character::Character;
use crate::rng_helper::{
    advanced, contiguous, filled, first_hit, least_seed, lemma_first_hit_stays, prefix_matches, record,
    seed_hit, window, ValueLens,
};

verus! {

/// Sliding a window that holds a record keeps its length and moves every
/// position on by one for each slide: after `n` slides the oldest record's
/// position is `n` more than it was, and the positions still run up to the
/// generator's own.
pub proof fn lemma_slides_shift_positions(
    w: Seq<ValueLens>,
    c: Character,
    seed: u32,
    pos: nat,
    n: nat,
)
    requires
        w.len() > 0,
        contiguous(w, pos),
        pos + n <= u32::MAX,
    ensures
        advanced(w, c, seed, pos, n).len() == w.len(),
        contiguous(advanced(w, c, seed, pos, n), pos + n),
        advanced(w, c, seed, pos, n)[0].position == w[0].position + n,
    decreases n,
{
    if n > 0 {
        lemma_slides_shift_positions(w, c, seed, pos, (n - 1) as nat);
        let before = advanced(w, c, seed, pos, (n - 1) as nat);
        let after = advanced(w, c, seed, pos, n);
        let fresh = record(c, seed, (pos + n - 1) as nat);
        assert(after == before.drop_first().push(fresh));
        assert(fresh.position == pos + n);
        assert forall|j: int| 0 <= j < after.len() implies (#[trigger] after[j]).position == pos + n
            - after.len() + j + 1 by {
            if j < after.len() - 1 {
                assert(after[j] == before[j + 1]);
            }
        }
    }
}

/// A window filled with the first `len` draws holds, after `k` slides, the
/// `len` draws from draw number `k` on.
pub proof fn lemma_slides_of_filled(c: Character, seed: u32, len: nat, k: nat)
    requires
        len > 0,
    ensures
        advanced(filled(c, seed, len), c, seed, len, k) == window(c, seed, k, len),
    decreases k,
{
    if k == 0 {
        assert(filled(c, seed, len) =~= window(c, seed, 0, len));
    } else {
        lemma_slides_of_filled(c, seed, len, (k - 1) as nat);
        let before = window(c, seed, (k - 1) as nat, len);
        let fresh = record(c, seed, (len + k - 1) as nat);
        assert(before.drop_first().push(fresh) =~= window(c, seed, k, len));
    }
}

/// The least hitting seed lies in the range and hits, and no seed of the
/// range below it hits; where there is none, no seed of the range hits.
pub proof fn lemma_least_seed(c: Character, target: Seq<i32>, min: u32, max: u32, iters: nat)
    ensures
        match least_seed(c, target, min, max, iters) {
            Some(found) => {
                &&& min <= found < max
                &&& seed_hit(c, target, found, iters) is Some
                &&& forall|s: u32| min <= s < found ==> #[trigger] seed_hit(c, target, s, iters) is None
            },
            None => forall|s: u32| min <= s < max ==> #[trigger] seed_hit(c, target, s, iters) is None,
        },
    decreases max - min,
{
    if min < max && seed_hit(c, target, min, iters) is None {
        lemma_least_seed(c, target, (min + 1) as u32, max, iters);
    }
}

/// A search with a target that was read off the window of the seed `s`,
/// filled and slid on once, over a range that holds `s`, finds a seed: `s`
/// itself or a lower one that hits as well.
pub proof fn lemma_search_recovers_seed(
    c: Character,
    s: u32,
    target: Seq<i32>,
    min: u32,
    max: u32,
    iters: nat,
)
    requires
        min <= s < max,
        iters >= 1,
        forall|i: int|
            0 <= i < target.len() ==> target[i] == advanced(
                filled(c, s, target.len()),
                c,
                s,
                target.len(),
                1,
            )[i].spell,
    ensures
        seed_hit(c, target, s, iters) == Some(1nat),
        least_seed(c, target, min, max, iters) matches Some(found) && found <= s && seed_hit(
            c,
            target,
            found,
            iters,
        ) is Some,
{
    let w = filled(c, s, target.len());
    let slid = advanced(w, c, s, target.len(), 1);
    assert(prefix_matches(slid, target));
    assert(first_hit(w, c, s, target.len(), target, 0) is None);
    assert(first_hit(w, c, s, target.len(), target, 1) == Some(1nat));
    lemma_first_hit_stays(w, c, s, target.len(), target, 1, iters);
    lemma_least_seed(c, target, min, max, iters);
}

/// An empty target is matched by the first seed of the range, after its
/// first slide and without a comparison.
pub proof fn lemma_empty_target(c: Character, target: Seq<i32>, min: u32, max: u32, iters: nat)
    requires
        target.len() == 0,
        min < max,
        iters >= 1,
    ensures
        seed_hit(c, target, min, iters) == Some(1nat),
        least_seed(c, target, min, max, iters) == Some(min),
{
    let w = filled(c, min, 0);
    assert(prefix_matches(advanced(w, c, min, 0, 1), target));
    assert(first_hit(w, c, min, 0, target, 0) is None);
    assert(first_hit(w, c, min, 0, target, 1) == Some(1nat));
    lemma_first_hit_stays(w, c, min, 0, target, 1, iters);
}

} // verus!
