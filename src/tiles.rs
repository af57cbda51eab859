use vstd::prelude::*;
use rand::{Rng, SeedableRng};
use rand_chacha::ChaCha8Rng;

verus! {

#[verifier::external_type_specification]
#[verifier::external_body]
pub struct ExChaCha8Rng(ChaCha8Rng);

/// The stone variant that the `n`-th draw from 1 to 6 gives, counting from
/// zero, on a generator seeded with `seed` from which only such draws were taken.
pub uninterp spec fn stone_draw(seed: u64, n: nat) -> u16;

/// A seeded generator of stone variants, with the seed and the number of
/// values drawn so far.
struct StoneSource {
    rng: ChaCha8Rng,
    seed: Ghost<u64>,
    drawn: Ghost<nat>,
}

impl StoneSource {
    /// Relies on rand_core's `SeedableRng::seed_from_u64` for `ChaCha8Rng`: a
    /// generator whose stream is fixed by `seed`, nothing drawn from it yet.
    #[verifier::external_body]
    fn seeded(seed: u64) -> (r: StoneSource)
        ensures
            r.seed@ == seed,
            r.drawn@ == 0,
    {
        StoneSource { rng: ChaCha8Rng::seed_from_u64(seed), seed: Ghost(seed), drawn: Ghost(0) }
    }

    /// Relies on rand's `Rng::random_range` over `1..=6`: the value drawn lies
    /// in that inclusive range, which is not empty, so the call does not panic;
    /// and it depends on the seed and the number of earlier draws alone.
    #[verifier::external_body]
    fn draw(&mut self) -> (r: u16)
        ensures
            r == stone_draw(old(self).seed@, old(self).drawn@),
            1 <= r <= 6,
            final(self).seed == old(self).seed,
            final(self).drawn@ == old(self).drawn@ + 1,
    {
        self.rng.random_range(1..=6)
    }
}

/// The tileset index that the cell `i` of a chunk always gets, if it is one of
/// the scattered ore cells; plain stone cells have none.
pub open spec fn fixed_tile(i: int) -> Option<int> {
    if (i + 11) % 31 == 0 {
        Some(13)
    } else if (i + 18) % 43 == 0 {
        Some(14)
    } else if (i + 4) % 62 == 0 {
        Some(11)
    } else if (i + 6) % 23 == 0 {
        Some(16)
    } else {
        None
    }
}

/// The tileset index of cell `i` when the stone drawn for it is `drawn`.
pub open spec fn tile_for(i: int, drawn: int) -> int {
    match fixed_tile(i) {
        Some(t) => t,
        None => drawn,
    }
}

/// The tileset index of cell `i` of a chunk, given the stone variant drawn for it.
pub fn tile_index(i: u32, drawn: u16) -> (r: u16)
    ensures
        r == tile_for(i as int, drawn as int),
{
    let j = i as u64;
    if (j + 11) % 31 == 0 {
        13
    } else if (j + 18) % 43 == 0 {
        14
    } else if (j + 4) % 62 == 0 {
        11
    } else if (j + 6) % 23 == 0 {
        16
    } else {
        drawn
    }
}

/// The tileset indices of the `count` cells of a chunk, from a generator seeded
/// with `seed`: cell `i` gets its fixed ore index, or else the `i`-th stone
/// variant drawn, from 1 to 6. One value is drawn for every cell, ore or not,
/// so the tiles depend on the seed alone.
pub fn generate_tiles(seed: u64, count: u32) -> (r: Vec<u16>)
    ensures
        r.len() == count,
        forall|i: int| 0 <= i < count ==> r@[i] == tile_for(i, #[trigger] stone_draw(seed, i as nat) as int),
        forall|i: int|
            0 <= i < count ==> match #[trigger] fixed_tile(i) {
                Some(t) => r@[i] == t,
                None => 1 <= r@[i] <= 6,
            },
{
    let mut source = StoneSource::seeded(seed);
    let mut tiles: Vec<u16> = Vec::new();
    let mut i: u32 = 0;
    while i < count
        invariant
            i <= count,
            tiles.len() == i,
            source.seed@ == seed,
            source.drawn@ == i,
            forall|k: int| 0 <= k < i ==> tiles@[k] == tile_for(k, #[trigger] stone_draw(seed, k as nat) as int),
            forall|k: int|
                0 <= k < i ==> match #[trigger] fixed_tile(k) {
                    Some(t) => tiles@[k] == t,
                    None => 1 <= tiles@[k] <= 6,
                },
        decreases count - i,
    {
        let drawn = source.draw();
        tiles.push(tile_index(i, drawn));
        i = i + 1;
    }
    tiles
}

} // verus!
