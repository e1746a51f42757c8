//! Synthetic price data: a minute-bar random walk ending at a fixed time.
use rand::{Rng, SeedableRng};
use rand_chacha::ChaCha8Rng;
use vstd::prelude::*;

use crate::calendar::{
    datetime_format, parse_timestamp, representable, spec_parse_timestamp, sub_minutes,
};

verus! {

#[verifier::external_type_specification]
#[verifier::external_body]
pub struct ExChaCha8Rng(ChaCha8Rng);

/// The value of the last of a run of calls `gen_range(low..high)`, one per
/// element of `ranges` with its bounds and in its order, on a
/// `ChaCha8Rng::seed_from_u64(seed)` with no other call before: `rand_core`
/// documents that a seeded generator gives the same stream on every run and
/// platform, and `gen_range` consumes it as its bounds direct.
pub uninterp spec fn spec_seeded_draw(seed: u64, ranges: Seq<(i32, i32)>) -> i32;

/// A `ChaCha8Rng` seeded from a `u64`, with the seed and the bounds of every
/// draw taken from it so far.
pub struct SeededRng {
    rng: ChaCha8Rng,
    seed: Ghost<u64>,
    ranges: Ghost<Seq<(i32, i32)>>,
}

impl SeededRng {
    /// The seed the generator was made from.
    pub closed spec fn seed(&self) -> u64 {
        self.seed@
    }

    /// The bounds of the draws taken so far, in order.
    pub closed spec fn ranges(&self) -> Seq<(i32, i32)> {
        self.ranges@
    }

    /// Calls `rand_chacha::ChaCha8Rng::seed_from_u64(seed)`: a generator with
    /// that seed and no draw taken.
    #[verifier::external_body]
    pub fn seed_from_u64(seed: u64) -> (r: SeededRng)
        ensures
            r.seed() == seed,
            r.ranges() == Seq::<(i32, i32)>::empty(),
    {
        SeededRng { rng: ChaCha8Rng::seed_from_u64(seed), seed: Ghost(seed), ranges: Ghost(Seq::empty()) }
    }

    /// Calls `rand::Rng::gen_range(low..high)` on the generator. `rand`
    /// documents that the value lies in the half-open range and that the call
    /// panics on an empty range; the value is the next draw of the seeded
    /// stream, named `spec_seeded_draw`.
    #[verifier::external_body]
    pub fn gen_between(&mut self, low: i32, high: i32) -> (r: i32)
        requires
            low < high,
        ensures
            low <= r < high,
            final(self).seed() == old(self).seed(),
            final(self).ranges() == old(self).ranges().push((low, high)),
            r == spec_seeded_draw(old(self).seed(), final(self).ranges()),
    {
        self.rng.gen_range(low..high)
    }
}

/// Synthetic minute bars: row `i` is `i` minutes before 2023-06-30 12:30:00
/// UTC, and moves the price by `price_moves_bps[i]` basis points, the `i`-th
/// draw from -15 to 15 of a generator seeded with 1.
#[derive(Debug)]
pub struct DataFactory {
    pub timestamps: Vec<i64>,
    pub price_moves_bps: Vec<i32>,
}

/// The time of the last bar: 2023-06-30 12:30:00 UTC, as `chrono` parses it.
pub open spec fn data_end() -> Option<i64> {
    spec_parse_timestamp("2023-06-30 12:30:00"@, datetime_format())
}

/// The number of bars made for a requested size.
pub open spec fn series_len(size: i32) -> int {
    if size > 0 {
        size as int
    } else {
        0
    }
}

/// `chrono` can give the time of every bar of a series of `size` bars: the
/// end parses, and the last and the earliest bar are representable.
pub open spec fn series_ok(size: i32) -> bool {
    &&& data_end() is Some
    &&& size > 0 ==> representable(data_end().unwrap() as int) && representable(
        data_end().unwrap() - 60 * (size - 1),
    )
}

/// The bounds of `n` draws from -15 to 15.
pub open spec fn walk_ranges(n: nat) -> Seq<(i32, i32)> {
    Seq::new(n, |_i: int| (-15i32, 16i32))
}

/// The move of bar `i`: the `i`-th draw from -15 to 15 of the generator
/// seeded with 1.
pub open spec fn walk_step(i: int) -> i32 {
    spec_seeded_draw(1, walk_ranges((i + 1) as nat))
}

/// `f` is a series of `size` minute bars ending at `data_end()`, latest first.
pub open spec fn is_series(f: DataFactory, size: i32) -> bool {
    &&& f.timestamps@.len() == series_len(size)
    &&& f.price_moves_bps@.len() == series_len(size)
    &&& forall|i: int|
        0 <= i < series_len(size) ==> #[trigger] f.timestamps@[i] == data_end().unwrap() - 60 * i
    &&& forall|i: int|
        0 <= i < series_len(size) ==> #[trigger] f.price_moves_bps@[i] == walk_step(i) && -15
            <= f.price_moves_bps@[i] <= 15
}

impl DataFactory {
    /// Makes `size` minute bars (none for a size below one), for a size whose
    /// bar times `chrono` can all represent.
    pub fn new(size: i32) -> (r: DataFactory)
        requires
            series_ok(size),
        ensures
            is_series(r, size),
    {
        let mut rng = SeededRng::seed_from_u64(1);
        let mut price_moves_bps: Vec<i32> = Vec::new();
        let mut i: i32 = 0;
        while i < size
            invariant
                0 <= i,
                i <= size || size <= 0,
                size <= 0 ==> i == 0,
                rng.seed() == 1,
                rng.ranges() == walk_ranges(i as nat),
                price_moves_bps@.len() == i,
                forall|j: int|
                    0 <= j < i ==> -15 <= #[trigger] price_moves_bps@[j] <= 15
                        && price_moves_bps@[j] == walk_step(j),
            decreases size - i,
        {
            let step = rng.gen_between(-15, 16);
            assert(rng.ranges() =~= walk_ranges((i + 1) as nat));
            price_moves_bps.push(step);
            i = i + 1;
        }
        let end = parse_timestamp("2023-06-30 12:30:00", "%Y-%m-%d %H:%M:%S").unwrap();
        let mut timestamps: Vec<i64> = Vec::new();
        let mut i: i32 = 0;
        while i < size
            invariant
                0 <= i,
                i <= size || size <= 0,
                size <= 0 ==> i == 0,
                series_ok(size),
                end == data_end().unwrap(),
                timestamps@.len() == i,
                forall|j: int| 0 <= j < i ==> #[trigger] timestamps@[j] == end - 60 * j,
            decreases size - i,
        {
            let t = sub_minutes(end, i as i64).unwrap();
            timestamps.push(t);
            i = i + 1;
        }
        DataFactory { timestamps, price_moves_bps }
    }

    /// Makes `size` minute bars, or `None` where `chrono` cannot represent
    /// the time of the earliest of them.
    pub fn try_new(size: i32) -> (r: Option<DataFactory>)
        ensures
            r is Some <==> series_ok(size),
            r matches Some(f) ==> is_series(f, size),
    {
        let end = match parse_timestamp("2023-06-30 12:30:00", "%Y-%m-%d %H:%M:%S") {
            Some(t) => t,
            None => {
                return None;
            },
        };
        if size > 0 && sub_minutes(end, (size - 1) as i64).is_none() {
            return None;
        }
        Some(DataFactory::new(size))
    }
}

/// The bars do not depend on how many are made: a shorter series is the start
/// of a longer one, and two series of the same size are equal.
pub proof fn law_series_prefix(f: DataFactory, g: DataFactory, n: i32, m: i32)
    requires
        is_series(f, n),
        is_series(g, m),
        series_len(n) <= series_len(m),
    ensures
        f.timestamps@ == g.timestamps@.take(series_len(n)),
        f.price_moves_bps@ == g.price_moves_bps@.take(series_len(n)),
{
    assert(f.timestamps@ =~= g.timestamps@.take(series_len(n)));
    assert(f.price_moves_bps@ =~= g.price_moves_bps@.take(series_len(n)));
}

} // verus!
