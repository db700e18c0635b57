//! The seedable random source used by world generation.
//!
//! All randomness comes from two deterministic generators seeded from one
//! 64-bit value: a uniform stream of 32-bit fixed-point samples, and a
//! weighted leaf-kind sampler (a fast-loaded-dice-roller fed by a fair coin
//! drawn from the second generator).  Both streams are functions of the
//! seed alone, which the ghost model below records: `drawn` counts uniform
//! samples taken and `history` records each leaf-kind draw, so that every
//! value handed out is pinned to a named function of the seed.

use vstd::prelude::*;

use rand::Rng;
use rand::SeedableRng;

verus! {

#[verifier::external_type_specification]
#[verifier::external_body]
pub struct ExStdRng(rand::rngs::StdRng);

#[verifier::external_type_specification]
#[verifier::external_body]
pub struct ExFldrGenerator(fast_loaded_dice_roller::Generator);

/// Holds the fair coin that feeds the dice-roller samplers.  The coin's
/// type, `fast_loaded_dice_roller::rand::RngCoin<StdRng>`, carries a bound
/// on an outside trait that cannot be declared to the verifier, so the
/// whole wrapper struct is opaque; only the trusted methods below touch it.
#[verifier::external_body]
struct CoinBox {
    coin: fast_loaded_dice_roller::rand::RngCoin<rand::rngs::StdRng>,
}

/// The `index`-th 32-bit value drawn from a generator seeded with `seed`,
/// read as a fixed-point fraction in [0, 1).  Named, not defined: it
/// stands for the output stream of rand's `StdRng`, which is a
/// deterministic function of the seed.
pub uninterp spec fn unit_stream(seed: u64, index: nat) -> u32;

/// The leaf-kind index drawn by the weighted sampler of a source seeded
/// with `seed`, after the draws recorded in `history` (one entry per
/// draw: whether it used the deep-leaf weights), when the next draw uses
/// the weights chosen by `deep`.  Named, not defined: it stands for the
/// fast-loaded-dice-roller sampling algorithm, a deterministic function
/// of the coin's seed and the sequence of draws made.
pub uninterp spec fn leaf_stream(seed: u64, history: Seq<bool>, deep: bool) -> usize;

/// The ghost model of a random source: its seed and how much of each
/// stream has been consumed.
pub ghost struct SourceModel {
    pub seed: u64,
    pub drawn: nat,
    pub history: Seq<bool>,
}

/// Relies on rand's `StdRng::seed_from_u64`: builds the deterministic
/// generator whose output `unit_stream`/`leaf_stream` describe.
#[verifier::external_body]
fn seeded_rng(seed: u64) -> rand::rngs::StdRng {
    rand::rngs::StdRng::seed_from_u64(seed)
}

/// Relies on `fast_loaded_dice_roller::Generator::new`: preprocesses a
/// weight list into a sampler.  The bounds keep clear of the documented
/// panics (fewer than two non-zero weights, or weight sums overflowing).
#[verifier::external_body]
fn fldr_generator(weights: &Vec<usize>) -> fast_loaded_dice_roller::Generator
    requires
        2 <= weights@.len() <= 8,
        forall|i: int| 0 <= i < weights@.len() ==> 1 <= #[trigger] weights@[i] <= 100,
{
    fast_loaded_dice_roller::Generator::new(weights.as_slice())
}

/// Relies on `fast_loaded_dice_roller::rand::RngCoin::new`: wraps a
/// generator as a fair coin.
#[verifier::external_body]
fn fldr_coin(rng: rand::rngs::StdRng) -> CoinBox {
    CoinBox { coin: fast_loaded_dice_roller::rand::RngCoin::new(rng) }
}

/// A seedable source of the random values that world generation consumes.
///
/// The executable fields are only ever touched by the trusted methods
/// below, which advance the ghost model in step with the generators, so
/// the model always describes the generators' true state.
pub struct RandomFloats {
    random: rand::rngs::StdRng,
    leaf_before_portal_depth: fast_loaded_dice_roller::Generator,
    leaf_after_portal_depth: fast_loaded_dice_roller::Generator,
    fair_coin: CoinBox,
    model: Ghost<SourceModel>,
}

impl View for RandomFloats {
    type V = SourceModel;

    closed spec fn view(&self) -> SourceModel {
        self.model@
    }
}

impl RandomFloats {
    /// Create a source for a given seed.  The same seed always yields the
    /// same streams of samples.
    pub fn new(seed: u64) -> (r: RandomFloats)
        ensures
            r@ == (SourceModel { seed, drawn: 0, history: Seq::empty() }),
    {
        let mut before: Vec<usize> = Vec::new();
        before.push(9);
        before.push(1);
        let mut after: Vec<usize> = Vec::new();
        after.push(21);
        after.push(2);
        after.push(2);
        let random = seeded_rng(seed);
        let coin_rng = seeded_rng(seed.wrapping_add(1));
        RandomFloats {
            random,
            leaf_before_portal_depth: fldr_generator(&before),
            leaf_after_portal_depth: fldr_generator(&after),
            fair_coin: fldr_coin(coin_rng),
            model: Ghost(SourceModel { seed, drawn: 0, history: Seq::empty() }),
        }
    }

    /// Relies on std's `SystemTime`: seconds since the epoch, as a
    /// time-varying default seed (zero if the clock reads before the
    /// epoch).  Nothing is promised of the value.
    #[verifier::external_body]
    fn time_seed() -> u64 {
        match std::time::SystemTime::now().duration_since(std::time::UNIX_EPOCH) {
            Ok(d) => d.as_secs(),
            Err(_) => 0,
        }
    }

    /// Create a source from a time-based seed.
    pub fn default() -> (r: RandomFloats)
        ensures
            r@.drawn == 0,
            r@.history == Seq::<bool>::empty(),
    {
        RandomFloats::new(RandomFloats::time_seed())
    }

    /// Draw the next uniform sample, as a 32-bit fixed-point fraction of
    /// one (the value stands for `r / 2^32`, uniform in [0, 1)).
    ///
    /// Relies on rand's `StdRng` (ChaCha12) `next_u32`: the values drawn
    /// from a seeded generator are a deterministic stream, named by
    /// [`unit_stream`].
    #[verifier::external_body]
    pub fn samplef(&mut self) -> (r: u32)
        ensures
            final(self)@ == (SourceModel { drawn: old(self)@.drawn + 1, ..old(self)@ }),
            r == unit_stream(old(self)@.seed, old(self)@.drawn),
    {
        self.random.next_u32()
    }

    /// Draw a leaf-kind index: from weights 21/2/2 (colour, portal,
    /// mirror) once the portal depth is reached, else from weights 9/1
    /// (colour, mirror).
    ///
    /// Relies on `fast_loaded_dice_roller::Generator::sample`: the result
    /// indexes the weight list the generator was built from (so it is
    /// below 3, and below 2 for the two-weight list), and is a
    /// deterministic function of the coin's seed and the draws made so
    /// far, named by [`leaf_stream`].
    #[verifier::external_body]
    pub(crate) fn sample_leaf_index(&mut self, depth_reached: bool) -> (r: usize)
        ensures
            final(self)@ == (SourceModel {
                history: old(self)@.history.push(depth_reached),
                ..old(self)@
            }),
            r == leaf_stream(old(self)@.seed, old(self)@.history, depth_reached),
            r < 3,
            !depth_reached ==> r < 2,
    {
        if depth_reached {
            self.leaf_after_portal_depth.sample(&mut self.fair_coin.coin)
        } else {
            self.leaf_before_portal_depth.sample(&mut self.fair_coin.coin)
        }
    }
}

} // verus!
