use rand::Rng;
use rand::rngs::StdRng;
use rand_chacha::ChaCha8Rng;
use vstd::prelude::*;

verus! {

/// rand's standard seedable generator, carried as an opaque value.
#[verifier::external_type_specification]
#[verifier::external_body]
pub struct ExStdRng(StdRng);

/// rand_chacha's eight-round ChaCha generator, carried as an opaque value.
#[verifier::external_type_specification]
#[verifier::external_body]
pub struct ExChaCha8Rng(ChaCha8Rng);

/// The random stream that a round draws from: every loadout, item draw and randomized item
/// effect takes its values from it, in a fixed order, so a seeded source replays a match.
pub trait RandomSource {
    /// A value drawn uniformly from `low..high`.
    fn index_in(&mut self, low: usize, high: usize) -> (r: usize)
        requires
            low < high,
        ensures
            low <= r < high;

    /// A health value drawn uniformly from `low..high`.
    fn health_in(&mut self, low: i32, high: i32) -> (r: i32)
        requires
            low < high,
        ensures
            low <= r < high;

    /// A fair coin.
    fn coin(&mut self) -> bool;
}

impl RandomSource for StdRng {
    fn index_in(&mut self, low: usize, high: usize) -> (r: usize) {
        std_index_in(self, low, high)
    }

    fn health_in(&mut self, low: i32, high: i32) -> (r: i32) {
        std_health_in(self, low, high)
    }

    fn coin(&mut self) -> bool {
        std_coin(self)
    }
}

impl RandomSource for ChaCha8Rng {
    fn index_in(&mut self, low: usize, high: usize) -> (r: usize) {
        chacha_index_in(self, low, high)
    }

    fn health_in(&mut self, low: i32, high: i32) -> (r: i32) {
        chacha_health_in(self, low, high)
    }

    fn coin(&mut self) -> bool {
        chacha_coin(self)
    }
}

/// Relies on rand::Rng::gen_range for `usize` on `StdRng`: a value in `low..high`; it panics
/// only when `low >= high`.
#[verifier::external_body]
fn std_index_in(rng: &mut StdRng, low: usize, high: usize) -> (r: usize)
    requires
        low < high,
    ensures
        low <= r < high,
{
    rng.gen_range(low, high)
}

/// Relies on rand::Rng::gen_range for `i32` on `StdRng`: a value in `low..high`; it panics
/// only when `low >= high`.
#[verifier::external_body]
fn std_health_in(rng: &mut StdRng, low: i32, high: i32) -> (r: i32)
    requires
        low < high,
    ensures
        low <= r < high,
{
    rng.gen_range(low, high)
}

/// Relies on rand::Rng::gen_ratio on `StdRng`: true with odds one in two (the same draw as
/// `gen_bool(0.5)`); it panics only on a ratio above one or a zero denominator.
#[verifier::external_body]
fn std_coin(rng: &mut StdRng) -> bool {
    rng.gen_ratio(1, 2)
}

/// Relies on rand::Rng::gen_range for `usize` on `ChaCha8Rng`: a value in `low..high`; it panics
/// only when `low >= high`.
#[verifier::external_body]
fn chacha_index_in(rng: &mut ChaCha8Rng, low: usize, high: usize) -> (r: usize)
    requires
        low < high,
    ensures
        low <= r < high,
{
    rng.gen_range(low, high)
}

/// Relies on rand::Rng::gen_range for `i32` on `ChaCha8Rng`: a value in `low..high`; it panics
/// only when `low >= high`.
#[verifier::external_body]
fn chacha_health_in(rng: &mut ChaCha8Rng, low: i32, high: i32) -> (r: i32)
    requires
        low < high,
    ensures
        low <= r < high,
{
    rng.gen_range(low, high)
}

/// Relies on rand::Rng::gen_ratio on `ChaCha8Rng`: true with odds one in two (the same draw as
/// `gen_bool(0.5)`); it panics only on a ratio above one or a zero denominator.
#[verifier::external_body]
fn chacha_coin(rng: &mut ChaCha8Rng) -> bool {
    rng.gen_ratio(1, 2)
}

} // verus!
