//! A seeded pseudo-random generator for the deterministic draws of the
//! world core: noise generator seeds, scattered sample points and
//! per-block biome picks.
//!
//! The draws come from `fastrand::Rng`, a wyrand generator whose whole
//! state is one 64-bit word seeded directly by `with_seed` and read back
//! by `get_seed`.  Each draw's value and successor state are pure
//! functions of the state and the resolved bounds, named below, so every
//! sequence of draws is a mathematical function of the seed.

use vstd::prelude::*;

verus! {

#[verifier::external_type_specification]
#[verifier::external_body]
pub struct ExRng(fastrand::Rng);

/// Value and successor state of `fastrand::Rng::i32` drawn on the
/// inclusive range `low..=high` from the given state.
pub uninterp spec fn wyrand_i32(state: u64, low: i32, high: i32) -> (i32, u64);

/// Value and successor state of `fastrand::Rng::u8` drawn on the
/// inclusive range `low..=high` from the given state.
pub uninterp spec fn wyrand_u8(state: u64, low: u8, high: u8) -> (u8, u64);

/// A wyrand generator together with a mirror of its 64-bit state, kept in
/// step with the generator after every draw.
pub struct SeededRng {
    inner: fastrand::Rng,
    state: u64,
}

impl SeededRng {
    /// The mirrored generator state.
    pub closed spec fn state_spec(self) -> u64 {
        self.state
    }

    /// Relies on fastrand::Rng::with_seed: the stored state is the seed
    /// itself.
    #[verifier::external_body]
    pub fn with_seed(seed: u64) -> (r: SeededRng)
        ensures
            r.state_spec() == seed,
    {
        SeededRng { inner: fastrand::Rng::with_seed(seed), state: seed }
    }

    /// Relies on fastrand::Rng::i32 on a half-open range (the value lies
    /// in the range, and value and successor state depend on the state
    /// and the bounds alone) and on fastrand::Rng::get_seed, which hands
    /// back the successor state.
    #[verifier::external_body]
    pub fn next_i32_range(&mut self, low: i32, high: i32) -> (r: i32)
        requires
            low < high,
        ensures
            r == wyrand_i32(old(self).state_spec(), low, (high - 1) as i32).0,
            final(self).state_spec() == wyrand_i32(old(self).state_spec(), low, (high - 1) as i32).1,
            low <= r < high,
    {
        let value = self.inner.i32(low..high);
        self.state = self.inner.get_seed();
        value
    }

    /// Relies on fastrand::Rng::i32 on the full range, which resolves its
    /// bounds to `i32::MIN..=i32::MAX`, and on fastrand::Rng::get_seed,
    /// which hands back the successor state.
    #[verifier::external_body]
    pub fn next_i32_full(&mut self) -> (r: i32)
        ensures
            r == wyrand_i32(old(self).state_spec(), i32::MIN, i32::MAX).0,
            final(self).state_spec() == wyrand_i32(old(self).state_spec(), i32::MIN, i32::MAX).1,
    {
        let value = self.inner.i32(..);
        self.state = self.inner.get_seed();
        value
    }

    /// Relies on fastrand::Rng::u8 on a half-open range (the value lies
    /// in the range, and value and successor state depend on the state
    /// and the bounds alone) and on fastrand::Rng::get_seed, which hands
    /// back the successor state.
    #[verifier::external_body]
    pub fn next_u8_range(&mut self, low: u8, high: u8) -> (r: u8)
        requires
            low < high,
        ensures
            r == wyrand_u8(old(self).state_spec(), low, (high - 1) as u8).0,
            final(self).state_spec() == wyrand_u8(old(self).state_spec(), low, (high - 1) as u8).1,
            low <= r < high,
    {
        let value = self.inner.u8(low..high);
        self.state = self.inner.get_seed();
        value
    }
}

} // verus!
