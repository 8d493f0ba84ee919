//! Seedable random number generation for deterministic gameplay.
//!
//! Games draw randomness through [`GameRng`] rather than system entropy so
//! that a recorded seed replays the exact same simulation. [`Xorshift64`] is
//! the concrete generator: its contracts pin every draw down to a pure
//! function of the previous state, which is what makes replays stable.

use vstd::prelude::*;

verus! {

/// State installed when a zero seed is supplied, avoiding the all-zero
/// fixed point of the xorshift permutation.
pub const ZERO_SEED_REPLACEMENT: u64 = 0xDEAD_BEEF_CAFE_BABE;

/// Seed used by [`Xorshift64::default_seed`].
pub const DEFAULT_SEED: u64 = 0x1234_5678_9ABC_DEF0;

/// One step of the xorshift64 permutation: shift triple (13, -7, 17),
/// each result XOR-combined back into the state.
pub open spec fn xorshift_step(x: u64) -> u64 {
    let a = x ^ (x << 13u64);
    let b = a ^ (a >> 7u64);
    b ^ (b << 17u64)
}

/// The state a generator starts from for a given seed: the seed itself,
/// or the fixed replacement when the seed is zero.
pub open spec fn seed_state(seed: u64) -> u64 {
    if seed == 0 {
        ZERO_SEED_REPLACEMENT
    } else {
        seed
    }
}

/// Generator state after `n` steps from the given seed.
pub open spec fn nth_state(seed: u64, n: nat) -> u64
    decreases n,
{
    if n == 0 {
        seed_state(seed)
    } else {
        xorshift_step(nth_state(seed, (n - 1) as nat))
    }
}

/// Two generators whose seeds resolve to the same starting state stay in
/// lockstep forever: the state after any number of steps is identical, so
/// the draw streams are identical. In particular two generators built with
/// the same seed agree on every draw.
pub proof fn lemma_same_seed_same_stream(seed_a: u64, seed_b: u64, n: nat)
    requires
        seed_state(seed_a) == seed_state(seed_b),
    ensures
        nth_state(seed_a, n) == nth_state(seed_b, n),
    decreases n,
{
    if n > 0 {
        lemma_same_seed_same_stream(seed_a, seed_b, (n - 1) as nat);
    }
}

/// The 64-bit value assembled from two 32-bit draws: the first draw is
/// the high word, the second the low word.
pub fn combine_draws(hi: u32, lo: u32) -> (r: u64)
    ensures
        r == ((hi as u64) << 32u64) | (lo as u64),
{
    ((hi as u64) << 32u64) | (lo as u64)
}

/// The mantissa kept from a raw draw: its top 23 of 32 bits, a binary
/// fraction in `[0, 1)` with denominator 2^23.
pub fn unit_bits_of(u: u32) -> (r: u32)
    ensures
        r == u >> 9u32,
        r < 0x0080_0000u32,
{
    proof {
        assert(u >> 9u32 < 0x0080_0000u32) by (bit_vector);
    }
    u >> 9u32
}

/// The value a raw draw buckets to in `[lo, hi)`: `lo` plus the draw
/// reduced modulo the range width. Non-power-of-two widths keep the
/// classic modulo bias by design, for bit-compatibility with replays.
pub fn bucket_i32(u: u32, lo: i32, hi: i32) -> (r: i32)
    requires
        lo < hi,
    ensures
        r as int == lo + ((u as int) % (hi - lo)),
        lo <= r < hi,
{
    let width: u64 = ((hi as i64) - (lo as i64)) as u64;
    let offset: u64 = (u as u64) % width;
    ((lo as i64) + (offset as i64)) as i32
}

/// The index a raw draw selects in a list of the given length: the draw
/// reduced modulo the length.
pub fn index_for(u: u32, len: usize) -> (r: usize)
    requires
        1 <= len,
    ensures
        r as int == (u as int) % (len as int),
        r < len,
{
    (u as usize) % len
}

/// Minimal generator interface for game use.
///
/// Implementations must be seedable and deterministic. The derived draws
/// below are fixed formulas over `next_u32` — stated exactly by
/// [`combine_draws`], [`unit_bits_of`], [`bucket_i32`] and [`index_for`],
/// which the default bodies call — so any implementation yields the
/// documented ranges whatever its raw 32-bit draws are, and degenerate
/// inputs consume no draw at all. The draws whose contracts speak of the
/// generator's state are statically resolved; a `dyn GameRng` still
/// carries the raw draws.
pub trait GameRng {
    /// Return a random `u32`.
    fn next_u32(&mut self) -> u32;

    /// Return a random `u64`, by default [`combine_draws`] applied to two
    /// 32-bit draws: high word first, low word second.
    fn next_u64(&mut self) -> (r: u64) {
        let hi = self.next_u32();
        let lo = self.next_u32();
        combine_draws(hi, lo)
    }

    /// Return [`unit_bits_of`] one 32-bit draw: the mantissa of a binary
    /// fraction in `[0, 1)` with denominator 2^23.
    fn next_unit_bits(&mut self) -> (r: u32)
        ensures
            r < 0x0080_0000u32,
    {
        let d = self.next_u32();
        unit_bits_of(d)
    }

    /// Return a random `i32` in `[lo, hi)`: [`bucket_i32`] applied to one
    /// 32-bit draw.
    ///
    /// An empty or inverted range degrades to `lo` rather than failing,
    /// and consumes no draw: this is a hot-loop library and per-frame
    /// fallibility must not propagate as errors.
    fn range_i32(&mut self, lo: i32, hi: i32) -> (r: i32) where Self: Sized
        ensures
            lo >= hi ==> r == lo && *final(self) == *old(self),
            lo < hi ==> lo <= r < hi,
    {
        if lo >= hi {
            return lo;
        }
        let d = self.next_u32();
        bucket_i32(d, lo, hi)
    }

    /// Return a random index for a slice of the given length —
    /// [`index_for`] applied to one 32-bit draw — or `None` when the
    /// length is zero, consuming no draw.
    fn pick_index(&mut self, len: usize) -> (r: Option<usize>) where Self: Sized
        ensures
            r is None <==> len == 0,
            r matches Some(i) ==> i < len,
            len == 0 ==> *final(self) == *old(self),
    {
        if len == 0 {
            None
        } else {
            let d = self.next_u32();
            Some(index_for(d, len))
        }
    }
}

/// Extension methods that are generic over an element type and therefore
/// not object-safe; kept apart so `dyn GameRng` stays usable.
pub trait GameRngExt: GameRng {
    /// Pick a random element from a slice, at the index of `pick_index`,
    /// or `None` when the slice is empty, consuming no draw.
    fn pick<'a, T>(&mut self, slice: &'a [T]) -> (r: Option<&'a T>) where Self: Sized
        ensures
            r is None <==> slice@.len() == 0,
            r matches Some(e) ==> exists|i: int| 0 <= i < slice@.len() && *e == slice@[i],
            slice@.len() == 0 ==> *final(self) == *old(self),
    {
        match self.pick_index(slice.len()) {
            Some(i) => Some(&slice[i]),
            None => None,
        }
    }
}

impl<R: GameRng> GameRngExt for R {
}

/// Xorshift64 generator: fast, deterministic and portable. Not
/// cryptographically secure, which game logic does not need.
#[derive(Clone, Debug)]
pub struct Xorshift64 {
    state: u64,
}

impl View for Xorshift64 {
    type V = u64;

    /// The abstract value of a generator is its 64-bit state.
    closed spec fn view(&self) -> u64 {
        self.state
    }
}

impl Xorshift64 {
    /// Create a new generator from a seed; a zero seed is silently replaced
    /// by a fixed non-zero constant, never rejected.
    pub fn new(seed: u64) -> (r: Self)
        ensures
            r@ == seed_state(seed),
    {
        let state = if seed == 0 {
            ZERO_SEED_REPLACEMENT
        } else {
            seed
        };
        Xorshift64 { state }
    }

    /// Create a generator with a fixed default seed, useful for tests.
    pub fn default_seed() -> (r: Self)
        ensures
            r@ == seed_state(DEFAULT_SEED),
    {
        Xorshift64::new(DEFAULT_SEED)
    }
}

impl GameRng for Xorshift64 {
    /// Low 32 bits of a full generator step.
    fn next_u32(&mut self) -> (r: u32)
        ensures
            final(self)@ == xorshift_step(old(self)@),
            r == xorshift_step(old(self)@) as u32,
    {
        self.next_u64() as u32
    }

    /// One full generator step: unlike the derived default this advances
    /// the state once and returns all 64 bits of it.
    fn next_u64(&mut self) -> (r: u64)
        ensures
            final(self)@ == xorshift_step(old(self)@),
            r == xorshift_step(old(self)@),
    {
        let mut x = self.state;
        x = x ^ (x << 13u64);
        x = x ^ (x >> 7u64);
        x = x ^ (x << 17u64);
        self.state = x;
        x
    }
}

impl Default for Xorshift64 {
    /// Same generator as [`Xorshift64::default_seed`].
    fn default() -> (r: Self)
        ensures
            r@ == seed_state(DEFAULT_SEED),
    {
        Xorshift64::default_seed()
    }
}

} // verus!
