//! Random numbers for the engine's simulation code, built on a PCG-32
//! generator (xorshift-high plus random rotation over a 64-bit linear
//! congruential state).
//!
//! The generator is deterministic in its 16-byte seed; only `Seed::new`
//! touches the outside world, reading the clock.  Every step is pinned down
//! exactly: the state advance, the 32-bit output permutation, and the
//! integer range reduction.

use vstd::prelude::*;

verus! {

use vstd::arithmetic::div_mod::{lemma_multiply_divide_lt, lemma_div_pos_is_pos};
use vstd::arithmetic::power2::{pow2, lemma2_to64};
use vstd::bits::lemma_u64_shr_is_div;

/// The multiplier of the 64-bit linear congruential state advance.
pub const PCG_MULTIPLIER: u64 = 6364136223846793005;

/// Seed material for the generator: 16 bytes, usually the epoch
/// milliseconds, little endian.
pub struct Seed(pub [u8; 16]);

/// The clock could not be read while making a seed.
#[derive(Clone, Copy, PartialEq, Eq, Structural, Debug)]
pub struct ClockError;

/// A PCG-32 generator: 64 bits of state, an odd per-stream increment.
pub struct Pcg32 {
    state: u64,
    inc: u64,
}

/// The 64-bit state after one linear congruential step.
pub open spec fn pcg_advance(state: u64, inc: u64) -> u64 {
    (((state as int) * (PCG_MULTIPLIER as int) + (inc as int)) % 0x1_0000_0000_0000_0000) as u64
}

/// The 32-bit output drawn from a 64-bit state: xorshift the high bits
/// down, then rotate right by the top five bits.
pub open spec fn pcg_output(state: u64) -> u32 {
    let xorshifted = (((state >> 18) ^ state) >> 27) as u32;
    let rot = ((state >> 59) & 31) as u32;
    let back = if rot == 0 {
        0u32
    } else {
        (32 - rot) as u32
    };
    (xorshifted >> rot) | (xorshifted << back)
}

/// The little-endian 64-bit value of 8 bytes starting at `offset`.
pub open spec fn le_u64(bytes: Seq<u8>, offset: int) -> u64 {
    (bytes[offset] + bytes[offset + 1] * 0x100 + bytes[offset + 2] * 0x1_0000 + bytes[offset + 3]
        * 0x100_0000 + bytes[offset + 4] * 0x1_0000_0000 + bytes[offset + 5] * 0x100_0000_0000
        + bytes[offset + 6] * 0x1_0000_0000_0000 + bytes[offset + 7] * 0x100_0000_0000_0000) as u64
}

/// 256 to the `k`-th power: the place value of byte `k` in a little-endian
/// encoding.
pub open spec fn pow256(k: nat) -> int
    decreases k,
{
    if k == 0 {
        1
    } else {
        256 * pow256((k - 1) as nat)
    }
}

/// Byte `k` of the little-endian encoding of `value`.
pub open spec fn le_byte(value: u128, k: nat) -> u8 {
    (((value as int) / pow256(k)) % 256) as u8
}

impl Pcg32 {
    /// The current 64-bit state.
    pub closed spec fn state_spec(self) -> u64 {
        self.state
    }

    /// The per-stream increment; always odd.
    pub closed spec fn inc_spec(self) -> u64 {
        self.inc
    }

    /// The generator that seeding with `initstate` in stream `initseq`
    /// produces: the standard initialization — advance from zero, add the
    /// seed, advance again.
    pub closed spec fn seeded(initstate: u64, initseq: u64) -> Pcg32 {
        let inc = (initseq << 1) | 1;
        let s1 = pcg_advance(0, inc);
        let s2 = (((s1 as int) + (initstate as int)) % 0x1_0000_0000_0000_0000) as u64;
        Pcg32 { state: pcg_advance(s2, inc), inc }
    }

    /// Seeds from 16 bytes: the first 8 are the state seed, the last 8 pick
    /// the stream, both little endian.
    pub fn new_from_seed(seed: [u8; 16]) -> (pcg: Pcg32)
        ensures
            pcg == Pcg32::seeded(le_u64(seed@, 0), le_u64(seed@, 8)),
    {
        let initstate = Self::read_le_u64(&seed, 0);
        let initseq = Self::read_le_u64(&seed, 8);
        let inc = (initseq << 1) | 1;
        let s1 = Self::advance(0, inc);
        let s2 = (((s1 as u128) + (initstate as u128)) % 0x1_0000_0000_0000_0000) as u64;
        let state = Self::advance(s2, inc);
        Pcg32 { state, inc }
    }

    /// The little-endian 64-bit value of 8 bytes starting at `offset`.
    fn read_le_u64(bytes: &[u8; 16], offset: usize) -> (value: u64)
        requires
            offset + 8 <= 16,
        ensures
            value == le_u64(bytes@, offset as int),
    {
        (bytes[offset] as u64) + (bytes[offset + 1] as u64) * 0x100 + (bytes[offset + 2] as u64)
            * 0x1_0000 + (bytes[offset + 3] as u64) * 0x100_0000 + (bytes[offset + 4] as u64)
            * 0x1_0000_0000 + (bytes[offset + 5] as u64) * 0x100_0000_0000 + (bytes[offset
            + 6] as u64) * 0x1_0000_0000_0000 + (bytes[offset + 7] as u64) * 0x100_0000_0000_0000
    }

    /// One linear congruential step.
    fn advance(state: u64, inc: u64) -> (next: u64)
        ensures
            next == pcg_advance(state, inc),
    {
        let wide = (state as u128) * 6364136223846793005u128 + (inc as u128);
        (wide % 0x1_0000_0000_0000_0000u128) as u64
    }

    /// Draws 32 bits: the output of the current state, then the state
    /// advances.
    pub fn next(&mut self) -> (drawn: u32)
        ensures
            drawn == pcg_output(old(self).state_spec()),
            final(self).state_spec() == pcg_advance(old(self).state_spec(), old(self).inc_spec()),
            final(self).inc_spec() == old(self).inc_spec(),
    {
        let oldstate = self.state;
        self.state = Self::advance(oldstate, self.inc);
        let xorshifted = #[verifier::truncate] ((((oldstate >> 18) ^ oldstate) >> 27) as u32);
        let rot = ((oldstate >> 59) & 31) as u32;
        proof {
            assert((oldstate >> 59) & 31 <= 31) by (bit_vector);
        }
        let back = if rot == 0 {
            0u32
        } else {
            32 - rot
        };
        (xorshifted >> rot) | (xorshifted << back)
    }
}

impl Seed {
    /// A seed from the clock: the milliseconds since the epoch, little
    /// endian (see `from_millis` for the exact encoding).  Fails only when
    /// the clock reads before the epoch.  The bytes depend on the clock, so
    /// no more is promised of them.
    pub fn new() -> (seed: Result<Seed, ClockError>) {
        match unix_millis() {
            Some(millis) => Ok(Seed::from_millis(millis)),
            None => Err(ClockError),
        }
    }

    /// The 16 little-endian bytes of `millis`.
    pub fn from_millis(millis: u128) -> (seed: Seed)
        ensures
            forall|k: nat| k < 16 ==> (#[trigger] seed.0@[k as int]) == le_byte(millis, k),
    {
        let mut bytes: [u8; 16] = [0; 16];
        let mut remaining = millis;
        let mut k: usize = 0;
        while k < 16
            invariant
                k <= 16,
                remaining == (millis as int) / pow256(k as nat),
                forall|j: nat| j < k ==> (#[trigger] bytes@[j as int]) == le_byte(millis, j),
            decreases 16 - k,
        {
            bytes[k] = (remaining % 256) as u8;
            proof {
                lemma_pow256_pos(k as nat);
                vstd::arithmetic::div_mod::lemma_div_denominator(
                    millis as int,
                    pow256(k as nat),
                    256,
                );
            }
            remaining = remaining / 256;
            k = k + 1;
        }
        Seed(bytes)
    }
}

/// Positivity of the byte place values.
proof fn lemma_pow256_pos(k: nat)
    ensures
        pow256(k) >= 1,
    decreases k,
{
    if k > 0 {
        lemma_pow256_pos((k - 1) as nat);
    }
}

/// Relies on std's `SystemTime::now` and `duration_since`: the milliseconds
/// since the Unix epoch, or `None` when the clock reads before the epoch.
/// The value depends on the clock, so nothing is promised of it.
#[verifier::external_body]
fn unix_millis() -> Option<u128> {
    std::time::SystemTime::now().duration_since(std::time::UNIX_EPOCH).ok().map(
        |elapsed| elapsed.as_millis(),
    )
}

/// The engine's random number generator: a PCG-32 stream plus the seed it
/// was built from, kept so a run can be reproduced.
pub struct Rng {
    seed: Seed,
    pcg: Pcg32,
}

/// The sample an integer range draw maps to: scale the low 23 bits of the
/// draw — a fixed-point fraction in [0, 1) — by the width of the range.
/// An empty range returns its single value; a reversed range has no value
/// to return and yields `i32::MIN`.
pub open spec fn range_i_spec(min: i32, max: i32, sample: u32) -> i32 {
    if max < min {
        i32::MIN
    } else if max == min {
        min
    } else {
        ((min as int) + ((max as int) - (min as int)) * ((sample & 0x7fffff) as int)
            / 0x800000) as i32
    }
}

impl Rng {
    /// The seed this generator was built from.
    pub closed spec fn seed_spec(self) -> Seq<u8> {
        self.seed.0@
    }

    /// The generator state.
    pub closed spec fn pcg_spec(self) -> Pcg32 {
        self.pcg
    }

    /// A generator seeded from 16 bytes; the same seed reproduces the same
    /// stream.
    pub fn new(seed: Seed) -> (rng: Rng)
        ensures
            rng.seed_spec() == seed.0@,
            rng.pcg_spec() == Pcg32::seeded(le_u64(seed.0@, 0), le_u64(seed.0@, 8)),
    {
        let pcg = Pcg32::new_from_seed(seed.0);
        Rng { seed, pcg }
    }

    /// The seed this generator was built from.
    pub fn seed(&self) -> (seed: &Seed)
        ensures
            seed.0@ == self.seed_spec(),
    {
        &self.seed
    }

    /// Draws 32 uniform bits.
    pub fn next_u(&mut self) -> (drawn: u32)
        ensures
            drawn == pcg_output(old(self).pcg_spec().state_spec()),
            final(self).pcg_spec() == pcg_advance_of(old(self).pcg_spec()),
            final(self).seed_spec() == old(self).seed_spec(),
    {
        self.pcg.next()
    }

    /// Draws a uniform boolean: the low bit of a draw.
    pub fn next_b(&mut self) -> (drawn: bool)
        ensures
            drawn == ((pcg_output(old(self).pcg_spec().state_spec()) & 1) == 1),
            final(self).pcg_spec() == pcg_advance_of(old(self).pcg_spec()),
            final(self).seed_spec() == old(self).seed_spec(),
    {
        (self.next_u() & 1) == 1
    }

    /// Draws an integer of `min ..= max`: `min` when the range is a single
    /// value, `i32::MIN` when it is reversed, otherwise `min` plus the
    /// scaled fraction of one draw — always within the range.
    pub fn range_i(&mut self, min: i32, max: i32) -> (drawn: i32)
        ensures
            drawn == range_i_spec(min, max, pcg_output(old(self).pcg_spec().state_spec())),
            min < max ==> {
                &&& final(self).pcg_spec() == pcg_advance_of(old(self).pcg_spec())
                &&& min <= drawn < max
            },
            min >= max ==> *final(self) == *old(self),
            final(self).seed_spec() == old(self).seed_spec(),
    {
        if max <= min {
            if max == min {
                return min;
            } else {
                return i32::MIN;
            }
        }
        let sample = self.next_u();
        let fraction = (sample & 0x7fffff) as u64;
        proof {
            assert((sample & 0x7fffff) < 0x800000u32) by (bit_vector);
        }
        let width = ((max as i64) - (min as i64)) as u64;
        proof {
            assert((width as int) * (fraction as int) <= 0xffff_ffff * 0x7fffff) by (
            nonlinear_arith)
                requires
                    width <= 0xffff_ffff,
                    fraction <= 0x7fffff,
            ;
        }
        let product = width * fraction;
        let scaled = product >> 23;
        proof {
            lemma_u64_shr_is_div(product, 23);
            lemma2_to64();
            assert(scaled == (product as int) / 0x800000);
            assert((width as int) * (fraction as int) < (width as int) * 0x800000) by (
            nonlinear_arith)
                requires
                    fraction < 0x800000,
                    width >= 1,
            ;
            lemma_multiply_divide_lt(product as int, 0x800000, width as int);
            lemma_div_pos_is_pos(product as int, 0x800000);
        }
        ((min as i64) + (scaled as i64)) as i32
    }
}

/// The generator after one state advance, increment unchanged.
pub open spec fn pcg_advance_of(pcg: Pcg32) -> Pcg32 {
    pcg_with_state(pcg_advance(pcg.state_spec(), pcg.inc_spec()), pcg.inc_spec())
}

/// A generator value from its two fields.
pub closed spec fn pcg_with_state(state: u64, inc: u64) -> Pcg32 {
    Pcg32 { state, inc }
}

} // verus!
