//! Random numbers for the control flow of a score (`#RANDOM`, `#SWITCH`).
use core::ops::RangeInclusive;
use rand::RngCore;
use vstd::prelude::*;
use vstd::std_specs::bits::{axiom_u64_leading_zeros, u64_leading_zeros};

verus! {

/// A source of the numbers that `#RANDOM` and `#SWITCH` draw.
///
/// A number outside the requested range is reported by the parser as an error when it is
/// drawn for an active scope.
pub trait Rng: Sized {
    /// Whether a draw from `start..=end` in this state may give `r` and leave the generator
    /// as `after`.
    spec fn gives(&self, start: u64, end: u64, r: u64, after: Self) -> bool;

    /// Draws a number, meant to lie in `range`.
    fn generate(&mut self, range: RangeInclusive<u64>) -> (r: u64)
        ensures
            old(self).gives(range@.start, range@.end, r, *final(self)),
    ;
}

/// The lower bound of an inclusive range (`RangeInclusive::start`).
#[verifier::external_body]
pub(crate) fn range_start(range: &RangeInclusive<u64>) -> (r: u64)
    ensures
        r == range@.start,
{
    *range.start()
}

/// The upper bound of an inclusive range (`RangeInclusive::end`).
#[verifier::external_body]
pub(crate) fn range_end(range: &RangeInclusive<u64>) -> (r: u64)
    ensures
        r == range@.end,
{
    *range.end()
}

/// A generator that hands out the given numbers in turn, whatever the range, for tests.
#[derive(Debug, Clone, PartialEq, Eq, Hash)]
pub struct RngMock<const N: usize>(pub [u64; N]);

impl<const N: usize> Rng for RngMock<N> {
    /// The first number, moved to the end; `0` when there is none.
    open spec fn gives(&self, start: u64, end: u64, r: u64, after: Self) -> bool {
        &&& N == 0 ==> r == 0 && after.0@ == self.0@
        &&& N > 0 ==> r == self.0@[0] && after.0@ == self.0@.drop_first().push(self.0@[0])
    }

    /// Returns the first number and moves it to the end; `0` when there is none.
    fn generate(&mut self, range: RangeInclusive<u64>) -> (r: u64) {
        if N == 0 {
            return 0;
        }
        let first = self.0[0];
        let ghost before = self.0@;
        let mut i: usize = 0;
        while i + 1 < N
            invariant
                N > 0,
                i < N,
                self.0@.len() == N,
                forall|j: int| 0 <= j < i ==> #[trigger] self.0@[j] == before[j + 1],
                forall|j: int| i <= j < N ==> #[trigger] self.0@[j] == before[j],
            decreases N - i,
        {
            let next = self.0[i + 1];
            self.0[i] = next;
            i += 1;
        }
        self.0[N - 1] = first;
        assert(self.0@ =~= before.drop_first().push(before[0]));
        first
    }
}

/// The standard generator of the `rand` crate.
#[verifier::external_type_specification]
#[verifier::external_body]
pub struct ExStdRng(rand::rngs::StdRng);

/// A draw of `rand`'s `RngCore::fill_bytes` on eight bytes, read as a little-endian integer.
/// Nothing is stated of the number: it is random.
#[verifier::external_body]
fn random_u64(rng: &mut rand::rngs::StdRng) -> u64 {
    let mut bytes = [0u8; 8];
    rng.fill_bytes(&mut bytes);
    u64::from_le_bytes(bytes)
}

/// A generator that draws from a generator of the `rand` crate.
pub struct RandRng<R>(pub R);

/// The number of `start..=end` picked by the random number `random`: the start plus
/// `random` modulo the width, all in wrapping `u64` arithmetic (the width saturates at
/// `u64::MAX`); the start itself when the range holds one number.
pub open spec fn spec_pick(start: u64, end: u64, random: u64) -> u64 {
    if start == end {
        start
    } else {
        let width: int = (end - start) % 0x1_0000_0000_0000_0000 + 1;
        let size: int = if width > u64::MAX {
            u64::MAX as int
        } else {
            width
        };
        ((start + (random as int) % size) % 0x1_0000_0000_0000_0000) as u64
    }
}

/// Picks the number of `start..=end` for the random number `random`, as `spec_pick` says;
/// it lies in the range when `start <= end`.
pub fn pick_in_range(start: u64, end: u64, random: u64) -> (r: u64)
    ensures
        r == spec_pick(start, end, random),
        start <= end ==> start <= r <= end,
{
    if start == end {
        return start;
    }
    let range_size = end.wrapping_sub(start).saturating_add(1);
    assert(range_size > 0);
    let offset = random % range_size;
    let r = start.wrapping_add(offset);
    proof {
        if start <= end {
            assert(range_size <= end - start + 1);
            assert(offset <= end - start);
            assert(start + offset <= end);
        }
    }
    r
}

impl Rng for RandRng<rand::rngs::StdRng> {
    /// Some number of the range when it is not empty; the draw is random.
    open spec fn gives(&self, start: u64, end: u64, r: u64, after: Self) -> bool {
        start <= end ==> start <= r <= end
    }

    /// The start of `range` plus a random number below its width.
    fn generate(&mut self, range: RangeInclusive<u64>) -> (r: u64) {
        let start = range_start(&range);
        let end = range_end(&range);
        if start == end {
            return start;
        }
        let random = random_u64(&mut self.0);
        pick_in_range(start, end, random)
    }
}

/// The multiplier of the generator of `java.util.Random`.
pub const JAVA_MULT: u64 = 0x5_DEEC_E66D;

/// The increment of the generator of `java.util.Random`.
pub const JAVA_ADD: u64 = 0xB;

/// The modulus of the generator of `java.util.Random`, `2^48`.
pub const JAVA_MOD: u64 = 0x1_0000_0000_0000;

/// The state after one step of the generator.
#[verifier::opaque]
pub open spec fn java_next_seed(seed: u64) -> u64 {
    ((seed * JAVA_MULT + JAVA_ADD) % (JAVA_MOD as int)) as u64
}

/// What `next(32)` gives from a state: the top 32 bits of the next state, as a signed
/// number.
#[verifier::opaque]
pub open spec fn java_int_of(seed: u64) -> i32 {
    ((seed / 65536) as u32) as i32
}

/// What `next(31)` gives from a state: the top 31 bits of the next state.
#[verifier::opaque]
pub open spec fn java_bits31_of(seed: u64) -> i32 {
    (seed / 131072) as i32
}

/// The remainder of a draw divided by the bound.
#[verifier::opaque]
pub open spec fn java_rem(bits: i32, bound: i32) -> i32 {
    bits % bound
}

/// The most draws that `nextInt(bound)` makes: the period of the generator.
pub const JAVA_MAX_DRAWS: u64 = 0x1_0000_0000_0000;

/// `nextInt(bound)` for a bound that is no power of two: draws until a draw falls in a
/// whole number of copies of `0..bound`, with at most `fuel + 1` draws; returns the state
/// after the last draw and the draw modulo `bound`.
pub open spec fn java_bounded_draw(seed: u64, bound: i32, fuel: nat) -> (u64, i32)
    decreases fuel,
{
    let s1 = java_next_seed(seed);
    let bits = java_bits31_of(s1);
    let val = java_rem(bits, bound);
    if bits - val + (bound - 1) <= i32::MAX || fuel == 0 {
        (s1, val as i32)
    } else {
        java_bounded_draw(s1, bound, (fuel - 1) as nat)
    }
}

/// The remainder of a non-negative division.
fn remainder(a: i32, b: i32) -> (r: i32)
    requires
        a >= 0,
        b > 0,
    ensures
        r == java_rem(a, b),
        0 <= r < b,
        r <= a,
{
    proof {
        reveal(java_rem);
        assert(a % b <= a) by (nonlinear_arith)
            requires
                a >= 0,
                b > 0,
        ;
    }
    a % b
}

/// The remainder of a division.
fn remainder_u64(a: u64, b: u64) -> (r: u64)
    requires
        b > 0,
    ensures
        r == a % b,
        r < b,
{
    a % b
}

/// A generator that gives the numbers of `java.util.Random` with the same seed.
#[derive(Debug, Clone, Copy, Eq, PartialEq, Hash)]
pub struct JavaRandom {
    seed: u64,
}

impl JavaRandom {
    #[verifier::type_invariant]
    spec fn wf(self) -> bool {
        self.seed < JAVA_MOD
    }

    /// The state of the generator.
    pub closed spec fn state(self) -> u64 {
        self.seed
    }

    /// A generator with the given seed, scrambled as Java does.
    pub fn new(seed: i64) -> (r: Self)
        ensures
            r.state() == ((seed as u64) ^ JAVA_MULT) % JAVA_MOD,
    {
        let s = (seed as u64) ^ JAVA_MULT;
        JavaRandom { seed: s % JAVA_MOD }
    }

    /// One step of the generator.
    fn advance(&mut self) -> (r: u64)
        ensures
            final(self).state() == java_next_seed(old(self).state()),
            r == final(self).state(),
    {
        proof {
            use_type_invariant(&*self);
            reveal(java_next_seed);
            assert(self.seed * JAVA_MULT <= JAVA_MOD * JAVA_MULT) by (nonlinear_arith)
                requires
                    self.seed < JAVA_MOD,
            ;
        }
        let t: u128 = (self.seed as u128) * (JAVA_MULT as u128) + (JAVA_ADD as u128);
        let s = (t % (JAVA_MOD as u128)) as u64;
        self.seed = s;
        s
    }

    /// Java's `nextInt()`: any `i32`.
    pub fn next_int(&mut self) -> (r: i32)
        ensures
            final(self).state() == java_next_seed(old(self).state()),
            r == java_int_of(final(self).state()),
    {
        let s = self.advance();
        proof {
            reveal(java_int_of);
        }
        ((s / 65536) as u32) as i32
    }

    /// Java's `next(31)`: a non-negative `i32`.
    fn next31(&mut self) -> (r: i32)
        ensures
            final(self).state() == java_next_seed(old(self).state()),
            r == java_bits31_of(final(self).state()),
            0 <= r,
    {
        proof {
            use_type_invariant(&*self);
        }
        let s = self.advance();
        proof {
            reveal(java_bits31_of);
            use_type_invariant(&*self);
        }
        assert(s / 131072 <= i32::MAX);
        (s / 131072) as i32
    }

    /// Java's `nextInt(bound)`: a number from `0` to `bound - 1`.
    pub fn next_int_bound(&mut self, bound: i32) -> (r: i32)
        requires
            bound > 0,
        ensures
            0 <= r < bound,
            (bound & (bound - 1) as i32) == 0 ==> {
                &&& final(self).state() == java_next_seed(old(self).state())
                &&& r == (bound * java_bits31_of(final(self).state())) / 0x8000_0000
            },
            (bound & (bound - 1) as i32) != 0 ==> (final(self).state(), r) == java_bounded_draw(
                old(self).state(),
                bound,
                (JAVA_MAX_DRAWS - 1) as nat,
            ),
    {
        let m = bound - 1;
        if (bound & m) == 0 {
            let v = self.next31();
            proof {
                assert(0 <= bound * v <= i32::MAX * i32::MAX) by (nonlinear_arith)
                    requires
                        0 < bound <= i32::MAX,
                        0 <= v <= i32::MAX,
                ;
            }
            let p: i64 = (bound as i64) * (v as i64);
            proof {
                assert(p / 0x8000_0000 < bound) by (nonlinear_arith)
                    requires
                        0 < bound,
                        0 <= v < 0x8000_0000,
                        p == bound * v,
                ;
            }
            (p / 0x8000_0000) as i32
        } else {
            let ghost start = self.state();
            let mut fuel: u64 = JAVA_MAX_DRAWS - 1;
            loop
                invariant
                    bound > 0,
                    m == bound - 1,
                    (bound & m) != 0,
                    start == old(self).state(),
                    fuel < JAVA_MAX_DRAWS,
                    java_bounded_draw(self.state(), bound, fuel as nat) == java_bounded_draw(
                        start,
                        bound,
                        (JAVA_MAX_DRAWS - 1) as nat,
                    ),
                decreases fuel,
            {
                let ghost before = self.state();
                let bits = self.next31();
                let val = remainder(bits, bound);
                if (bits as i64) - (val as i64) + (m as i64) <= i32::MAX as i64 || fuel == 0 {
                    assert(java_bounded_draw(before, bound, fuel as nat) == (self.state(), val));
                    return val;
                }
                fuel = fuel - 1;
            }
        }
    }
}

impl Default for JavaRandom {
    fn default() -> (r: Self)
        ensures
            r.state() == JAVA_MULT % JAVA_MOD,
    {
        let r = JavaRandom::new(0);
        assert(((0i64 as u64) ^ JAVA_MULT) == JAVA_MULT) by (bit_vector);
        r
    }
}

/// Java's `nextInt(bound)` from the state `seed`: the state after it and the number drawn.
pub open spec fn java_int_bound(seed: u64, bound: i32) -> (u64, i32) {
    if (bound & (bound - 1) as i32) == 0 {
        let s1 = java_next_seed(seed);
        (s1, ((bound * java_bits31_of(s1)) / 0x8000_0000) as i32)
    } else {
        java_bounded_draw(seed, bound, (JAVA_MAX_DRAWS - 1) as nat)
    }
}

/// The magnitude of a drawn `int`, as `i32::unsigned_abs` gives it.
pub open spec fn java_abs_bits(i: i32) -> u64 {
    if i < 0 {
        (0 - i) as u64
    } else {
        i as u64
    }
}

/// A number below `width` for a range too wide for Java's `int`: the magnitude of one
/// `nextInt()`, and when that is below the width and the width takes more than 32 bits, the
/// magnitude of a second one shifted above it; each reduced modulo the width once it reaches
/// it. The state after the draws comes with the number.
pub open spec fn java_wide_draw(seed: u64, width: u64) -> (u64, u64) {
    let width_bits = 64 - u64_leading_zeros(width);
    let s1 = java_next_seed(seed);
    let b1 = java_abs_bits(java_int_of(s1));
    if b1 >= width {
        (s1, b1 % width)
    } else if width_bits <= 32 {
        (s1, b1)
    } else {
        let s2 = java_next_seed(s1);
        let b2 = java_abs_bits(java_int_of(s2));
        let r = b1 | (b2 << 32u64);
        (s2, if r >= width {
            r % width
        } else {
            r
        })
    }
}

/// A draw from `start..=end` from the state `seed`: the state after it and the number. A
/// range that fits Java's `int` (width and start) takes `nextInt(width)` above the start;
/// another one `java_wide_draw` above the start. An empty range, or one ending at
/// `u64::MAX` whose width does not fit in `u64`, draws nothing and gives the start.
pub open spec fn java_generate(seed: u64, start: u64, end: u64) -> (u64, u64) {
    if end == u64::MAX || start > end {
        (seed, start)
    } else {
        let width = (end + 1 - start) as u64;
        if width <= i32::MAX && start <= i32::MAX {
            let (s, v) = java_int_bound(seed, width as i32);
            (s, (start + v) as u64)
        } else {
            let (s, v) = java_wide_draw(seed, width);
            (s, (start + v) as u64)
        }
    }
}

/// The magnitude of a drawn `int`.
fn abs_bits(i: i32) -> (r: u64)
    ensures
        r == java_abs_bits(i),
        r <= 0x8000_0000,
{
    if i < 0 {
        (0 - (i as i64)) as u64
    } else {
        i as u64
    }
}

impl Rng for JavaRandom {
    /// The draw of `java_generate` from the generator's state, which lies in the range when
    /// the range is not empty.
    open spec fn gives(&self, start: u64, end: u64, r: u64, after: Self) -> bool {
        &&& (after.state(), r) == java_generate(self.state(), start, end)
        &&& start <= end ==> start <= r <= end
    }

    /// A number of `range`: `nextInt(width)` above the start when the range is narrow enough
    /// for Java's `int`, otherwise a combination of `nextInt()` draws reduced modulo the
    /// width. A range whose width does not fit in `u64` gives its start.
    fn generate(&mut self, range: RangeInclusive<u64>) -> (r: u64)
        ensures
            (final(self).state(), r) == java_generate(old(self).state(), range@.start, range@.end),
            range@.start <= range@.end ==> range@.start <= r <= range@.end,
    {
        let start = range_start(&range);
        let end = range_end(&range);
        if end == u64::MAX || end + 1 <= start {
            return start;
        }
        let width: u64 = end + 1 - start;
        if width <= i32::MAX as u64 && start <= i32::MAX as u64 {
            let offset = self.next_int_bound(width as i32) as u64;
            return start + offset;
        }
        proof {
            axiom_u64_leading_zeros(width);
        }
        let width_bits: u32 = 64 - width.leading_zeros();
        let ghost s0 = self.state();
        let b1 = abs_bits(self.next_int());
        let mut result: u64 = b1;
        if result >= width {
            result = remainder_u64(result, width);
        } else if width_bits > 32 {
            let b2 = abs_bits(self.next_int());
            result = b1 | (b2 << 32u64);
            if result >= width {
                result = remainder_u64(result, width);
            }
        }
        assert((self.state(), result) == java_wide_draw(s0, width));
        start + result
    }
}

} // verus!
