//! Random numbers for the packet techniques.
//!
//! Two generators live here. [`Xoshiro256`] is the fast generator that a
//! thread keeps for itself: it starts unseeded and takes its seed from the
//! operating system at the first draw. [`PerConnRng`] belongs to one
//! connection and mixes fresh entropy into its state every
//! [`RESEED_INTERVAL`] draws.
//!
//! The state of a generator is an ordinary value, so every function says
//! exactly what it computes from that state. Only two things are left open:
//! the seed of a generator that has none yet, and the state right after a
//! reseed. Both come from the operating system.

use vstd::prelude::*;

pub mod conn;
pub mod split;

pub use conn::PerConnRng;
pub use split::{gen_split_mask, mask_to_positions, random_split_positions};

verus! {

// ---------------------------------------------------------------------------
// Entropy
// ---------------------------------------------------------------------------

/// Asks `getrandom::getrandom` for `len` bytes of operating system entropy.
///
/// What is trusted is the length alone. The bytes are whatever the operating
/// system gives; where it gives none, the buffer holds what `getrandom` left
/// in it, and the callers cope with any content.
#[verifier::external_body]
pub(crate) fn os_entropy(len: usize) -> (buf: Vec<u8>)
    ensures
        buf@.len() == len,
{
    let mut buf = vec![0u8; len];
    let _ = getrandom::getrandom(&mut buf);
    buf
}

/// Byte `i` of `x`, counted from the least significant one.
pub open spec fn le_byte(x: u64, i: int) -> u8 {
    ((x >> ((8 * i) as u64)) & 0xff) as u8
}

/// The number whose little-endian bytes stand at `at` in `s`.
pub open spec fn le_u64(s: Seq<u8>, at: int) -> u64 {
    (s[at] as u64) | (s[at + 1] as u64) << 8 | (s[at + 2] as u64) << 16 | (s[at + 3] as u64) << 24
        | (s[at + 4] as u64) << 32 | (s[at + 5] as u64) << 40 | (s[at + 6] as u64) << 48 | (s[at
        + 7] as u64) << 56
}

/// Reads the little-endian number at `at`.
pub(crate) fn read_le_u64(s: &[u8], at: usize) -> (x: u64)
    requires
        at + 8 <= s@.len(),
    ensures
        x == le_u64(s@, at as int),
{
    (s[at] as u64) | (s[at + 1] as u64) << 8 | (s[at + 2] as u64) << 16 | (s[at + 3] as u64) << 24
        | (s[at + 4] as u64) << 32 | (s[at + 5] as u64) << 40 | (s[at + 6] as u64) << 48 | (s[at
        + 7] as u64) << 56
}

/// Takes one byte out of `x`.
pub(crate) fn take_le_byte(x: u64, i: usize) -> (b: u8)
    requires
        i < 8,
    ensures
        b == le_byte(x, i as int),
{
    ((x >> (8 * i as u64)) & 0xff) as u8
}

/// A little-endian number gives back its own bytes.
pub proof fn le_bytes_round_trip(s: Seq<u8>, at: int, i: int)
    requires
        0 <= at,
        at + 8 <= s.len(),
        0 <= i < 8,
    ensures
        le_byte(le_u64(s, at), i) == s[at + i],
{
    let b0 = s[at];
    let b1 = s[at + 1];
    let b2 = s[at + 2];
    let b3 = s[at + 3];
    let b4 = s[at + 4];
    let b5 = s[at + 5];
    let b6 = s[at + 6];
    let b7 = s[at + 7];
    let x = le_u64(s, at);
    assert(x == (b0 as u64) | (b1 as u64) << 8 | (b2 as u64) << 16 | (b3 as u64) << 24 | (
    b4 as u64) << 32 | (b5 as u64) << 40 | (b6 as u64) << 48 | (b7 as u64) << 56 ==> {
        &&& ((x >> 0) & 0xff) as u8 == b0
        &&& ((x >> 8) & 0xff) as u8 == b1
        &&& ((x >> 16) & 0xff) as u8 == b2
        &&& ((x >> 24) & 0xff) as u8 == b3
        &&& ((x >> 32) & 0xff) as u8 == b4
        &&& ((x >> 40) & 0xff) as u8 == b5
        &&& ((x >> 48) & 0xff) as u8 == b6
        &&& ((x >> 56) & 0xff) as u8 == b7
    }) by (bit_vector);
}

/// `x` rotated to the left by `k` bits.
pub open spec fn rotl(x: u64, k: u64) -> u64 {
    (x << k) | (x >> ((64 - k) as u64))
}

pub(crate) fn rotate_left(x: u64, k: u64) -> (r: u64)
    requires
        0 < k < 64,
    ensures
        r == rotl(x, k),
{
    (x << k) | (x >> (64 - k))
}

// ---------------------------------------------------------------------------
// Numbers in a range
// ---------------------------------------------------------------------------

/// How many numbers a 64-bit draw can take.
pub open spec fn draw_count() -> int {
    0x1_0000_0000_0000_0000
}

/// The draw scaled down to `[0, range)`: the integer part of
/// `draw * range / 2^64`.
pub open spec fn scaled(draw: u64, range: int) -> int {
    (draw * range) / draw_count()
}

/// The draw scaled into `[min, max]`.
pub open spec fn scaled_between(draw: u64, min: int, max: int) -> int {
    min + scaled(draw, max - min + 1)
}

pub proof fn scaled_is_below(draw: u64, range: int)
    requires
        0 < range,
    ensures
        0 <= scaled(draw, range) < range,
{
    let d = draw as int;
    let n = draw_count();
    assert(0 <= d * range <= (n - 1) * range) by (nonlinear_arith)
        requires
            0 <= d <= n - 1,
            0 < range,
    ;
    assert((n - 1) * range < n * range) by (nonlinear_arith)
        requires
            0 < range,
    ;
    assert(0 <= (d * range) / n < range) by (nonlinear_arith)
        requires
            0 <= d * range < n * range,
            n == 0x1_0000_0000_0000_0000,
    ;
}

/// Scaled into the range of all 64-bit numbers, a draw is itself.
pub proof fn whole_range_is_unscaled(draw: u64)
    ensures
        scaled(draw, draw_count()) == draw,
        scaled_between(draw, 0, u64::MAX as int) == draw,
{
    let d = draw as int;
    let n = draw_count();
    assert((d * n) / n == d) by (nonlinear_arith)
        requires
            n == 0x1_0000_0000_0000_0000,
    ;
}

/// The smallest draw that is scaled to `r` or more.
pub open spec fn first_draw_for(r: int, range: int) -> int {
    (r * draw_count() + range - 1) / range
}

/// Scaling is as even as a 64-bit draw allows: the draws that give `r` are one
/// interval, and each interval has either `2^64 / range` draws or one more.
pub proof fn scaling_is_even(range: int, r: int)
    requires
        0 < range <= draw_count(),
        0 <= r < range,
    ensures
        forall|draw: u64|
            #[trigger] scaled(draw, range) == r <==> first_draw_for(r, range) <= draw
                < first_draw_for(r + 1, range),
        draw_count() / range <= first_draw_for(r + 1, range) - first_draw_for(r, range)
            <= draw_count() / range + 1,
{
    let n = draw_count();
    let lo = first_draw_for(r, range);
    let hi = first_draw_for(r + 1, range);
    ceil_division(r * n, range);
    ceil_division((r + 1) * n, range);
    assert((r + 1) * n == r * n + n) by (nonlinear_arith);
    assert forall|draw: u64| #[trigger] scaled(draw, range) == r <==> lo <= draw < hi by {
        let d = draw as int;
        let p = d * range;
        assert(scaled(draw, range) == r <==> r * n <= p < r * n + n) by (nonlinear_arith)
            requires
                scaled(draw, range) == p / n,
                n == 0x1_0000_0000_0000_0000,
        ;
        at_least_ceil(d, r * n, range);
        at_least_ceil(d, (r + 1) * n, range);
    }
    let q = n / range;
    assert(q * range <= n < (q + 1) * range) by (nonlinear_arith)
        requires
            q == n / range,
            0 < range,
    ;
    assert(q <= hi - lo <= q + 1) by (nonlinear_arith)
        requires
            0 < range,
            (lo - 1) * range < r * n <= lo * range,
            (hi - 1) * range < r * n + n <= hi * range,
            q * range <= n < (q + 1) * range,
    ;
}

proof fn ceil_division(a: int, b: int)
    requires
        0 < b,
    ensures
        ((a + b - 1) / b - 1) * b < a <= ((a + b - 1) / b) * b,
{
    let c = (a + b - 1) / b;
    assert(c * b <= a + b - 1 < (c + 1) * b) by (nonlinear_arith)
        requires
            c == (a + b - 1) / b,
            0 < b,
    ;
    assert((c - 1) * b == c * b - b && (c + 1) * b == c * b + b) by (nonlinear_arith);
}

proof fn at_least_ceil(d: int, a: int, b: int)
    requires
        0 < b,
    ensures
        a <= d * b <==> (a + b - 1) / b <= d,
{
    ceil_division(a, b);
    let c = (a + b - 1) / b;
    assert(a <= d * b <==> c <= d) by (nonlinear_arith)
        requires
            (c - 1) * b < a <= c * b,
            0 < b,
    ;
}

/// Scales `random` down to `[0, range)` (Lemire's multiplication).
pub fn lemire_debias(random: u64, range: u64) -> (r: u64)
    ensures
        r == scaled(random, range as int),
        0 < range ==> r < range,
{
    proof {
        assert(random * range <= 0xffff_ffff_ffff_ffff * 0xffff_ffff_ffff_ffff) by (nonlinear_arith)
            requires
                random <= 0xffff_ffff_ffff_ffff,
                range <= 0xffff_ffff_ffff_ffff,
        ;
        if 0 < range {
            scaled_is_below(random, range as int);
        } else {
            assert(random * range == 0) by (nonlinear_arith)
                requires
                    range == 0,
            ;
        }
    }
    let m: u128 = (random as u128) * (range as u128);
    assert(m >> 64 == m / 0x1_0000_0000_0000_0000) by (bit_vector);
    (m >> 64) as u64
}

// ---------------------------------------------------------------------------
// xoshiro256++
// ---------------------------------------------------------------------------

/// State of the xoshiro256++ generator. The all-zero state stands for a
/// generator that has no seed yet.
#[derive(Clone, Copy, Debug, PartialEq, Eq, Structural)]
pub struct Xoshiro256 {
    pub s0: u64,
    pub s1: u64,
    pub s2: u64,
    pub s3: u64,
}

/// The state that 32 bytes of entropy stand for. Thirty-two zero bytes, which
/// would stand for no seed, give a fixed seed instead.
pub open spec fn seed_from(entropy: Seq<u8>) -> Xoshiro256 {
    let s = Xoshiro256 {
        s0: le_u64(entropy, 0),
        s1: le_u64(entropy, 8),
        s2: le_u64(entropy, 16),
        s3: le_u64(entropy, 24),
    };
    if s.seeded() {
        s
    } else {
        Xoshiro256 { s0: 0xDEADBEEFCAFEBABE, s1: 0, s2: 0, s3: 0 }
    }
}

/// `s` is a state in which a generator that stands at `before` can make its
/// next draw: `before` itself if it is seeded, any seed otherwise.
pub open spec fn draws_from(before: Xoshiro256, s: Xoshiro256) -> bool {
    s.seeded() && (before.seeded() ==> s == before)
}

impl Xoshiro256 {
    pub open spec fn seeded(self) -> bool {
        self.s0 != 0 || self.s1 != 0 || self.s2 != 0 || self.s3 != 0
    }

    /// The number that this state yields.
    pub open spec fn output(self) -> u64 {
        rotl(self.s0.wrapping_add(self.s3), 23).wrapping_add(self.s0)
    }

    /// The state that follows this one.
    pub open spec fn next(self) -> Xoshiro256 {
        let s2 = self.s2 ^ self.s0;
        let s3 = self.s3 ^ self.s1;
        Xoshiro256 {
            s0: self.s0 ^ s3,
            s1: self.s1 ^ s2,
            s2: s2 ^ (self.s1 << 17),
            s3: rotl(s3, 45),
        }
    }

    /// The state after `n` draws.
    pub open spec fn after(self, n: nat) -> Xoshiro256
        decreases n,
    {
        if n == 0 {
            self
        } else {
            self.after((n - 1) as nat).next()
        }
    }

    /// Byte `k` of the stream that the draws from this state write, eight
    /// little-endian bytes per draw.
    pub open spec fn stream_byte(self, k: int) -> u8 {
        le_byte(self.after((k / 8) as nat).output(), k % 8)
    }

    /// A generator without a seed.
    pub fn new() -> (rng: Xoshiro256)
        ensures
            !rng.seeded(),
    {
        Xoshiro256 { s0: 0, s1: 0, s2: 0, s3: 0 }
    }

    /// Builds the seed that 32 bytes of entropy stand for.
    pub fn from_entropy(entropy: &[u8]) -> (rng: Xoshiro256)
        requires
            entropy@.len() == 32,
        ensures
            rng == seed_from(entropy@),
            rng.seeded(),
    {
        let s0: u64 = read_le_u64(entropy, 0);
        let s1: u64 = read_le_u64(entropy, 8);
        let s2: u64 = read_le_u64(entropy, 16);
        let s3: u64 = read_le_u64(entropy, 24);
        if s0 == 0 && s1 == 0 && s2 == 0 && s3 == 0 {
            Xoshiro256 { s0: 0xDEADBEEFCAFEBABE, s1: 0, s2: 0, s3: 0 }
        } else {
            Xoshiro256 { s0, s1, s2, s3 }
        }
    }

    /// Seeds the generator from the operating system unless it has a seed.
    pub fn seed_if_needed(&mut self)
        ensures
            draws_from(*old(self), *final(self)),
    {
        if self.s0 == 0 && self.s1 == 0 && self.s2 == 0 && self.s3 == 0 {
            *self = fresh_seed_xoshiro();
        }
    }

    /// One xoshiro256++ step.
    pub fn draw(&mut self) -> (r: u64)
        ensures
            r == old(self).output(),
            *final(self) == old(self).next(),
    {
        let result: u64 = rotate_left(self.s0.wrapping_add(self.s3), 23).wrapping_add(self.s0);
        let t: u64 = self.s1 << 17;
        self.s2 = self.s2 ^ self.s0;
        self.s3 = self.s3 ^ self.s1;
        self.s1 = self.s1 ^ self.s2;
        self.s0 = self.s0 ^ self.s3;
        self.s2 = self.s2 ^ t;
        self.s3 = rotate_left(self.s3, 45);
        result
    }
}

/// A seeded generator never falls back into the unseeded state, so it is
/// seeded once in its life.
pub proof fn seeded_forever(s: Xoshiro256, n: nat)
    requires
        s.seeded(),
    ensures
        s.next().seeded(),
        s.after(n).seeded(),
    decreases n,
{
    if n > 0 {
        seeded_forever(s, (n - 1) as nat);
        step_keeps_seed(s.after((n - 1) as nat));
    }
    step_keeps_seed(s);
}

proof fn step_keeps_seed(s: Xoshiro256)
    requires
        s.seeded(),
    ensures
        s.next().seeded(),
{
    let a = s.s0;
    let b = s.s1;
    let c = s.s2;
    let d = s.s3;
    assert((a ^ (d ^ b)) == 0 && (b ^ (c ^ a)) == 0 && ((c ^ a) ^ (b << 17)) == 0 && (((d ^ b)
        << 45) | ((d ^ b) >> 19)) == 0 ==> a == 0 && b == 0 && c == 0 && d == 0) by (bit_vector);
}

/// A seed from operating system entropy, never the unseeded state.
fn fresh_seed_xoshiro() -> (rng: Xoshiro256)
    ensures
        rng.seeded(),
        exists|entropy: Seq<u8>| entropy.len() == 32 && rng == #[trigger] seed_from(entropy),
{
    let entropy = os_entropy(32);
    Xoshiro256::from_entropy(entropy.as_slice())
}

/// The next 64-bit number. The first draw of a generator seeds it.
pub fn random_u64(rng: &mut Xoshiro256) -> (r: u64)
    ensures
        exists|s: Xoshiro256| #[trigger]
            draws_from(*old(rng), s) && r == s.output() && *final(rng) == s.next(),
        final(rng).seeded(),
{
    rng.seed_if_needed();
    let ghost s = *rng;
    let r: u64 = rng.draw();
    proof {
        step_keeps_seed(s);
        assert(draws_from(*old(rng), s));
    }
    r
}

/// The next 32-bit number: the upper half of a draw.
pub fn random_u32(rng: &mut Xoshiro256) -> (r: u32)
    ensures
        exists|s: Xoshiro256| #[trigger]
            draws_from(*old(rng), s) && r == upper_half(s.output()) && *final(rng) == s.next(),
        final(rng).seeded(),
{
    take_upper_half(random_u64(rng))
}

/// The upper 32 bits of `x`.
pub open spec fn upper_half(x: u64) -> u32 {
    (x >> 32) as u32
}

pub(crate) fn take_upper_half(x: u64) -> (r: u32)
    ensures
        r == upper_half(x),
{
    (x >> 32) as u32
}

/// A number in `[min, max]`, both ends included; `min` without a draw where
/// that interval has no second number.
pub fn random_range(rng: &mut Xoshiro256, min: u32, max: u32) -> (r: u32)
    ensures
        min >= max ==> r == min && *final(rng) == *old(rng),
        min < max ==> {
            &&& min <= r <= max
            &&& final(rng).seeded()
            &&& exists|s: Xoshiro256| #[trigger]
                draws_from(*old(rng), s) && r == scaled_between(s.output(), min as int, max as int)
                    && *final(rng) == s.next()
        },
{
    if min >= max {
        return min;
    }
    let range: u64 = (max - min) as u64 + 1;
    min + lemire_debias(random_u64(rng), range) as u32
}

/// A TTL decrease for decoy packets, from 1 to 5.
pub fn random_ttl_offset(rng: &mut Xoshiro256) -> (r: u8)
    ensures
        1 <= r <= 5,
        final(rng).seeded(),
        exists|s: Xoshiro256| #[trigger]
            draws_from(*old(rng), s) && r == scaled_between(s.output(), 1, 5) && *final(rng)
                == s.next(),
{
    random_range(rng, 1, 5) as u8
}

/// A segment size for splitting, from 1 to 100.
pub fn random_split_size(rng: &mut Xoshiro256) -> (r: usize)
    ensures
        1 <= r <= 100,
        final(rng).seeded(),
        exists|s: Xoshiro256| #[trigger]
            draws_from(*old(rng), s) && r == scaled_between(s.output(), 1, 100) && *final(rng)
                == s.next(),
{
    random_range(rng, 1, 100) as usize
}

/// A delay in microseconds, below ten milliseconds.
pub fn random_delay_us(rng: &mut Xoshiro256) -> (r: u64)
    ensures
        r <= 9999,
        final(rng).seeded(),
        exists|s: Xoshiro256| #[trigger]
            draws_from(*old(rng), s) && r == scaled_between(s.output(), 0, 9999) && *final(rng)
                == s.next(),
{
    random_range(rng, 0, 9999) as u64
}

/// A padding size, from 16 to 512 bytes.
pub fn random_padding_size(rng: &mut Xoshiro256) -> (r: usize)
    ensures
        16 <= r <= 512,
        final(rng).seeded(),
        exists|s: Xoshiro256| #[trigger]
            draws_from(*old(rng), s) && r == scaled_between(s.output(), 16, 512) && *final(rng)
                == s.next(),
{
    random_range(rng, 16, 512) as usize
}

/// An IP identification: the lower half of a 32-bit number.
pub fn random_identification(rng: &mut Xoshiro256) -> (r: u16)
    ensures
        final(rng).seeded(),
        exists|s: Xoshiro256| #[trigger]
            draws_from(*old(rng), s) && r == upper_half(s.output()) % 0x1_0000 && *final(rng)
                == s.next(),
{
    let x: u32 = random_u32(rng);
    assert(x as u16 == x % 0x1_0000) by (bit_vector);
    x as u16
}

/// A source port outside the well-known range.
pub fn random_source_port(rng: &mut Xoshiro256) -> (r: u16)
    ensures
        1024 <= r,
        final(rng).seeded(),
        exists|s: Xoshiro256| #[trigger]
            draws_from(*old(rng), s) && r == scaled_between(s.output(), 1024, 65535) && *final(rng)
                == s.next(),
{
    random_range(rng, 1024, 65535) as u16
}

/// How many draws fill `len` bytes.
pub open spec fn draws_for(len: nat) -> nat {
    (len + 7) / 8
}

/// Fills `buf` with the generator's byte stream, eight bytes per draw.
pub fn fill_random_bytes(rng: &mut Xoshiro256, buf: &mut [u8])
    ensures
        final(buf)@.len() == old(buf)@.len(),
        old(buf)@.len() == 0 ==> *final(rng) == *old(rng),
        old(buf)@.len() > 0 ==> exists|s: Xoshiro256|
            {
                &&& #[trigger] draws_from(*old(rng), s)
                &&& forall|k: int|
                    0 <= k < final(buf)@.len() ==> #[trigger] final(buf)@[k] == s.stream_byte(k)
                &&& *final(rng) == s.after(draws_for(old(buf)@.len()))
            },
{
    let len: usize = buf.len();
    if len == 0 {
        return;
    }
    rng.seed_if_needed();
    let ghost s = *rng;
    let mut i: usize = 0;
    while i < len
        invariant
            i <= len,
            len == buf@.len(),
            i % 8 == 0 || i == len,
            *rng == s.after(draws_for(i as nat)),
            forall|k: int| 0 <= k < i ==> #[trigger] buf@[k] == s.stream_byte(k),
        decreases len - i,
    {
        let ghost start: int = i as int;
        let r: u64 = rng.draw();
        assert(r == s.after((start / 8) as nat).output());
        let mut j: usize = 0;
        while j < 8 && i < len
            invariant
                j <= 8,
                i == start + j,
                start % 8 == 0,
                i <= len,
                len == buf@.len(),
                r == s.after((start / 8) as nat).output(),
                forall|k: int| 0 <= k < i ==> #[trigger] buf@[k] == s.stream_byte(k),
            decreases 8 - j,
        {
            buf[i] = take_le_byte(r, j);
            i += 1;
            j += 1;
        }
        assert(draws_for(i as nat) == start / 8 + 1);
    }
    assert(draws_from(*old(rng), s));
}

/// `len` bytes of the generator's byte stream.
pub fn random_bytes(rng: &mut Xoshiro256, len: usize) -> (bytes: Vec<u8>)
    ensures
        bytes@.len() == len,
        len == 0 ==> *final(rng) == *old(rng),
        len > 0 ==> exists|s: Xoshiro256|
            {
                &&& #[trigger] draws_from(*old(rng), s)
                &&& forall|k: int| 0 <= k < len ==> #[trigger] bytes@[k] == s.stream_byte(k)
                &&& *final(rng) == s.after(draws_for(len as nat))
            },
{
    let mut buf: Vec<u8> = vec![0u8; len];
    fill_random_bytes(rng, buf.as_mut_slice());
    buf
}

// ---------------------------------------------------------------------------
// GREASE values (RFC 8701)
// ---------------------------------------------------------------------------

/// The sixteen reserved GREASE values.
pub const GREASE_VALUES: [u16; 16] = [
    0x0A0A, 0x1A1A, 0x2A2A, 0x3A3A, 0x4A4A, 0x5A5A, 0x6A6A, 0x7A7A,
    0x8A8A, 0x9A9A, 0xAAAA, 0xBABA, 0xCACA, 0xDADA, 0xEAEA, 0xFAFA,
];

/// The GREASE value that a 32-bit number selects by its lowest four bits.
pub open spec fn grease_for(x: u32) -> u16 {
    GREASE_VALUES@[(x % 16) as int]
}

/// Looks the GREASE value of `x` up.
pub(crate) fn select_grease(x: u32) -> (g: u16)
    ensures
        g == grease_for(x),
{
    assert(x & 0xF == x % 16) by (bit_vector);
    GREASE_VALUES[(x & 0xF) as usize]
}

/// Every GREASE value has the shape `0x?A?A`: two equal bytes that end in `A`.
pub proof fn grease_has_its_shape(x: u32)
    ensures
        grease_for(x) % 0x100 == grease_for(x) / 0x100,
        grease_for(x) % 0x10 == 0xA,
        GREASE_VALUES@.contains(grease_for(x)),
{
}

/// A GREASE value from the thread's generator.
pub fn random_grease(rng: &mut Xoshiro256) -> (g: u16)
    ensures
        final(rng).seeded(),
        exists|s: Xoshiro256| #[trigger]
            draws_from(*old(rng), s) && g == grease_for(upper_half(s.output())) && *final(rng)
                == s.next(),
        GREASE_VALUES@.contains(g),
{
    let x: u32 = random_u32(rng);
    proof {
        grease_has_its_shape(x);
    }
    select_grease(x)
}

// ---------------------------------------------------------------------------
// Laws
// ---------------------------------------------------------------------------

/// A scaled draw is the integer part of the draw's share of the range.
pub proof fn scaling_is_by_share(draw: u64, range: int)
    requires
        0 <= range,
    ensures
        scaled(draw, range) * 0x1_0000_0000_0000_0000 <= draw * range,
        draw * range < (scaled(draw, range) + 1) * 0x1_0000_0000_0000_0000,
{
    let product: int = draw * range;
    assert(product >= 0) by (nonlinear_arith)
        requires
            product == draw * range,
            0 <= range,
    ;
}

/// A draw scaled into an interval starts from its lower end: the same draw moves
/// with the interval, and a larger draw gives no smaller number.
pub proof fn scaling_moves_with_the_interval(
    draw: u64,
    larger: u64,
    min: int,
    max: int,
    by: int,
)
    requires
        min <= max,
        draw <= larger,
    ensures
        min <= scaled_between(draw, min, max) <= max,
        scaled_between(draw, min + by, max + by) == scaled_between(draw, min, max) + by,
        scaled_between(draw, min, max) <= scaled_between(larger, min, max),
        scaled_between(draw, min, max) == min + scaled(draw, max - min + 1),
{
    let range: int = max - min + 1;
    scaled_is_below(draw, range);
    let a: int = draw * range;
    let b: int = larger * range;
    assert(a <= b) by (nonlinear_arith)
        requires
            a == draw * range,
            b == larger * range,
            draw <= larger,
            0 < range,
    ;
    assert(a / 0x1_0000_0000_0000_0000 <= b / 0x1_0000_0000_0000_0000);
}

/// A little-endian number is the sum of its bytes, each weighed by its place.
pub proof fn le_bytes_are_weighed(s: Seq<u8>, at: int)
    requires
        0 <= at,
        at + 8 <= s.len(),
    ensures
        le_u64(s, at) == s[at] + 0x100 * s[at + 1] + 0x1_0000 * s[at + 2] + 0x100_0000 * s[at + 3]
            + 0x1_0000_0000 * s[at + 4] + 0x100_0000_0000 * s[at + 5] + 0x1_0000_0000_0000 * s[at
            + 6] + 0x100_0000_0000_0000 * s[at + 7],
{
    let b0 = s[at];
    let b1 = s[at + 1];
    let b2 = s[at + 2];
    let b3 = s[at + 3];
    let b4 = s[at + 4];
    let b5 = s[at + 5];
    let b6 = s[at + 6];
    let b7 = s[at + 7];
    assert((b0 as u64) | (b1 as u64) << 8 | (b2 as u64) << 16 | (b3 as u64) << 24 | (b4 as u64)
        << 32 | (b5 as u64) << 40 | (b6 as u64) << 48 | (b7 as u64) << 56 == b0 + 0x100 * b1
        + 0x1_0000 * b2 + 0x100_0000 * b3 + 0x1_0000_0000 * b4 + 0x100_0000_0000 * b5
        + 0x1_0000_0000_0000 * b6 + 0x100_0000_0000_0000 * b7) by (bit_vector);
}

/// Rotating moves the upper bits behind the lower ones: nothing is lost, and
/// rotating on by the rest of the word gives the number back.
pub proof fn rotations_lose_nothing(x: u64, k: u64)
    requires
        0 < k < 64,
    ensures
        rotl(rotl(x, k), (64 - k) as u64) == x,
        rotl(x, 1) == 2 * (x % 0x8000_0000_0000_0000) + x / 0x8000_0000_0000_0000,
        0 < k < 63 ==> rotl(rotl(x, k), 1) == rotl(x, (k + 1) as u64),
{
    let back: u64 = (64 - k) as u64;
    let more: u64 = (k + 1) as u64;
    let rest: u64 = (63 - k) as u64;
    assert((((x << k) | (x >> back)) << back) | (((x << k) | (x >> back)) >> k) == x) by (bit_vector)
        requires
            0 < k < 64,
            back == 64 - k,
    ;
    assert((x << 1) | (x >> 63) == 2 * (x % 0x8000_0000_0000_0000) + x / 0x8000_0000_0000_0000)
        by (bit_vector);
    if k < 63 {
        assert((((x << k) | (x >> back)) << 1) | (((x << k) | (x >> back)) >> 63) == (x << more) | (x
            >> rest)) by (bit_vector)
            requires
                0 < k < 63,
                back == 64 - k,
                more == k + 1,
                rest == 63 - k,
        ;
    }
}

/// A step of the generator is linear: the step from the exclusive-or of two
/// states is the exclusive-or of their steps. So no state is treated apart.
pub proof fn steps_are_linear(a: Xoshiro256, b: Xoshiro256)
    ensures
        ({
            let both = Xoshiro256 {
                s0: a.s0 ^ b.s0,
                s1: a.s1 ^ b.s1,
                s2: a.s2 ^ b.s2,
                s3: a.s3 ^ b.s3,
            };
            &&& both.next().s0 == a.next().s0 ^ b.next().s0
            &&& both.next().s1 == a.next().s1 ^ b.next().s1
            &&& both.next().s2 == a.next().s2 ^ b.next().s2
            &&& both.next().s3 == a.next().s3 ^ b.next().s3
        }),
{
    let (a0, a1, a2, a3) = (a.s0, a.s1, a.s2, a.s3);
    let (b0, b1, b2, b3) = (b.s0, b.s1, b.s2, b.s3);
    assert((a0 ^ b0) ^ ((a3 ^ b3) ^ (a1 ^ b1)) == (a0 ^ (a3 ^ a1)) ^ (b0 ^ (b3 ^ b1))) by (bit_vector);
    assert((a1 ^ b1) ^ ((a2 ^ b2) ^ (a0 ^ b0)) == (a1 ^ (a2 ^ a0)) ^ (b1 ^ (b2 ^ b0))) by (bit_vector);
    assert(((a2 ^ b2) ^ (a0 ^ b0)) ^ ((a1 ^ b1) << 17) == ((a2 ^ a0) ^ (a1 << 17)) ^ ((b2 ^ b0) ^ (b1
        << 17))) by (bit_vector);
    assert((((a3 ^ b3) ^ (a1 ^ b1)) << 45) | (((a3 ^ b3) ^ (a1 ^ b1)) >> 19) == (((a3 ^ a1) << 45) | (
    (a3 ^ a1) >> 19)) ^ (((b3 ^ b1) << 45) | ((b3 ^ b1) >> 19))) by (bit_vector);
}

/// A step loses nothing: from the state behind it, the state in front of it can
/// be told, so two states never fall together.
pub proof fn steps_keep_states_apart(a: Xoshiro256, b: Xoshiro256)
    requires
        a.next() == b.next(),
    ensures
        a == b,
{
    let both = Xoshiro256 {
        s0: a.s0 ^ b.s0,
        s1: a.s1 ^ b.s1,
        s2: a.s2 ^ b.s2,
        s3: a.s3 ^ b.s3,
    };
    steps_are_linear(a, b);
    let (a0, a1, a2, a3) = (a.s0, a.s1, a.s2, a.s3);
    let (b0, b1, b2, b3) = (b.s0, b.s1, b.s2, b.s3);
    let (n0, n1, n2, n3) = (a.next().s0, a.next().s1, a.next().s2, a.next().s3);
    assert(n0 ^ n0 == 0 && n1 ^ n1 == 0 && n2 ^ n2 == 0 && n3 ^ n3 == 0) by (bit_vector);
    if both.seeded() {
        step_keeps_seed(both);
    }
    assert((a0 ^ b0 == 0 ==> a0 == b0) && (a1 ^ b1 == 0 ==> a1 == b1) && (a2 ^ b2 == 0 ==> a2 == b2)
        && (a3 ^ b3 == 0 ==> a3 == b3)) by (bit_vector);
}

/// What a state yields is the sum of its first and its last word, turned by 23
/// bits, plus the first word, all modulo 2^64. The other two words do not show.
pub proof fn outputs_are_turned_sums(s: Xoshiro256)
    ensures
        ({
            let sum: int = (s.s0 + s.s3) % 0x1_0000_0000_0000_0000;
            let turned: int = (sum % 0x200_0000_0000) * 0x80_0000 + sum / 0x200_0000_0000;
            s.output() == (turned + s.s0) % 0x1_0000_0000_0000_0000
        }),
{
    let x: u64 = s.s0.wrapping_add(s.s3);
    assert((x << 23) | (x >> 41) == (x % 0x200_0000_0000) * 0x80_0000 + x / 0x200_0000_0000)
        by (bit_vector);
}

/// The draws from a state after others are the later draws of the whole.
pub proof fn draws_continue(s: Xoshiro256, m: nat, n: nat)
    ensures
        s.after(m + n) == s.after(m).after(n),
        s.after(1) == s.next(),
        s.after(0) == s,
    decreases n,
{
    reveal_with_fuel(Xoshiro256::after, 2);
    if n > 0 {
        draws_continue(s, m, (n - 1) as nat);
        assert((m + n - 1) as nat == m + (n - 1) as nat);
    }
}

/// Thirty-two bytes of entropy are the bytes of the seed, in order, unless all
/// of them are zero.
pub proof fn seeds_hold_their_entropy(entropy: Seq<u8>, i: int)
    requires
        entropy.len() == 32,
        0 <= i < 8,
        exists|k: int| 0 <= k < 32 && #[trigger] entropy[k] != 0,
    ensures
        le_byte(seed_from(entropy).s0, i) == entropy[i],
        le_byte(seed_from(entropy).s1, i) == entropy[8 + i],
        le_byte(seed_from(entropy).s2, i) == entropy[16 + i],
        le_byte(seed_from(entropy).s3, i) == entropy[24 + i],
        seed_from(entropy).seeded(),
{
    le_bytes_round_trip(entropy, 0, i);
    le_bytes_round_trip(entropy, 8, i);
    le_bytes_round_trip(entropy, 16, i);
    le_bytes_round_trip(entropy, 24, i);
    le_bytes_are_weighed(entropy, 0);
    le_bytes_are_weighed(entropy, 8);
    le_bytes_are_weighed(entropy, 16);
    le_bytes_are_weighed(entropy, 24);
    let k = choose|k: int| 0 <= k < 32 && #[trigger] entropy[k] != 0;
    if le_u64(entropy, 0) == 0 && le_u64(entropy, 8) == 0 && le_u64(entropy, 16) == 0 && le_u64(
        entropy,
        24,
    ) == 0 {
        assert(entropy[0] == 0 && entropy[1] == 0 && entropy[2] == 0 && entropy[3] == 0);
        assert(entropy[4] == 0 && entropy[5] == 0 && entropy[6] == 0 && entropy[7] == 0);
        assert(entropy[8] == 0 && entropy[9] == 0 && entropy[10] == 0 && entropy[11] == 0);
        assert(entropy[12] == 0 && entropy[13] == 0 && entropy[14] == 0 && entropy[15] == 0);
        assert(entropy[16] == 0 && entropy[17] == 0 && entropy[18] == 0 && entropy[19] == 0);
        assert(entropy[20] == 0 && entropy[21] == 0 && entropy[22] == 0 && entropy[23] == 0);
        assert(entropy[24] == 0 && entropy[25] == 0 && entropy[26] == 0 && entropy[27] == 0);
        assert(entropy[28] == 0 && entropy[29] == 0 && entropy[30] == 0 && entropy[31] == 0);
        assert(false);
    }
}

/// The sixteen GREASE values are the multiples of 0x1010 above 0x0A0A, chosen by
/// what is left of a number after division by sixteen; a number's upper half is
/// what is left of it without its lower 32 bits.
pub proof fn grease_goes_by_sixteenths(x: u32, draw: u64)
    ensures
        grease_for(x) == 0x0A0A + 0x1010 * (x as int % 16),
        upper_half(draw) == draw as int / 0x1_0000_0000,
{
    assert((draw >> 32) as u32 == draw / 0x1_0000_0000) by (bit_vector);
}

/// As many draws are made for a buffer as fill it, and no more.
pub proof fn draws_fill_the_buffer(len: nat)
    ensures
        8 * draws_for(len) >= len,
        draws_for(len) > 0 ==> 8 * (draws_for(len) - 1) < len,
{
}

/// Byte `i` of a number is its digit of weight 256 to the power of `i`.
pub proof fn le_bytes_are_digits(x: u64)
    ensures
        le_byte(x, 0) == x as int % 256,
        le_byte(x, 1) == x as int / 0x100 % 256,
        le_byte(x, 2) == x as int / 0x1_0000 % 256,
        le_byte(x, 3) == x as int / 0x100_0000 % 256,
        le_byte(x, 4) == x as int / 0x1_0000_0000 % 256,
        le_byte(x, 5) == x as int / 0x100_0000_0000 % 256,
        le_byte(x, 6) == x as int / 0x1_0000_0000_0000 % 256,
        le_byte(x, 7) == x as int / 0x100_0000_0000_0000 % 256,
{
    assert({
        &&& ((x >> 0) & 0xff) as u8 == x % 256
        &&& ((x >> 8) & 0xff) as u8 == x / 0x100 % 256
        &&& ((x >> 16) & 0xff) as u8 == x / 0x1_0000 % 256
        &&& ((x >> 24) & 0xff) as u8 == x / 0x100_0000 % 256
        &&& ((x >> 32) & 0xff) as u8 == x / 0x1_0000_0000 % 256
        &&& ((x >> 40) & 0xff) as u8 == x / 0x100_0000_0000 % 256
        &&& ((x >> 48) & 0xff) as u8 == x / 0x1_0000_0000_0000 % 256
        &&& ((x >> 56) & 0xff) as u8 == x / 0x100_0000_0000_0000 % 256
    }) by (bit_vector);
}

/// The stream of a generator is made of its draws, one after the other, eight
/// bytes each.
pub proof fn streams_are_made_of_draws(s: Xoshiro256, n: nat, i: int)
    requires
        0 <= i < 8,
    ensures
        s.stream_byte(8 * n + i) == le_byte(s.after(n).output(), i),
        s.stream_byte(8 * n + i) == s.after(n).stream_byte(i),
{
    assert((8 * n + i) / 8 == n);
    assert((8 * n + i) % 8 == i);
    draws_continue(s, n, 0);
}

/// A generator that has a seed draws from where it stands; one that has none
/// draws from some seed, which is never the state of all zeros.
pub proof fn seeded_generators_draw_on(before: Xoshiro256, s: Xoshiro256)
    requires
        draws_from(before, s),
    ensures
        before.s0 != 0 || before.s1 != 0 || before.s2 != 0 || before.s3 != 0 ==> s == before,
        s.s0 != 0 || s.s1 != 0 || s.s2 != 0 || s.s3 != 0,
{
}

} // verus!
