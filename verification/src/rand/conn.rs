//! The generator of one connection.

use super::{
    lemire_debias, os_entropy, read_le_u64, rotate_left, select_grease, take_le_byte,
    take_upper_half, GREASE_VALUES,
};
use crate::text::append_decimal;
use crate::{rand, text};
use vstd::prelude::*;
use vstd::string::*;

verus! {

/// The number of draws between two reseeds.
pub const RESEED_INTERVAL: u64 = 8192;

/// The generator of one connection: an xorshift generator of two words that is
/// reseeded from the operating system every [`RESEED_INTERVAL`] draws.
pub struct PerConnRng {
    word0: u64,
    word1: u64,
    counter: u64,
}

/// The two words of the state.
pub type ConnState = (u64, u64);

/// The hash that spreads a seed over 64 bits.
pub open spec fn mixed(x: u64) -> u64 {
    let a = x.wrapping_add(0x9E3779B97F4A7C15);
    let b = (a ^ (a >> 30)).wrapping_mul(0xBF58476D1CE4E5B9);
    let c = (b ^ (b >> 27)).wrapping_mul(0x94D049BB133111EB);
    c ^ (c >> 31)
}

/// The number that a state yields.
pub open spec fn conn_output(state: ConnState) -> u64 {
    state.0.wrapping_mul(0x517CC1B727220A95)
}

/// The state that follows.
pub open spec fn conn_next(state: ConnState) -> ConnState {
    let a = state.0 ^ (state.0 << 23);
    let b = a ^ (a >> 17);
    (state.1, b ^ state.1 ^ (state.1 >> 26))
}

/// The state of a new connection: its number, two words of entropy, and
/// nothing else.
pub open spec fn conn_seed(conn_id: u64, entropy: u64, flow: u64) -> ConnState {
    let seed = mixed(entropy ^ conn_id ^ rand::rotl(flow, 17));
    (seed, mixed(seed.wrapping_add(0x9E3779B97F4A7C15)))
}

/// The state with fresh entropy mixed in; a word that would become zero gets a
/// fixed value.
pub open spec fn reseeded(state: ConnState, fresh: ConnState) -> ConnState {
    let a = state.0 ^ fresh.0;
    let b = state.1 ^ fresh.1;
    (
        if a == 0 {
            0xDEADBEEFCAFEF00D
        } else {
            a
        },
        if b == 0 {
            0x0123456789ABCDEF
        } else {
            b
        },
    )
}

/// Draw number `call` starts with a reseed.
pub open spec fn reseed_due(call: u64) -> bool {
    call % RESEED_INTERVAL == 0
}

/// `used` is a state from which draw number `call` can be made when the
/// generator stands at `before`: `before` itself, or what some fresh entropy
/// makes of it where a reseed is due.
pub open spec fn conn_draws_from(before: ConnState, call: u64, used: ConnState) -> bool {
    if reseed_due(call) {
        exists|fresh: ConnState| used == #[trigger] reseeded(before, fresh)
    } else {
        used == before
    }
}

/// `used` lists the states from which consecutive draws are made by a
/// generator that stands at `before` after `calls` draws.
pub open spec fn conn_draws(before: ConnState, calls: u64, used: Seq<ConnState>) -> bool {
    forall|i: int|
        0 <= i < used.len() ==> conn_draws_from(
            if i == 0 {
                before
            } else {
                conn_next(used[i - 1])
            },
            #[trigger] call_number(calls, i),
            used[i],
        )
}

/// The number of the draw that `i` draws precede.
pub open spec fn call_number(calls: u64, i: int) -> u64 {
    ((calls + i + 1) % rand::draw_count()) as u64
}

/// Where the generator stands after the draws from `used`.
pub open spec fn conn_after(before: ConnState, used: Seq<ConnState>) -> ConnState {
    if used.len() == 0 {
        before
    } else {
        conn_next(used.last())
    }
}

/// The hash that spreads a seed over 64 bits (splitmix64).
pub fn splitmix64(x: u64) -> (r: u64)
    ensures
        r == mixed(x),
{
    let mut z: u64 = x.wrapping_add(0x9E3779B97F4A7C15);
    z = (z ^ (z >> 30)).wrapping_mul(0xBF58476D1CE4E5B9);
    z = (z ^ (z >> 27)).wrapping_mul(0x94D049BB133111EB);
    z ^ (z >> 31)
}

impl PerConnRng {
    /// The state of the generator.
    pub closed spec fn state(self) -> ConnState {
        (self.word0, self.word1)
    }

    /// The number of draws made so far, modulo 2^64.
    pub closed spec fn calls(self) -> u64 {
        self.counter
    }

    /// The generator of a connection, from two words of entropy.
    pub fn from_entropy(conn_id: u64, entropy: u64, flow: u64) -> (rng: PerConnRng)
        ensures
            rng.state() == conn_seed(conn_id, entropy, flow),
            rng.calls() == 0,
    {
        let seed: u64 = splitmix64(entropy ^ conn_id ^ rotate_left(flow, 17));
        PerConnRng {
            word0: seed,
            word1: splitmix64(seed.wrapping_add(0x9E3779B97F4A7C15)),
            counter: 0,
        }
    }

    /// The generator of the connection `conn_id`, seeded from the operating
    /// system. The number should cover both addresses and both ports.
    pub fn new(conn_id: u64) -> (rng: PerConnRng)
        ensures
            exists|entropy: u64, flow: u64|
                rng.state() == #[trigger] conn_seed(conn_id, entropy, flow),
            rng.calls() == 0,
    {
        let buf = os_entropy(16);
        let entropy: u64 = read_le_u64(buf.as_slice(), 0);
        let flow: u64 = read_le_u64(buf.as_slice(), 8);
        PerConnRng::from_entropy(conn_id, entropy, flow)
    }

    /// Mixes two fresh words into the state.
    pub fn reseed_with(&mut self, fresh0: u64, fresh1: u64)
        ensures
            final(self).state() == reseeded(old(self).state(), (fresh0, fresh1)),
            final(self).calls() == old(self).calls(),
    {
        self.word0 = self.word0 ^ fresh0;
        self.word1 = self.word1 ^ fresh1;
        if self.word0 == 0 {
            self.word0 = 0xDEADBEEFCAFEF00D;
        }
        if self.word1 == 0 {
            self.word1 = 0x0123456789ABCDEF;
        }
    }

    fn reseed(&mut self)
        ensures
            exists|fresh: ConnState|
                final(self).state() == #[trigger] reseeded(old(self).state(), fresh),
            final(self).calls() == old(self).calls(),
    {
        let buf = os_entropy(16);
        let fresh0: u64 = read_le_u64(buf.as_slice(), 0);
        let fresh1: u64 = read_le_u64(buf.as_slice(), 8);
        self.reseed_with(fresh0, fresh1);
        assert(self.state() == reseeded(old(self).state(), (fresh0, fresh1)));
    }

    /// The next 64-bit number.
    pub fn next_u64(&mut self) -> (r: u64)
        ensures
            final(self).calls() == old(self).calls().wrapping_add(1),
            exists|used: ConnState| #[trigger]
                conn_draws_from(old(self).state(), final(self).calls(), used) && r == conn_output(
                    used,
                ) && final(self).state() == conn_next(used),
    {
        self.counter = self.counter.wrapping_add(1);
        if self.counter % RESEED_INTERVAL == 0 {
            self.reseed();
        }
        let ghost used = self.state();
        assert(conn_draws_from(old(self).state(), self.counter, used));
        let mut s1: u64 = self.word0;
        let s0: u64 = self.word1;
        let result: u64 = s1.wrapping_mul(0x517CC1B727220A95);
        self.word0 = s0;
        s1 = s1 ^ (s1 << 23);
        s1 = s1 ^ (s1 >> 17);
        s1 = s1 ^ s0;
        s1 = s1 ^ (s0 >> 26);
        self.word1 = s1;
        result
    }

    /// The next 32-bit number: the upper half of a draw.
    pub fn next_u32(&mut self) -> (r: u32)
        ensures
            final(self).calls() == old(self).calls().wrapping_add(1),
            exists|used: ConnState| #[trigger]
                conn_draws_from(old(self).state(), final(self).calls(), used) && r
                    == rand::upper_half(conn_output(used)) && final(self).state() == conn_next(used),
    {
        take_upper_half(self.next_u64())
    }

    /// A number in `[0, range)`; zero without a draw where `range` is zero.
    pub fn next_unbiased(&mut self, range: u64) -> (r: u64)
        ensures
            range == 0 ==> r == 0 && *final(self) == *old(self),
            range > 0 ==> {
                &&& r < range
                &&& final(self).calls() == old(self).calls().wrapping_add(1)
                &&& exists|used: ConnState| #[trigger]
                    conn_draws_from(old(self).state(), final(self).calls(), used) && r
                        == rand::scaled(conn_output(used), range as int) && final(self).state()
                        == conn_next(used)
            },
    {
        if range == 0 {
            return 0;
        }
        lemire_debias(self.next_u64(), range)
    }

    /// A number in `[min, max]`, both ends included; `min` without a draw where
    /// that interval has no second number.
    pub fn next_range(&mut self, min: u64, max: u64) -> (r: u64)
        ensures
            min >= max ==> r == min && *final(self) == *old(self),
            min < max ==> {
                &&& min <= r <= max
                &&& final(self).calls() == old(self).calls().wrapping_add(1)
                &&& exists|used: ConnState| #[trigger]
                    conn_draws_from(old(self).state(), final(self).calls(), used) && r
                        == rand::scaled_between(conn_output(used), min as int, max as int)
                        && final(self).state() == conn_next(used)
            },
    {
        if min >= max {
            return min;
        }
        if max - min == u64::MAX {
            // Every draw is in the interval, and is scaled to itself.
            let draw: u64 = self.next_u64();
            proof {
                rand::whole_range_is_unscaled(draw);
            }
            return draw;
        }
        let range: u64 = max - min + 1;
        min + self.next_unbiased(range)
    }

    /// Fills `buf`, eight little-endian bytes per draw.
    pub fn fill_bytes(&mut self, buf: &mut [u8])
        ensures
            final(buf)@.len() == old(buf)@.len(),
            final(self).calls() == (old(self).calls() + rand::draws_for(old(buf)@.len()))
                % rand::draw_count(),
            exists|used: Seq<ConnState>|
                {
                    &&& #[trigger] conn_draws(old(self).state(), old(self).calls(), used)
                    &&& used.len() == rand::draws_for(old(buf)@.len())
                    &&& final(self).state() == conn_after(old(self).state(), used)
                    &&& forall|k: int|
                        0 <= k < final(buf)@.len() ==> #[trigger] final(buf)@[k] == rand::le_byte(
                            conn_output(used[k / 8]),
                            k % 8,
                        )
                },
    {
        let len: usize = buf.len();
        let ghost mut used: Seq<ConnState> = Seq::empty();
        let mut i: usize = 0;
        while i < len
            invariant
                i <= len,
                len == buf@.len(),
                i % 8 == 0 || i == len,
                used.len() == rand::draws_for(i as nat),
                conn_draws(old(self).state(), old(self).calls(), used),
                self.state() == conn_after(old(self).state(), used),
                self.calls() == (old(self).calls() + used.len()) % rand::draw_count(),
                forall|k: int|
                    0 <= k < i ==> #[trigger] buf@[k] == rand::le_byte(
                        conn_output(used[k / 8]),
                        k % 8,
                    ),
            decreases len - i,
        {
            let ghost start: int = i as int;
            let ghost before = *self;
            let ghost earlier = used;
            let r: u64 = self.next_u64();
            proof {
                let state = choose|state: ConnState| #[trigger]
                    conn_draws_from(before.state(), self.calls(), state) && r == conn_output(state)
                        && self.state() == conn_next(state);
                used = used.push(state);
                assert(self.calls() == call_number(old(self).calls(), earlier.len() as int));
                draws_extend(old(self).state(), old(self).calls(), earlier, state);
            }
            let mut j: usize = 0;
            while j < 8 && i < len
                invariant
                    j <= 8,
                    i == start + j,
                    start % 8 == 0,
                    i <= len,
                    len == buf@.len(),
                    used.len() == start / 8 + 1,
                    r == conn_output(used[start / 8]),
                    forall|k: int|
                        0 <= k < i ==> #[trigger] buf@[k] == rand::le_byte(
                            conn_output(used[k / 8]),
                            k % 8,
                        ),
                decreases 8 - j,
            {
                buf[i] = take_le_byte(r, j);
                i += 1;
                j += 1;
            }
        }
    }

    /// A GREASE value.
    pub fn pick_grease(&mut self) -> (g: u16)
        ensures
            final(self).calls() == old(self).calls().wrapping_add(1),
            exists|used: ConnState| #[trigger]
                conn_draws_from(old(self).state(), final(self).calls(), used) && g
                    == rand::grease_for(rand::upper_half(conn_output(used)))
                    && final(self).state() == conn_next(used),
            GREASE_VALUES@.contains(g),
    {
        let x: u32 = self.next_u32();
        proof {
            rand::grease_has_its_shape(x);
        }
        select_grease(x)
    }

    /// Four GREASE values, for the cipher suites, the extensions, the groups
    /// and the versions of one connection.
    #[verifier::spinoff_prover]
    pub fn generate_grease_set(&mut self) -> (set: (u16, u16, u16, u16))
        ensures
            final(self).calls() == (old(self).calls() + 4) % rand::draw_count(),
            exists|used: Seq<ConnState>|
                {
                    &&& #[trigger] conn_draws(old(self).state(), old(self).calls(), used)
                    &&& used.len() == 4
                    &&& final(self).state() == conn_after(old(self).state(), used)
                    &&& set.0 == rand::grease_for(rand::upper_half(conn_output(used[0])))
                    &&& set.1 == rand::grease_for(rand::upper_half(conn_output(used[1])))
                    &&& set.2 == rand::grease_for(rand::upper_half(conn_output(used[2])))
                    &&& set.3 == rand::grease_for(rand::upper_half(conn_output(used[3])))
                },
            GREASE_VALUES@.contains(set.0),
            GREASE_VALUES@.contains(set.1),
            GREASE_VALUES@.contains(set.2),
            GREASE_VALUES@.contains(set.3),
    {
        let ghost s0 = *self;
        let cipher: u16 = self.pick_grease();
        let ghost s1 = *self;
        assert(grease_step(s0, s1, cipher)) by {
            reveal(grease_step);
        }
        let ext: u16 = self.pick_grease();
        let ghost s2 = *self;
        assert(grease_step(s1, s2, ext)) by {
            reveal(grease_step);
        }
        let group: u16 = self.pick_grease();
        let ghost s3 = *self;
        assert(grease_step(s2, s3, group)) by {
            reveal(grease_step);
        }
        let version: u16 = self.pick_grease();
        proof {
            assert(grease_step(s3, *self, version)) by {
                reveal(grease_step);
            }
            let used = four_steps(s0, s1, s2, s3, *self, cipher, ext, group, version);
            assert(conn_draws(s0.state(), s0.calls(), used));
        }
        (cipher, ext, group, version)
    }
}

impl PerConnRng {
    /// The generator for a reader: how often it was drawn from, and nothing of
    /// its state.
    pub fn debug_string(&self) -> (s: String)
        ensures
            s@ == "PerConnRng { counter: "@ + text::decimal(self.calls() as nat) + " }"@,
    {
        let mut s = "PerConnRng { counter: ".to_string();
        append_decimal(&mut s, self.counter);
        s.append(" }");
        s
    }
}

impl Clone for PerConnRng {
    fn clone(&self) -> (copy: PerConnRng)
        ensures
            copy == *self,
    {
        PerConnRng { word0: self.word0, word1: self.word1, counter: self.counter }
    }
}

/// `g` is the GREASE value that takes the generator from `before` to `after`.
#[verifier::opaque]
spec fn grease_step(before: PerConnRng, after: PerConnRng, g: u16) -> bool {
    &&& after.calls() == before.calls().wrapping_add(1)
    &&& exists|used: ConnState| #[trigger]
        conn_draws_from(before.state(), after.calls(), used) && g == rand::grease_for(
            rand::upper_half(conn_output(used)),
        ) && after.state() == conn_next(used)
}

/// The state from which the GREASE value `g` was drawn.
proof fn grease_draw(before: PerConnRng, after: PerConnRng, g: u16) -> (used: ConnState)
    requires
        grease_step(before, after, g),
    ensures
        after.calls() == call_number(before.calls(), 0),
        conn_draws_from(before.state(), after.calls(), used),
        g == rand::grease_for(rand::upper_half(conn_output(used))),
        after.state() == conn_next(used),
{
    reveal(grease_step);
    choose|used: ConnState| #[trigger]
        conn_draws_from(before.state(), after.calls(), used) && g == rand::grease_for(
            rand::upper_half(conn_output(used)),
        ) && after.state() == conn_next(used)
}

/// The states from which four GREASE values were drawn.
proof fn four_steps(
    s0: PerConnRng,
    s1: PerConnRng,
    s2: PerConnRng,
    s3: PerConnRng,
    s4: PerConnRng,
    g0: u16,
    g1: u16,
    g2: u16,
    g3: u16,
) -> (used: Seq<ConnState>)
    requires
        grease_step(s0, s1, g0),
        grease_step(s1, s2, g1),
        grease_step(s2, s3, g2),
        grease_step(s3, s4, g3),
    ensures
        conn_draws(s0.state(), s0.calls(), used),
        used.len() == 4,
        s4.state() == conn_after(s0.state(), used),
        s4.calls() == (s0.calls() + 4) % rand::draw_count(),
        g0 == rand::grease_for(rand::upper_half(conn_output(used[0]))),
        g1 == rand::grease_for(rand::upper_half(conn_output(used[1]))),
        g2 == rand::grease_for(rand::upper_half(conn_output(used[2]))),
        g3 == rand::grease_for(rand::upper_half(conn_output(used[3]))),
{
    let u0 = grease_draw(s0, s1, g0);
    let u1 = grease_draw(s1, s2, g1);
    let u2 = grease_draw(s2, s3, g2);
    let u3 = grease_draw(s3, s4, g3);
    let calls = s0.calls();
    assert(s2.calls() == call_number(calls, 1));
    assert(s3.calls() == call_number(calls, 2));
    assert(s4.calls() == call_number(calls, 3));
    let none = Seq::<ConnState>::empty();
    draws_extend(s0.state(), calls, none, u0);
    draws_extend(s0.state(), calls, none.push(u0), u1);
    draws_extend(s0.state(), calls, none.push(u0).push(u1), u2);
    draws_extend(s0.state(), calls, none.push(u0).push(u1).push(u2), u3);
    none.push(u0).push(u1).push(u2).push(u3)
}

proof fn draws_extend(before: ConnState, calls: u64, used: Seq<ConnState>, state: ConnState)
    requires
        conn_draws(before, calls, used),
        conn_draws_from(conn_after(before, used), call_number(calls, used.len() as int), state),
    ensures
        conn_draws(before, calls, used.push(state)),
{
    let longer = used.push(state);
    assert forall|i: int| 0 <= i < longer.len() implies conn_draws_from(
        if i == 0 {
            before
        } else {
            conn_next(longer[i - 1])
        },
        #[trigger] call_number(calls, i),
        longer[i],
    ) by {
        if i < used.len() {
            assert(longer[i] == used[i]);
        }
    }
}

/// A new generator is never stuck: its two words are not both zero, whatever
/// the entropy was.
pub proof fn new_state_is_live(conn_id: u64, entropy: u64, flow: u64)
    ensures
        conn_seed(conn_id, entropy, flow) != (0u64, 0u64),
{
    let seed = conn_seed(conn_id, entropy, flow).0;
    if seed == 0 {
        let x: u64 = 0x9E3779B97F4A7C15;
        assert(0u64.wrapping_add(x) == x);
        mixed_of_the_increment();
    }
}

proof fn mixed_of_the_increment()
    ensures
        mixed(0x9E3779B97F4A7C15) != 0,
{
    let x: u64 = 0x9E3779B97F4A7C15;
    let a: u64 = 0x3C6EF372FE94F82A;
    let p: u64 = 0x3C6EF3720F2F35E1;
    let b: u64 = 0x2A94FCBFCCB43499;
    let q: u64 = 0x2A94FCBA9E2BA360;
    let c: u64 = 0x6E789E6A7D485920;
    assert(x.wrapping_add(0x9E3779B97F4A7C15) == a);
    assert(0x3C6EF372FE94F82Au64 ^ (0x3C6EF372FE94F82Au64 >> 30) == 0x3C6EF3720F2F35E1u64) by (bit_vector);
    assert(p.wrapping_mul(0xBF58476D1CE4E5B9) == b);
    assert(0x2A94FCBFCCB43499u64 ^ (0x2A94FCBFCCB43499u64 >> 27) == 0x2A94FCBA9E2BA360u64) by (bit_vector);
    assert(q.wrapping_mul(0x94D049BB133111EB) == c);
    assert(0x6E789E6A7D485920u64 ^ (0x6E789E6A7D485920u64 >> 31) != 0) by (bit_vector);
}

/// A generator that is not stuck never gets stuck: no draw leads to the
/// all-zero state, with a reseed or without.
pub proof fn draws_keep_the_state_live(before: ConnState, call: u64, used: ConnState)
    requires
        before != (0u64, 0u64),
        conn_draws_from(before, call, used),
    ensures
        conn_next(used) != (0u64, 0u64),
{
    let a = used.0;
    let b = used.1;
    assert(used != (0u64, 0u64)) by {
        if reseed_due(call) {
            let fresh = choose|fresh: ConnState| used == #[trigger] reseeded(before, fresh);
        }
    }
    assert(b == 0 && ((a ^ (a << 23)) ^ ((a ^ (a << 23)) >> 17)) ^ b ^ (b >> 26) == 0 ==> a == 0)
        by (bit_vector);
}

/// Fresh entropy is mixed in at the latest every [`RESEED_INTERVAL`] draws.
pub proof fn reseeds_keep_coming(calls: u64) -> (i: int)
    ensures
        0 <= i < RESEED_INTERVAL,
        reseed_due(call_number(calls, i)),
        forall|j: int| 0 <= j < i ==> !reseed_due(#[trigger] call_number(calls, j)),
{
    let i = RESEED_INTERVAL - 1 - calls % RESEED_INTERVAL;
    assert((calls + i + 1) % 8192 == 0);
    assert(((calls + i + 1) % 0x1_0000_0000_0000_0000) % 8192 == 0);
    assert forall|j: int| 0 <= j < i implies !reseed_due(#[trigger] call_number(calls, j)) by {
        assert((calls + j + 1) % 8192 != 0);
        assert(((calls + j + 1) % 0x1_0000_0000_0000_0000) % 8192 == (calls + j + 1) % 8192);
    }
    i
}

/// A step of the generator is linear: the step from the exclusive-or of two
/// states is the exclusive-or of their steps. So no state is treated apart.
pub proof fn conn_steps_are_linear(a: ConnState, b: ConnState)
    ensures
        conn_next((a.0 ^ b.0, a.1 ^ b.1)).0 == conn_next(a).0 ^ conn_next(b).0,
        conn_next((a.0 ^ b.0, a.1 ^ b.1)).1 == conn_next(a).1 ^ conn_next(b).1,
        conn_next(a).0 == a.1,
{
    let (a0, a1): (u64, u64) = a;
    let (b0, b1): (u64, u64) = b;
    assert(((a0 ^ b0) ^ ((a0 ^ b0) << 23)) ^ (((a0 ^ b0) ^ ((a0 ^ b0) << 23)) >> 17) ^ (a1 ^ b1) ^ ((
    a1 ^ b1) >> 26) == ((a0 ^ (a0 << 23)) ^ ((a0 ^ (a0 << 23)) >> 17) ^ a1 ^ (a1 >> 26)) ^ ((b0 ^ (b0
        << 23)) ^ ((b0 ^ (b0 << 23)) >> 17) ^ b1 ^ (b1 >> 26))) by (bit_vector);
}

/// What a state yields is its first word times a fixed odd number, modulo 2^64:
/// the second word does not show.
pub proof fn conn_outputs_are_multiples(state: ConnState)
    ensures
        conn_output(state) == (state.0 * 0x517CC1B727220A95) % 0x1_0000_0000_0000_0000,
{
}

/// Multiplying by an odd number modulo 2^64 keeps numbers apart.
proof fn odd_multiples_differ(a: u64, b: u64, factor: u64, inverse: int, over: int)
    requires
        factor * inverse == 1 + over * 0x1_0000_0000_0000_0000,
        a.wrapping_mul(factor) == b.wrapping_mul(factor),
    ensures
        a == b,
{
    let n: int = 0x1_0000_0000_0000_0000;
    let f: int = factor as int;
    let x: int = a * f;
    let y: int = b * f;
    assert(x % n == y % n);
    let m: int = x / n - y / n;
    vstd::arithmetic::div_mod::lemma_fundamental_div_mod(x, n);
    vstd::arithmetic::div_mod::lemma_fundamental_div_mod(y, n);
    let d: int = a - b;
    assert(x - y == n * m) by (nonlinear_arith)
        requires
            x == n * (x / n) + x % n,
            y == n * (y / n) + y % n,
            x % n == y % n,
            m == x / n - y / n,
    ;
    assert(d * f == n * m) by (nonlinear_arith)
        requires
            d == a - b,
            x == a * f,
            y == b * f,
            x - y == n * m,
    ;
    assert(d == n * (m * inverse - over * d)) by (nonlinear_arith)
        requires
            d * f == n * m,
            f * inverse == 1 + over * n,
    ;
    let q: int = m * inverse - over * d;
    assert(q == 0) by (nonlinear_arith)
        requires
            d == n * q,
            n == 0x1_0000_0000_0000_0000,
            -n < d < n,
    ;
}

/// The hash keeps seeds apart: no two numbers have the same hash, so every
/// number is the hash of exactly one.
pub proof fn mixing_keeps_numbers_apart(x: u64, y: u64)
    requires
        mixed(x) == mixed(y),
    ensures
        x == y,
{
    let a = x.wrapping_add(0x9E3779B97F4A7C15);
    let p = y.wrapping_add(0x9E3779B97F4A7C15);
    let b = (a ^ (a >> 30)).wrapping_mul(0xBF58476D1CE4E5B9);
    let q = (p ^ (p >> 30)).wrapping_mul(0xBF58476D1CE4E5B9);
    let c = (b ^ (b >> 27)).wrapping_mul(0x94D049BB133111EB);
    let r = (q ^ (q >> 27)).wrapping_mul(0x94D049BB133111EB);
    assert((c ^ (c >> 31)) == (r ^ (r >> 31)) ==> c == r) by (bit_vector);
    odd_multiples_differ(
        b ^ (b >> 27),
        q ^ (q >> 27),
        0x94D049BB133111EB,
        0x319642B2D24D8EC3,
        0x1CD336EDA85F1453,
    );
    assert((b ^ (b >> 27)) == (q ^ (q >> 27)) ==> b == q) by (bit_vector);
    odd_multiples_differ(
        a ^ (a >> 30),
        p ^ (p >> 30),
        0xBF58476D1CE4E5B9,
        0x96DE1B173F119089,
        0x70C3BCA78F27F46C,
    );
    assert((a ^ (a >> 30)) == (p ^ (p >> 30)) ==> a == p) by (bit_vector);
}

/// Two connections with the same entropy start from different states, in both
/// words. What the number of a connection adds is what entropy would, and so is
/// what the second word of entropy adds, turned by 17 bits. The first word of the
/// state decides the second.
pub proof fn connections_start_apart(conn_id: u64, other: u64, entropy: u64, flow: u64)
    ensures
        conn_id != other ==> conn_seed(conn_id, entropy, flow).0 != conn_seed(
            other,
            entropy,
            flow,
        ).0,
        conn_id != other ==> conn_seed(conn_id, entropy, flow).1 != conn_seed(
            other,
            entropy,
            flow,
        ).1,
        conn_seed(conn_id, entropy, flow) == conn_seed(entropy, conn_id, flow),
        conn_seed(conn_id, entropy, flow) == conn_seed(conn_id, entropy ^ rand::rotl(flow, 17), 0),
        conn_seed(conn_id, entropy, flow).0 == mixed(entropy ^ conn_id ^ rand::rotl(flow, 17)),
{
    let turned = rand::rotl(flow, 17);
    let none: u64 = 0;
    assert(entropy ^ conn_id ^ turned == (entropy ^ turned) ^ conn_id ^ ((none << 17) | (none >> 47)))
        by (bit_vector)
        requires
            none == 0,
    ;
    assert((entropy ^ conn_id ^ turned) == (entropy ^ other ^ turned) ==> conn_id == other)
        by (bit_vector);
    assert(entropy ^ conn_id ^ turned == conn_id ^ entropy ^ turned) by (bit_vector);
    let a = conn_seed(conn_id, entropy, flow);
    let b = conn_seed(other, entropy, flow);
    if a.1 == b.1 {
        mixing_keeps_numbers_apart(
            a.0.wrapping_add(0x9E3779B97F4A7C15),
            b.0.wrapping_add(0x9E3779B97F4A7C15),
        );
        assert(a.0 == b.0);
    }
    if a.0 == b.0 {
        mixing_keeps_numbers_apart(entropy ^ conn_id ^ turned, entropy ^ other ^ turned);
    }
}

/// Reseeding mixes the fresh words in, word by word, and never leaves a zero.
/// It comes with every 8192nd draw and with no other.
pub proof fn reseeding_mixes_word_by_word(state: ConnState, fresh: ConnState, call: u64)
    ensures
        state.0 != fresh.0 ==> reseeded(state, fresh).0 == state.0 ^ fresh.0,
        state.1 != fresh.1 ==> reseeded(state, fresh).1 == state.1 ^ fresh.1,
        reseeded(state, fresh).0 != 0,
        reseeded(state, fresh).1 != 0,
        reseed_due(call) <==> call as int % 8192 == 0,
{
    let (a, b): (u64, u64) = state;
    let (f, g): (u64, u64) = fresh;
    assert((a ^ f == 0 ==> a == f) && (b ^ g == 0 ==> b == g)) by (bit_vector);
}

/// Between two reseeds a draw is made from the state that the one before it
/// left; the draws of a generator are numbered from one on, modulo 2^64.
pub proof fn draws_follow_each_other(before: ConnState, call: u64, used: ConnState, calls: u64)
    requires
        conn_draws_from(before, call, used),
    ensures
        call as int % 8192 != 0 ==> used == before,
        call as int % 8192 == 0 ==> exists|fresh: ConnState| used == #[trigger] reseeded(
            before,
            fresh,
        ),
        calls < u64::MAX ==> call_number(calls, 0) == calls + 1,
        conn_after(before, Seq::empty()) == before,
        conn_after(before, seq![used]) == conn_next(used),
{
}

/// Of consecutive draws, each but those that start with a reseed is made from
/// the state that the one before it left, and the first from where the
/// generator stood.
pub proof fn consecutive_draws_follow(before: ConnState, calls: u64, used: Seq<ConnState>, i: int)
    requires
        conn_draws(before, calls, used),
        0 <= i < used.len(),
        calls + i + 1 < 0x1_0000_0000_0000_0000,
        (calls + i + 1) % 8192 != 0,
    ensures
        i == 0 ==> used[0] == before,
        i > 0 ==> used[i] == conn_next(used[i - 1]),
        conn_after(before, used) == conn_next(used[used.len() - 1]),
{
    assert(call_number(calls, i) == calls + i + 1);
}

} // verus!
