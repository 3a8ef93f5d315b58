//! Random positions at which a payload is split.

use super::{lemire_debias, random_u64, Xoshiro256};
use crate::rand;
use vstd::prelude::*;

verus! {

/// Bit `bit` of `mask` is set.
pub open spec fn mask_bit(mask: u64, bit: int) -> bool {
    (mask >> (bit as u64)) & 1 == 1
}

fn test_mask_bit(mask: u64, bit: usize) -> (set: bool)
    requires
        bit < 64,
    ensures
        set == mask_bit(mask, bit as int),
{
    (mask >> (bit as u64)) & 1 == 1
}

/// The positions that the lowest `bits` bits of `mask` select, counted from
/// `base`, in ascending order.
pub open spec fn positions_of(mask: u64, base: int, bits: nat) -> Seq<usize>
    decreases bits,
{
    if bits == 0 {
        Seq::empty()
    } else {
        let rest = positions_of(mask, base, (bits - 1) as nat);
        if mask_bit(mask, bits - 1) {
            rest.push((base + bits - 1) as usize)
        } else {
            rest
        }
    }
}

/// A sequence without repetition in ascending order.
pub open spec fn ascending(s: Seq<usize>) -> bool {
    forall|i: int, j: int| 0 <= i < j < s.len() ==> s[i] < s[j]
}

/// The positions of a mask are in ascending order, and they are exactly the
/// base plus the number of each bit that is set.
pub proof fn positions_are_the_set_bits(mask: u64, base: int, bits: nat)
    requires
        0 <= base,
        base + bits <= usize::MAX + 1,
    ensures
        ascending(positions_of(mask, base, bits)),
        forall|p: usize| #[trigger]
            positions_of(mask, base, bits).contains(p) <==> base <= p < base + bits && mask_bit(
                mask,
                p - base,
            ),
    decreases bits,
{
    if bits > 0 {
        let before = (bits - 1) as nat;
        positions_are_the_set_bits(mask, base, before);
        let rest = positions_of(mask, base, before);
        let all = positions_of(mask, base, bits);
        let last = (base + before) as usize;
        assert forall|i: int| 0 <= i < rest.len() implies rest[i] < last by {
            assert(rest.contains(rest[i]));
        }
        if mask_bit(mask, before as int) {
            assert forall|p: usize| #[trigger] all.contains(p) <==> base <= p < base + bits
                && mask_bit(mask, p - base) by {
                if all.contains(p) {
                    let i = choose|i: int| 0 <= i < all.len() && all[i] == p;
                    if i < rest.len() {
                        assert(rest[i] == p);
                        assert(rest.contains(p));
                    }
                }
                if base <= p < base + bits && mask_bit(mask, p - base) {
                    if p == last {
                        assert(all[rest.len() as int] == p);
                    } else {
                        assert(rest.contains(p));
                        let i = choose|i: int| 0 <= i < rest.len() && rest[i] == p;
                        assert(all[i] == p);
                    }
                }
            }
        } else {
            assert forall|p: usize| #[trigger] all.contains(p) <==> base <= p < base + bits
                && mask_bit(mask, p - base) by {
                assert(rest.contains(p) == all.contains(p));
            }
        }
    }
}

/// A random mask of split positions.
pub fn gen_split_mask(rng: &mut Xoshiro256) -> (mask: u64)
    ensures
        final(rng).seeded(),
        exists|s: Xoshiro256| #[trigger]
            rand::draws_from(*old(rng), s) && mask == s.output() && *final(rng) == s.next(),
{
    random_u64(rng)
}

/// The positions that `mask` selects: `base_offset` plus the number of each
/// bit that is set, in ascending order.
pub fn mask_to_positions(mask: u64, base_offset: usize) -> (positions: Vec<usize>)
    requires
        forall|bit: int|
            0 <= bit < 64 && #[trigger] mask_bit(mask, bit) ==> base_offset + bit <= usize::MAX,
    ensures
        positions@ == positions_of(mask, base_offset as int, 64),
{
    let mut positions: Vec<usize> = Vec::new();
    let mut bit: usize = 0;
    while bit < 64
        invariant
            bit <= 64,
            positions@ == positions_of(mask, base_offset as int, bit as nat),
            forall|b: int|
                0 <= b < 64 && #[trigger] mask_bit(mask, b) ==> base_offset + b <= usize::MAX,
        decreases 64 - bit,
    {
        if test_mask_bit(mask, bit) {
            positions.push(base_offset + bit);
        }
        bit += 1;
    }
    positions
}

// ---------------------------------------------------------------------------
// Positions inside a payload
// ---------------------------------------------------------------------------

/// The positions of `mask` that lie inside a payload of `len` bytes at `base`.
pub open spec fn masked_set(mask: u64, base: int, len: int) -> Set<usize> {
    positions_of(mask, base, 64).to_set().filter(|p: usize| p < base + len)
}

/// One more random position. A span of one byte has only one position, and no
/// draw is spent on it.
pub open spec fn picked_position(s: Xoshiro256, base: int, span: int) -> usize {
    (base + if span > 1 {
        rand::scaled(s.output(), span)
    } else {
        0
    }) as usize
}

/// The state after picking one position.
pub open spec fn after_pick(s: Xoshiro256, span: int) -> Xoshiro256 {
    if span > 1 {
        s.next()
    } else {
        s
    }
}

/// The positions, and the state of the generator, once at most `budget` random
/// picks have brought `have` up to `want` positions.
pub open spec fn picked_up_to(
    s: Xoshiro256,
    have: Set<usize>,
    base: int,
    span: int,
    want: nat,
    budget: nat,
) -> (Set<usize>, Xoshiro256)
    decreases budget,
{
    if have.len() >= want || budget == 0 {
        (have, s)
    } else {
        picked_up_to(
            after_pick(s, span),
            have.insert(picked_position(s, base, span)),
            base,
            span,
            want,
            (budget - 1) as nat,
        )
    }
}

/// `have`, brought up to `want` positions with the lowest free ones from
/// offset `from` on.
pub open spec fn filled_up_to(
    have: Set<usize>,
    base: int,
    from: int,
    len: int,
    want: nat,
) -> Set<usize>
    decreases len - from,
{
    if have.len() >= want || from >= len {
        have
    } else {
        filled_up_to(have.insert((base + from) as usize), base, from + 1, len, want)
    }
}

/// The 32-bit span from which positions are picked in `len` bytes.
pub open spec fn span_of(len: int) -> int {
    len % 0x1_0000_0000
}

/// How many positions are wanted: `min_count`, but no more than there are.
pub open spec fn wanted(min_count: int, len: int) -> nat {
    (if min_count < len {
        min_count
    } else {
        len
    }) as nat
}

/// The number of random picks after which the remaining positions are taken in
/// order.
pub const PICK_BUDGET: u64 = 0xFFFF_FFFF_FFFF_FFFF;

/// What the generator in state `s` gives for a payload of `len` bytes at
/// `base`: the positions and the state afterwards.
pub open spec fn split_outcome(
    s: Xoshiro256,
    base: int,
    len: int,
    min_count: int,
    budget: nat,
) -> (Set<usize>, Xoshiro256) {
    let want = wanted(min_count, len);
    let (picked, after) = picked_up_to(
        s.next(),
        masked_set(s.output(), base, len),
        base,
        span_of(len),
        want,
        budget,
    );
    (filled_up_to(picked, base, 0, len, want), after)
}

/// Puts `p` into its place, unless it is there already.
fn insert_position(positions: &mut Vec<usize>, p: usize)
    requires
        ascending(old(positions)@),
    ensures
        ascending(final(positions)@),
        final(positions)@.to_set() == old(positions)@.to_set().insert(p),
{
    let ghost before = positions@;
    let mut i: usize = 0;
    while i < positions.len() && positions[i] < p
        invariant
            positions@ == before,
            i <= positions@.len(),
            ascending(positions@),
            forall|k: int| 0 <= k < i ==> positions@[k] < p,
        decreases positions@.len() - i,
    {
        i += 1;
    }
    if i < positions.len() && positions[i] == p {
        assert(before.to_set().contains(before[i as int]));
        assert(before.to_set().insert(p) =~= before.to_set());
        return;
    }
    positions.insert(i, p);
    proof {
        let after = positions@;
        assert forall|x: usize| after.to_set().contains(x) <==> before.to_set().insert(p).contains(
            x,
        ) by {
            if after.contains(x) {
                let k = choose|k: int| 0 <= k < after.len() && after[k] == x;
                if k < i {
                    assert(before[k] == x);
                } else if k > i {
                    assert(before[k - 1] == x);
                }
            }
            if before.contains(x) {
                let k = choose|k: int| 0 <= k < before.len() && before[k] == x;
                if k < i {
                    assert(after[k] == x);
                } else {
                    assert(after[k + 1] == x);
                }
            }
            if x == p {
                assert(after[i as int] == x);
            }
        }
        assert(after.to_set() =~= before.to_set().insert(p));
    }
}

proof fn ascending_counts(s: Seq<usize>)
    requires
        ascending(s),
    ensures
        s.to_set().len() == s.len(),
        s.to_set().finite(),
{
    assert(s.no_duplicates());
    s.unique_seq_to_set();
}

/// Every position of `s` lies in a payload of `len` bytes at `base`.
pub open spec fn inside(s: Seq<usize>, base: int, len: int) -> bool {
    forall|i: int| 0 <= i < s.len() ==> base <= #[trigger] s[i] < base + len
}

proof fn inside_after_insert(before: Seq<usize>, after: Seq<usize>, p: usize, base: int, len: int)
    requires
        inside(before, base, len),
        base <= p < base + len,
        after.to_set() == before.to_set().insert(p),
    ensures
        inside(after, base, len),
{
    assert forall|i: int| 0 <= i < after.len() implies base <= #[trigger] after[i] < base + len by {
        assert(after.to_set().contains(after[i]));
        if after[i] != p {
            assert(before.to_set().contains(after[i]));
            let k = choose|k: int| 0 <= k < before.len() && before[k] == after[i];
        }
    }
}

/// Brings `positions` up to `want` positions: first by at most `budget` random
/// picks, then with the lowest free positions.
pub fn top_up(
    rng: &mut Xoshiro256,
    positions: &mut Vec<usize>,
    base: usize,
    len: usize,
    want: usize,
    budget: u64,
)
    requires
        ascending(old(positions)@),
        inside(old(positions)@, base as int, len as int),
        base + len <= usize::MAX,
        want <= len,
        want > 0 ==> span_of(len as int) > 0,
        old(rng).seeded(),
    ensures
        ascending(final(positions)@),
        inside(final(positions)@, base as int, len as int),
        final(positions)@.len() >= want,
        final(rng).seeded(),
        ({
            let (picked, after) = picked_up_to(
                *old(rng),
                old(positions)@.to_set(),
                base as int,
                span_of(len as int),
                want as nat,
                budget as nat,
            );
            &&& final(positions)@.to_set() == filled_up_to(
                picked,
                base as int,
                0,
                len as int,
                want as nat,
            )
            &&& *final(rng) == after
        }),
{
    let ghost goal = picked_up_to(
        *rng,
        positions@.to_set(),
        base as int,
        span_of(len as int),
        want as nat,
        budget as nat,
    );
    let span: u32 = (len as u64 % 0x1_0000_0000) as u32;
    let mut left: u64 = budget;
    proof {
        ascending_counts(positions@);
    }
    while positions.len() < want && left > 0
        invariant
            ascending(positions@),
            positions@.to_set().len() == positions@.len(),
            inside(positions@, base as int, len as int),
            base + len <= usize::MAX,
            want <= len,
            want > 0 ==> span_of(len as int) > 0,
            span == span_of(len as int),
            span <= len,
            rng.seeded(),
            goal == picked_up_to(
                *rng,
                positions@.to_set(),
                base as int,
                span as int,
                want as nat,
                left as nat,
            ),
        decreases left,
    {
        let ghost before = *rng;
        let ghost had = positions@;
        let offset: u64 = if span > 1 {
            proof {
                rand::seeded_forever(*rng, 0);
            }
            lemire_debias(rng.draw(), span as u64)
        } else {
            0
        };
        assert(*rng == after_pick(before, span as int));
        let p: usize = base + offset as usize;
        assert(p == picked_position(before, base as int, span as int));
        insert_position(positions, p);
        proof {
            inside_after_insert(had, positions@, p, base as int, len as int);
            ascending_counts(positions@);
        }
        left -= 1;
    }
    let ghost picked = positions@.to_set();
    assert(goal == (picked, *rng));
    let mut from: usize = 0;
    while positions.len() < want
        invariant
            ascending(positions@),
            positions@.to_set().len() == positions@.len(),
            inside(positions@, base as int, len as int),
            base + len <= usize::MAX,
            want <= len,
            from <= len,
            forall|p: usize| base <= p < base + from ==> positions@.to_set().contains(p),
            filled_up_to(positions@.to_set(), base as int, from as int, len as int, want as nat)
                == filled_up_to(picked, base as int, 0, len as int, want as nat),
        decreases len - from,
    {
        proof {
            if from == len {
                full_payload_counts(positions@, base as int, len as int);
            }
        }
        let ghost had = positions@;
        insert_position(positions, base + from);
        proof {
            inside_after_insert(had, positions@, (base + from) as usize, base as int, len as int);
            ascending_counts(positions@);
        }
        from += 1;
    }
}

proof fn full_payload_counts(s: Seq<usize>, base: int, len: int)
    requires
        0 <= base,
        0 <= len,
        base + len <= usize::MAX,
        s.to_set().len() == s.len(),
        forall|p: usize| base <= p < base + len ==> s.to_set().contains(p),
    ensures
        s.len() >= len,
{
    let all = Seq::new(len as nat, |k: int| (base + k) as usize);
    assert(all.no_duplicates());
    all.unique_seq_to_set();
    assert(all.to_set().subset_of(s.to_set())) by {
        assert forall|x: usize| all.to_set().contains(x) implies s.to_set().contains(x) by {
            let k = choose|k: int| 0 <= k < all.len() && all[k] == x;
        }
    }
    vstd::set_lib::lemma_len_subset(all.to_set(), s.to_set());
}

/// Random split positions in a payload of `len` bytes at `base`: the positions
/// of a random mask that lie in the payload, and further random ones until
/// there are `min_count` of them or one at every byte. They come in ascending
/// order.
pub fn random_split_positions(
    rng: &mut Xoshiro256,
    base: usize,
    len: usize,
    min_count: usize,
) -> (positions: Vec<usize>)
    requires
        base + 63 <= usize::MAX,
        base + len <= usize::MAX,
        len > 0 && min_count > 0 ==> span_of(len as int) > 0,
    ensures
        ascending(positions@),
        inside(positions@, base as int, len as int),
        positions@.len() >= wanted(min_count as int, len as int),
        final(rng).seeded(),
        exists|s: Xoshiro256| #[trigger]
            rand::draws_from(*old(rng), s) && (positions@.to_set(), *final(rng)) == split_outcome(
                s,
                base as int,
                len as int,
                min_count as int,
                PICK_BUDGET as nat,
            ),
{
    rng.seed_if_needed();
    let ghost s = *rng;
    proof {
        rand::seeded_forever(s, 0);
        positions_are_the_set_bits(s.output(), base as int, 64);
    }
    let mask: u64 = rng.draw();
    let ghost all = positions_of(mask, base as int, 64);
    let mut positions: Vec<usize> = Vec::new();
    let mut bit: usize = 0;
    while bit < 64
        invariant
            bit <= 64,
            base + 63 <= usize::MAX,
            base + len <= usize::MAX,
            ascending(positions@),
            inside(positions@, base as int, len as int),
            forall|i: int| 0 <= i < positions@.len() ==> #[trigger] positions@[i] < base + bit,
            forall|p: usize| #[trigger]
                positions@.contains(p) <==> base <= p < base + bit && p < base + len && mask_bit(
                    mask,
                    p - base,
                ),
        decreases 64 - bit,
    {
        let ghost had = positions@;
        let p: usize = base + bit;
        if test_mask_bit(mask, bit) && p < base + len {
            positions.push(p);
            assert(positions@[had.len() as int] == p);
        }
        assert forall|q: usize| #[trigger] positions@.contains(q) <==> base <= q < base + bit + 1
            && q < base + len && mask_bit(mask, q - base) by {
            if had.contains(q) {
                let i = choose|i: int| 0 <= i < had.len() && had[i] == q;
                assert(positions@[i] == q);
            }
            if positions@.contains(q) && q != p {
                let i = choose|i: int| 0 <= i < positions@.len() && positions@[i] == q;
                assert(had[i] == q);
            }
        }
        bit += 1;
    }
    assert(positions@.to_set() =~= masked_set(mask, base as int, len as int)) by {
        assert forall|p: usize| positions@.to_set().contains(p) <==> masked_set(
            mask,
            base as int,
            len as int,
        ).contains(p) by {
            assert(positions@.contains(p) <==> positions@.to_set().contains(p));
            assert(all.contains(p) <==> all.to_set().contains(p));
        }
    }
    let want: usize = if min_count < len {
        min_count
    } else {
        len
    };
    top_up(rng, &mut positions, base, len, want, PICK_BUDGET);
    assert(rand::draws_from(*old(rng), s));
    positions
}

// ---------------------------------------------------------------------------
// Laws
// ---------------------------------------------------------------------------

/// A mask selects a position of a payload if and only if the position is one of
/// the first 64 bytes and its bit is set.
pub proof fn masks_select_by_bit(mask: u64, base: int, len: int, p: usize)
    requires
        0 <= base,
        base + 64 <= usize::MAX + 1,
    ensures
        masked_set(mask, base, len).contains(p) <==> base <= p < base + 64 && p < base + len && mask
            & (1u64 << ((p - base) as u64)) != 0,
{
    positions_are_the_set_bits(mask, base, 64);
    let all = positions_of(mask, base, 64);
    assert(all.contains(p) <==> all.to_set().contains(p));
    if base <= p < base + 64 {
        let bit: u64 = (p - base) as u64;
        assert((mask >> bit) & 1 == 1 <==> mask & (1u64 << bit) != 0) by (bit_vector)
            requires
                bit < 64,
        ;
    }
}

proof fn picks_only_add(
    s: Xoshiro256,
    have: Set<usize>,
    base: int,
    span: int,
    want: nat,
    budget: nat,
)
    requires
        have.finite(),
        0 <= base,
        0 < span,
        base + span <= usize::MAX + 1,
    ensures
        ({
            let picked = picked_up_to(s, have, base, span, want, budget).0;
            &&& picked.finite()
            &&& have.subset_of(picked)
            &&& picked.len() <= if have.len() >= want {
                have.len()
            } else {
                want
            }
            &&& forall|p: usize| #[trigger]
                picked.contains(p) ==> have.contains(p) || base <= p < base + span
        }),
    decreases budget,
{
    if have.len() < want && budget > 0 {
        let p = picked_position(s, base, span);
        rand::scaled_is_below(s.output(), span);
        assert(base <= p < base + span);
        let more = have.insert(p);
        assert(more.len() <= have.len() + 1);
        picks_only_add(after_pick(s, span), more, base, span, want, (budget - 1) as nat);
        let picked = picked_up_to(s, have, base, span, want, budget).0;
        assert forall|q: usize| #[trigger] picked.contains(q) implies have.contains(q) || base <= q
            < base + span by {
            assert(more.contains(q) || base <= q < base + span);
        }
    }
}

proof fn filling_only_adds(have: Set<usize>, base: int, from: int, len: int, want: nat)
    requires
        have.finite(),
        0 <= base,
        0 <= from,
        base + len <= usize::MAX + 1,
    ensures
        ({
            let filled = filled_up_to(have, base, from, len, want);
            &&& filled.finite()
            &&& have.subset_of(filled)
            &&& filled.len() <= if have.len() >= want {
                have.len()
            } else {
                want
            }
            &&& forall|p: usize| #[trigger]
                filled.contains(p) ==> have.contains(p) || base + from <= p < base + len
            &&& filled.len() >= want || forall|p: usize|
                base + from <= p < base + len ==> #[trigger] filled.contains(p)
        }),
    decreases len - from,
{
    if have.len() < want && from < len {
        let q = (base + from) as usize;
        let more = have.insert(q);
        assert(more.len() <= have.len() + 1);
        filling_only_adds(more, base, from + 1, len, want);
        let filled = filled_up_to(have, base, from, len, want);
        assert(more.contains(q));
        assert forall|p: usize| #[trigger] filled.contains(p) implies have.contains(p) || base + from
            <= p < base + len by {
            assert(more.contains(p) || base + from + 1 <= p < base + len);
        }
    }
}

/// The split positions of a payload are those of the mask that lie in it, and
/// others in it only as far as they are missing: with enough of them in the
/// mask there are no others, and nothing more is drawn; with too few there are
/// as many as were asked for, or one at every byte of a short payload.
pub proof fn splits_add_what_is_missing(
    s: Xoshiro256,
    base: int,
    len: int,
    min_count: int,
    budget: nat,
)
    requires
        0 <= base,
        0 < len < 0x1_0000_0000,
        0 <= min_count,
        base + 64 <= usize::MAX + 1,
        base + len <= usize::MAX + 1,
    ensures
        ({
            let (positions, after) = split_outcome(s, base, len, min_count, budget);
            let masked = masked_set(s.output(), base, len);
            let want: int = if min_count <= len {
                min_count
            } else {
                len
            };
            &&& masked.subset_of(positions)
            &&& forall|p: usize| #[trigger] positions.contains(p) ==> base <= p < base + len
            &&& masked.len() >= want ==> positions == masked && after == s.next()
            &&& masked.len() < want ==> positions.len() == want
        }),
{
    let masked = masked_set(s.output(), base, len);
    let want: nat = wanted(min_count, len);
    positions_are_the_set_bits(s.output(), base, 64);
    let all = positions_of(s.output(), base, 64);
    ascending_counts(all);
    assert(masked.finite());
    let (picked, after) = picked_up_to(s.next(), masked, base, span_of(len), want, budget);
    picks_only_add(s.next(), masked, base, span_of(len), want, budget);
    filling_only_adds(picked, base, 0, len, want);
    let positions = filled_up_to(picked, base, 0, len, want);
    assert forall|p: usize| #[trigger] positions.contains(p) implies base <= p < base + len by {
        if masked.contains(p) {
            masks_select_by_bit(s.output(), base, len, p);
        }
    }
    if masked.len() < want && positions.len() < want {
        let every = Seq::new(len as nat, |k: int| (base + k) as usize);
        assert(every.no_duplicates());
        every.unique_seq_to_set();
        assert forall|p: usize| #[trigger] every.to_set().contains(p) implies positions.contains(
            p,
        ) by {
            let k = choose|k: int| 0 <= k < every.len() && every[k] == p;
        }
        vstd::set_lib::lemma_len_subset(every.to_set(), positions);
    }
}

/// A pick in a payload of more than one byte lies at the share of the payload
/// that the draw is of all draws, and uses the draw up; in a payload of one byte
/// it is that byte, and nothing is drawn. As long as positions are missing, the
/// others are picked from where the pick left the generator.
pub proof fn picks_go_by_share(
    s: Xoshiro256,
    base: int,
    len: int,
    have: Set<usize>,
    want: nat,
    budget: nat,
)
    requires
        0 <= base,
        0 < len < 0x1_0000_0000,
        base + len <= usize::MAX + 1,
    ensures
        picked_position(s, base, span_of(len)) == base + (s.output() * len)
            / 0x1_0000_0000_0000_0000,
        len > 1 ==> after_pick(s, span_of(len)) == s.next(),
        len == 1 ==> after_pick(s, span_of(len)) == s,
        have.len() < want ==> picked_up_to(s, have, base, len, want, budget + 1) == picked_up_to(
            after_pick(s, len),
            have.insert(picked_position(s, base, len)),
            base,
            len,
            want,
            budget,
        ),
        have.len() >= want ==> picked_up_to(s, have, base, len, want, budget) == (have, s),
{
    rand::scaled_is_below(s.output(), len);
    assert(span_of(len) == len);
    if len == 1 {
        assert(s.output() * 1 == s.output());
    }
}

/// Where positions are filled up in order, the lowest free ones are taken: none
/// in front of a position that was added is left out. Up to there, as many picks
/// are made at random as a 64-bit number counts.
pub proof fn filling_takes_the_lowest(
    have: Set<usize>,
    base: int,
    from: int,
    len: int,
    want: nat,
    added: usize,
    lower: usize,
)
    requires
        have.finite(),
        0 <= base,
        0 <= from,
        base + len <= usize::MAX + 1,
        filled_up_to(have, base, from, len, want).contains(added),
        !have.contains(added),
        base + from <= lower < added,
    ensures
        filled_up_to(have, base, from, len, want).contains(lower),
        PICK_BUDGET == u64::MAX,
    decreases len - from,
{
    filling_only_adds(have, base, from, len, want);
    if have.len() < want && from < len {
        let q = (base + from) as usize;
        let more = have.insert(q);
        filling_only_adds(more, base, from + 1, len, want);
        assert(more.contains(q));
        if lower != q && added != q {
            filling_takes_the_lowest(more, base, from + 1, len, want, added, lower);
        }
    }
}

} // verus!
