//! What a list of probes makes an accumulator know.

use super::accumulator::{Knowledge, Limits};
use crate::domain;
use crate::probe::accumulator;
use vstd::prelude::*;

verus! {

/// One probe: of which domain, whether it was found blocked, and when.
pub struct Probe {
    pub domain: Seq<char>,
    pub blocked: bool,
    pub at: u128,
}

impl Knowledge {
    /// What is known once all of `probes` were recorded, in order.
    pub open spec fn after(self, limits: Limits, probes: Seq<Probe>) -> Knowledge
        decreases probes.len(),
    {
        if probes.len() == 0 {
            self
        } else {
            self.after(limits, probes.drop_last()).recorded(
                limits,
                probes.last().domain,
                probes.last().blocked,
                probes.last().at,
            )
        }
    }
}

/// How many of `probes` are of `domain`.
pub open spec fn probes_of(probes: Seq<Probe>, domain: Seq<char>) -> nat
    decreases probes.len(),
{
    if probes.len() == 0 {
        0
    } else {
        probes_of(probes.drop_last(), domain) + if probes.last().domain == domain {
            1nat
        } else {
            0nat
        }
    }
}

/// How many of `probes` found `domain` blocked.
pub open spec fn blocks_of(probes: Seq<Probe>, domain: Seq<char>) -> nat
    decreases probes.len(),
{
    if probes.len() == 0 {
        0
    } else {
        blocks_of(probes.drop_last(), domain) + if probes.last().domain == domain
            && probes.last().blocked {
            1nat
        } else {
            0nat
        }
    }
}

/// The counts of a domain are the number of its probes and the number of those
/// that found it blocked, so no domain is blocked more often than it was probed.
pub proof fn counts_add_up(limits: Limits, probes: Seq<Probe>, domain: Seq<char>)
    requires
        probes.len() <= u32::MAX,
    ensures
        ({
            let hot = Knowledge::nothing().after(limits, probes).hot;
            &&& hot.dom().contains(domain) <==> probes_of(probes, domain) > 0
            &&& hot.dom().contains(domain) ==> hot[domain].total_probes == probes_of(probes, domain)
            &&& hot.dom().contains(domain) ==> hot[domain].blocked_count == blocks_of(
                probes,
                domain,
            )
        }),
        blocks_of(probes, domain) <= probes_of(probes, domain) <= probes.len(),
    decreases probes.len(),
{
    if probes.len() > 0 {
        counts_add_up(limits, probes.drop_last(), domain);
    }
}

/// What is remembered for good stays remembered, and keeps its traffic in the
/// tunnel, whatever is recorded or cleaned up later.
pub proof fn promotion_is_permanent(
    known: Knowledge,
    limits: Limits,
    domain: Seq<char>,
    probes: Seq<Probe>,
    now: u128,
)
    requires
        known.cache.contains(domain),
    ensures
        known.after(limits, probes).cache.contains(domain),
        known.after(limits, probes).tunnels(limits, domain),
        known.cleaned(limits, now).cache.contains(domain),
        known.cleaned(limits, now).tunnels(limits, domain),
    decreases probes.len(),
{
    if probes.len() > 0 {
        promotion_is_permanent(known, limits, domain, probes.drop_last(), now);
    }
}

/// A domain that was found blocked, and as often as the threshold asks, is
/// remembered for good, however many other probes there were.
pub proof fn blocks_promote(limits: Limits, probes: Seq<Probe>, domain: Seq<char>)
    requires
        probes.len() <= u32::MAX,
        blocks_of(probes, domain) > 0,
        blocks_of(probes, domain) >= limits.promote_threshold,
    ensures
        Knowledge::nothing().after(limits, probes).cache.contains(domain),
        Knowledge::nothing().after(limits, probes).tunnels(limits, domain),
    decreases probes.len(),
{
    counts_add_up(limits, probes, domain);
    if probes.last().domain != domain {
        blocks_promote(limits, probes.drop_last(), domain);
    }
}

/// A probe of one domain leaves the counts and the memory of every other domain
/// alone, and every family but its own.
pub proof fn recording_is_local(
    known: Knowledge,
    limits: Limits,
    probe: Probe,
    other: Seq<char>,
    family: Seq<char>,
)
    requires
        other != probe.domain,
        domain::family_of(probe.domain) != Some(family),
    ensures
        ({
            let next = known.recorded(limits, probe.domain, probe.blocked, probe.at);
            &&& next.hot.dom().contains(other) <==> known.hot.dom().contains(other)
            &&& known.hot.dom().contains(other) ==> next.hot[other] == known.hot[other]
            &&& next.cache.contains(other) <==> known.cache.contains(other)
            &&& next.families.dom().contains(family) <==> known.families.dom().contains(family)
            &&& next.members(family) == known.members(family)
        }),
{
}

/// Cleaning up changes nothing but the counts, keeps the fresh ones and no
/// others, and has nothing left to do a second time.
pub proof fn cleaning_settles(known: Knowledge, limits: Limits, now: u128, domain: Seq<char>)
    ensures
        known.cleaned(limits, now).cache == known.cache,
        known.cleaned(limits, now).families == known.families,
        known.cleaned(limits, now).hot.dom().contains(domain) <==> known.hot.dom().contains(domain)
            && accumulator::fresh_at(known.hot[domain], now, limits.hot_ttl_nanos),
        known.cleaned(limits, now).hot.dom().contains(domain) ==> known.cleaned(
            limits,
            now,
        ).hot[domain] == known.hot[domain],
        known.cleaned(limits, now).cleaned(limits, now) == known.cleaned(limits, now),
{
    assert(known.cleaned(limits, now).cleaned(limits, now).hot =~= known.cleaned(limits, now).hot);
}

/// Recording and cleaning up keep the members of every family in their family,
/// each listed once.
pub proof fn families_stay_sound(known: Knowledge, limits: Limits, probes: Seq<Probe>, now: u128)
    requires
        known.families_sound(),
    ensures
        known.after(limits, probes).families_sound(),
        known.cleaned(limits, now).families_sound(),
        Knowledge::nothing().families_sound(),
    decreases probes.len(),
{
    if probes.len() > 0 {
        families_stay_sound(known, limits, probes.drop_last(), now);
        let before = known.after(limits, probes.drop_last());
        let after = known.after(limits, probes);
        let domain = probes.last().domain;
        assert forall|family: Seq<char>| #[trigger]
            after.families.dom().contains(family) implies {
            &&& after.families[family].no_duplicates()
            &&& forall|i: int|
                0 <= i < after.families[family].len() ==> domain::family_of(
                    #[trigger] after.families[family][i],
                ) == Some(family)
        } by {
            if domain::family_of(domain) == Some(family) {
                let members = before.members(family);
                if before.families.dom().contains(family) {
                    assert(members == before.families[family]);
                }
                assert(members.no_duplicates());
                assert(forall|i: int|
                    0 <= i < members.len() ==> domain::family_of(#[trigger] members[i]) == Some(
                        family,
                    ));
                if !members.contains(domain) {
                    assert(members.push(domain).no_duplicates());
                }
            } else {
                assert(after.families[family] == before.families[family]);
            }
        }
    }
}

/// The members of a family are its domains that were found blocked.
pub proof fn members_are_the_blocked(
    limits: Limits,
    probes: Seq<Probe>,
    family: Seq<char>,
    domain: Seq<char>,
)
    ensures
        Knowledge::nothing().after(limits, probes).members(family).contains(domain) <==> (
        domain::family_of(domain) == Some(family) && blocks_of(probes, domain) > 0),
    decreases probes.len(),
{
    if probes.len() > 0 {
        members_are_the_blocked(limits, probes.drop_last(), family, domain);
        let before = Knowledge::nothing().after(limits, probes.drop_last());
        let after = Knowledge::nothing().after(limits, probes);
        let last = probes.last().domain;
        let members = before.members(family);
        if domain::family_of(last) == Some(family) && probes.last().blocked
            && !members.contains(last) {
            let longer = members.push(last);
            assert(after.members(family) == longer);
            if members.contains(domain) {
                let i = members.index_of(domain);
                assert(longer[i] == domain);
            }
            if last == domain {
                assert(longer[longer.len() - 1] == domain);
            }
            if longer.contains(domain) && last != domain {
                let i = longer.index_of(domain);
                assert(members[i] == domain);
            }
        } else {
            assert(after.members(family) == members);
            if last == domain && probes.last().blocked {
                members_are_the_blocked(limits, probes.drop_last(), family, last);
            }
        }
    }
}

/// Once as many domains of a family were found blocked as the threshold asks,
/// and at least one, every domain of the family takes the tunnel.
pub proof fn blocked_family_tunnels(
    limits: Limits,
    probes: Seq<Probe>,
    family: Seq<char>,
    blocked: Set<Seq<char>>,
    domain: Seq<char>,
)
    requires
        blocked.finite(),
        forall|d: Seq<char>| #[trigger]
            blocked.contains(d) ==> domain::family_of(d) == Some(family) && blocks_of(probes, d)
                > 0,
        blocked.len() > 0,
        blocked.len() >= limits.family_threshold,
        domain::family_of(domain) == Some(family),
    ensures
        Knowledge::nothing().after(limits, probes).tunnels(limits, domain),
{
    let known = Knowledge::nothing().after(limits, probes);
    let members = known.members(family);
    families_stay_sound(Knowledge::nothing(), limits, probes, 0);
    assert forall|d: Seq<char>| #[trigger] blocked.contains(d) implies members.to_set().contains(
        d,
    ) by {
        members_are_the_blocked(limits, probes, family, d);
    }
    vstd::seq_lib::seq_to_set_is_finite(members);
    vstd::set_lib::lemma_len_subset(blocked, members.to_set());
    members.unique_seq_to_set();
}

/// The counts of one domain hold, however often the others were probed.
proof fn counts_of_one_add_up(limits: Limits, probes: Seq<Probe>, domain: Seq<char>)
    requires
        probes_of(probes, domain) <= u32::MAX,
    ensures
        ({
            let hot = Knowledge::nothing().after(limits, probes).hot;
            &&& hot.dom().contains(domain) <==> probes_of(probes, domain) > 0
            &&& hot.dom().contains(domain) ==> hot[domain].total_probes == probes_of(probes, domain)
            &&& hot.dom().contains(domain) ==> hot[domain].blocked_count == blocks_of(
                probes,
                domain,
            )
        }),
        blocks_of(probes, domain) <= probes_of(probes, domain),
    decreases probes.len(),
{
    if probes.len() > 0 {
        counts_of_one_add_up(limits, probes.drop_last(), domain);
    }
}

/// A domain is remembered for good if and only if it was found blocked, and as
/// often as the threshold asks.
pub proof fn only_blocks_promote(limits: Limits, probes: Seq<Probe>, domain: Seq<char>)
    requires
        probes_of(probes, domain) <= u32::MAX,
    ensures
        Knowledge::nothing().after(limits, probes).cache.contains(domain) <==> blocks_of(
            probes,
            domain,
        ) > 0 && blocks_of(probes, domain) >= limits.promote_threshold,
    decreases probes.len(),
{
    counts_of_one_add_up(limits, probes, domain);
    if probes.len() > 0 {
        only_blocks_promote(limits, probes.drop_last(), domain);
    }
}

/// A family is known if and only if one of its domains was probed.
pub proof fn probed_families_are_known(limits: Limits, probes: Seq<Probe>, family: Seq<char>)
    ensures
        Knowledge::nothing().after(limits, probes).families.dom().contains(family) <==> exists|
            i: int,
        |
            0 <= i < probes.len() && domain::family_of(#[trigger] probes[i].domain) == Some(family),
    decreases probes.len(),
{
    if probes.len() > 0 {
        let before = probes.drop_last();
        probed_families_are_known(limits, before, family);
        let known = Knowledge::nothing().after(limits, before).families.dom().contains(family);
        if known {
            let i = choose|i: int|
                0 <= i < before.len() && domain::family_of(#[trigger] before[i].domain) == Some(
                    family,
                );
            assert(probes[i] == before[i]);
        }
        if domain::family_of(probes.last().domain) == Some(family) {
            assert(domain::family_of(probes[probes.len() - 1].domain) == Some(family));
        } else if exists|i: int|
            0 <= i < probes.len() && domain::family_of(#[trigger] probes[i].domain) == Some(
                family,
            ) {
            let i = choose|i: int|
                0 <= i < probes.len() && domain::family_of(#[trigger] probes[i].domain) == Some(
                    family,
                );
            assert(before[i] == probes[i]);
        }
    }
}

/// A domain that was probed at least 5 times, with at least 80 of 100 of its
/// probes finding it blocked, takes the tunnel; one that is neither remembered
/// for good nor has as many blocked relatives as the threshold asks takes it
/// only then.
pub proof fn counts_decide(limits: Limits, probes: Seq<Probe>, domain: Seq<char>)
    requires
        probes_of(probes, domain) <= u32::MAX,
    ensures
        ({
            let known = Knowledge::nothing().after(limits, probes);
            let total: nat = probes_of(probes, domain);
            let blocked: nat = blocks_of(probes, domain);
            let family = domain::family_of(domain);
            &&& total >= 5 && blocked * 100 >= 80 * total ==> known.tunnels(limits, domain)
            &&& !known.cache.contains(domain) && (family is None || known.members(family->0).len()
                < limits.family_threshold) ==> (known.tunnels(limits, domain) <==> total >= 5
                && blocked * 100 >= 80 * total)
        }),
{
    counts_of_one_add_up(limits, probes, domain);
    share_is_a_quotient(blocks_of(probes, domain) as int, probes_of(probes, domain) as int);
}

proof fn share_is_a_quotient(blocked: int, total: int)
    ensures
        total > 0 ==> ((blocked * 100) / total >= 80 <==> blocked * 100 >= 80 * total),
{
    if total > 0 {
        let share: int = (blocked * 100) / total;
        vstd::arithmetic::div_mod::lemma_fundamental_div_mod(blocked * 100, total);
        assert(blocked * 100 == total * share + (blocked * 100) % total);
        assert(0 <= (blocked * 100) % total < total);
        if share >= 80 {
            assert(total * share >= 80 * total) by (nonlinear_arith)
                requires
                    share >= 80,
                    total > 0,
            ;
        } else {
            assert(total * share + total <= 80 * total) by (nonlinear_arith)
                requires
                    share <= 79,
                    total > 0,
            ;
        }
    }
}

/// A whole family counts as blocked if and only if one of its domains was probed
/// and as many of them were found blocked as the threshold asks.
pub proof fn families_are_blocked_by_their_members(
    limits: Limits,
    probes: Seq<Probe>,
    domain: Seq<char>,
)
    ensures
        Knowledge::nothing().after(limits, probes).family_blocked(limits, domain) <==> {
            &&& domain::family_of(domain) is Some
            &&& exists|i: int|
                0 <= i < probes.len() && domain::family_of(#[trigger] probes[i].domain)
                    == domain::family_of(domain)
            &&& exists|relatives: Set<Seq<char>>|
                #![trigger relatives.len()]
                relatives.finite() && relatives.len() >= limits.family_threshold && forall|
                    d: Seq<char>,
                |
                    #[trigger] relatives.contains(d) ==> domain::family_of(d) == domain::family_of(
                        domain,
                    ) && blocks_of(probes, d) > 0
        },
{
    let known = Knowledge::nothing().after(limits, probes);
    match domain::family_of(domain) {
        Some(family) => {
            let members = known.members(family);
            probed_families_are_known(limits, probes, family);
            families_stay_sound(Knowledge::nothing(), limits, probes, 0);
            vstd::seq_lib::seq_to_set_is_finite(members);
            members.unique_seq_to_set();
            let all = members.to_set();
            assert forall|d: Seq<char>| #[trigger] all.contains(d) <==> domain::family_of(d)
                == Some(family) && blocks_of(probes, d) > 0 by {
                members_are_the_blocked(limits, probes, family, d);
            }
            assert(all.len() == members.len());
            assert forall|relatives: Set<Seq<char>>|
                #![trigger relatives.len()]
                relatives.finite() && (forall|d: Seq<char>| #[trigger]
                    relatives.contains(d) ==> domain::family_of(d) == domain::family_of(domain)
                        && blocks_of(probes, d) > 0) implies relatives.len() <= members.len() by {
                assert forall|d: Seq<char>| #[trigger] relatives.contains(d) implies all.contains(
                    d,
                ) by {}
                vstd::set_lib::lemma_len_subset(relatives, all);
            }
        },
        None => {},
    }
}

/// What was probed decides alone whether a domain takes the tunnel. It does so
/// for one of three reasons: it was found blocked as often as the threshold
/// asks; its family counts as blocked; or it was probed at least 5 times and at
/// least 80 of 100 of these probes found it blocked.
pub proof fn tunnels_have_a_reason(limits: Limits, probes: Seq<Probe>, domain: Seq<char>)
    requires
        probes_of(probes, domain) <= u32::MAX,
    ensures
        Knowledge::nothing().after(limits, probes).tunnels(limits, domain) <==> {
            ||| blocks_of(probes, domain) > 0 && blocks_of(probes, domain)
                >= limits.promote_threshold
            ||| probes_of(probes, domain) >= 5 && blocks_of(probes, domain) * 100 >= 80 * probes_of(
                probes,
                domain,
            )
            ||| Knowledge::nothing().after(limits, probes).family_blocked(limits, domain)
        },
{
    counts_of_one_add_up(limits, probes, domain);
    share_is_a_quotient(blocks_of(probes, domain) as int, probes_of(probes, domain) as int);
    only_blocks_promote(limits, probes, domain);
}

/// The counts of a domain keep the time of its first probe.
pub proof fn counts_keep_their_first_time(
    limits: Limits,
    probes: Seq<Probe>,
    domain: Seq<char>,
    first: int,
)
    requires
        0 <= first < probes.len(),
        probes[first].domain == domain,
        forall|i: int| 0 <= i < first ==> (#[trigger] probes[i]).domain != domain,
    ensures
        ({
            let hot = Knowledge::nothing().after(limits, probes).hot;
            &&& hot.dom().contains(domain)
            &&& hot[domain].first_seen == probes[first].at
            &&& hot[domain].last_probe == probes[first].at
        }),
    decreases probes.len(),
{
    let before = probes.drop_last();
    assert forall|i: int| 0 <= i < first implies (#[trigger] before[i]).domain != domain by {
        assert(before[i] == probes[i]);
    }
    if first < probes.len() - 1 {
        counts_keep_their_first_time(limits, before, domain, first);
    } else {
        never_probed_has_no_counts(limits, before, domain);
    }
}

proof fn never_probed_has_no_counts(limits: Limits, probes: Seq<Probe>, domain: Seq<char>)
    requires
        forall|i: int| 0 <= i < probes.len() ==> (#[trigger] probes[i]).domain != domain,
    ensures
        !Knowledge::nothing().after(limits, probes).hot.dom().contains(domain),
    decreases probes.len(),
{
    if probes.len() > 0 {
        let before = probes.drop_last();
        assert(probes[probes.len() - 1].domain != domain);
        assert forall|i: int| 0 <= i < before.len() implies (#[trigger] before[i]).domain
            != domain by {
            assert(before[i] == probes[i]);
        }
        never_probed_has_no_counts(limits, before, domain);
    }
}

/// Cleaning up keeps the counts of a domain until the time limit has passed
/// since their time, and forgets them from then on.
pub proof fn counts_last_for_the_time_limit(
    known: Knowledge,
    limits: Limits,
    now: u128,
    domain: Seq<char>,
)
    requires
        known.hot.dom().contains(domain),
        limits.hot_ttl_nanos > 0,
    ensures
        known.cleaned(limits, now).hot.dom().contains(domain) <==> now
            < known.hot[domain].last_probe + limits.hot_ttl_nanos,
{
}

/// A time limit of nothing forgets all counts.
pub proof fn without_time_nothing_lasts(known: Knowledge, limits: Limits, now: u128)
    requires
        limits.hot_ttl_nanos == 0,
    ensures
        known.cleaned(limits, now).hot == Map::<Seq<char>, accumulator::HotEntry>::empty(),
{
    assert(known.cleaned(limits, now).hot =~= Map::<Seq<char>, accumulator::HotEntry>::empty());
}

/// The clock of an accumulator never runs back and misses no reading: the later
/// of two times is one of them, and no earlier than either.
pub proof fn clocks_never_run_back(latest: u128, reading: u128)
    ensures
        accumulator::later(latest, reading) >= latest,
        accumulator::later(latest, reading) >= reading,
        accumulator::later(latest, reading) == latest || accumulator::later(latest, reading)
            == reading,
{
}

/// Counts are fresh until the time limit has passed since their time.
pub proof fn counts_are_fresh_within_the_limit(
    entry: accumulator::HotEntry,
    now: u128,
    ttl: u128,
)
    ensures
        accumulator::fresh_at(entry, now, ttl) <==> ttl > 0 && now < entry.last_probe + ttl,
{
}

/// A probe adds one to the count of its domain, and one to the count of blocks
/// if it found one, from whatever was known before, and leaves their time.
pub proof fn probes_count_once(
    known: Knowledge,
    limits: Limits,
    domain: Seq<char>,
    blocked: bool,
    now: u128,
)
    requires
        known.hot.dom().contains(domain) ==> known.hot[domain].total_probes < u32::MAX
            && known.hot[domain].blocked_count < u32::MAX,
    ensures
        ({
            let next = known.recorded(limits, domain, blocked, now);
            &&& next.hot.dom().contains(domain)
            &&& known.hot.dom().contains(domain) ==> {
                &&& next.hot[domain].total_probes == known.hot[domain].total_probes + 1
                &&& next.hot[domain].blocked_count == known.hot[domain].blocked_count + if blocked {
                    1int
                } else {
                    0
                }
                &&& next.hot[domain].first_seen == known.hot[domain].first_seen
                &&& next.hot[domain].last_probe == known.hot[domain].last_probe
            }
            &&& !known.hot.dom().contains(domain) ==> {
                &&& next.hot[domain].total_probes == 1
                &&& next.hot[domain].blocked_count == if blocked {
                    1int
                } else {
                    0
                }
                &&& next.hot[domain].first_seen == now
                &&& next.hot[domain].last_probe == now
            }
        }),
{
}

/// What an accumulator says of a domain that it has no counts of is that nothing
/// was counted.
pub proof fn unknown_domains_count_nothing(known: Knowledge, domain: Seq<char>, now: u128)
    ensures
        !known.hot.dom().contains(domain) ==> known.entry(domain, now).total_probes == 0
            && known.entry(domain, now).blocked_count == 0,
        known.hot.dom().contains(domain) ==> known.entry(domain, now) == known.hot[domain],
        !Knowledge::nothing().hot.dom().contains(domain),
        !Knowledge::nothing().cache.contains(domain),
        !Knowledge::nothing().families.dom().contains(domain),
{
}

} // verus!
