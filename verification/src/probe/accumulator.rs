//! What the probes found over time.
//!
//! A domain has counts while it is hot, and a place in the cache once it was
//! blocked often enough; the cache is for good. A family, the domains that
//! share their public suffix and the label in front of it, counts as blocked
//! once enough of its members are.

use super::classifier::{Confidence, ProbeVerdict};
use crate::text::lists_text;
use crate::{clock, domain, text};
use dashmap::{DashMap, DashSet};
use std::time::{Duration, Instant};
use vstd::prelude::*;
use vstd::string::*;

pub use crate::domain::extract_etld1;

verus! {

// ---------------------------------------------------------------------------
// The collections
// ---------------------------------------------------------------------------

/// `dashmap::DashMap`, a concurrent hash map.
#[verifier::external_type_specification]
#[verifier::external_body]
#[verifier::reject_recursive_types(K)]
#[verifier::reject_recursive_types(V)]
#[verifier::reject_recursive_types(S)]
pub struct ExDashMap<K, V, S>(DashMap<K, V, S>);

/// `dashmap::DashSet`, a concurrent hash set.
#[verifier::external_type_specification]
#[verifier::external_body]
#[verifier::reject_recursive_types(K)]
#[verifier::reject_recursive_types(S)]
pub struct ExDashSet<K, S>(DashSet<K, S>);

/// The counts of one domain. Times are nanoseconds of the accumulator's clock.
#[derive(Clone, Copy, Debug, PartialEq, Eq, Structural)]
pub struct HotEntry {
    pub blocked_count: u32,
    pub total_probes: u32,
    pub first_seen: u128,
    pub last_probe: u128,
}

/// The counts that a map holds, by domain.
pub uninterp spec fn hot_contents(m: DashMap<String, HotEntry>) -> Map<Seq<char>, HotEntry>;

/// The blocked members that a map holds, by family.
pub uninterp spec fn family_contents(m: DashMap<String, Vec<String>>) -> Map<
    Seq<char>,
    Seq<Seq<char>>,
>;

/// The domains that a set holds.
pub uninterp spec fn cache_contents(s: DashSet<String>) -> Set<Seq<char>>;

/// `DashMap::new` for the counts: the map is empty.
#[verifier::external_body]
fn hot_new() -> (m: DashMap<String, HotEntry>)
    ensures
        hot_contents(m) == Knowledge::nothing().hot,
{
    DashMap::new()
}

/// `DashMap::get` for the counts: a copy of the value under `key`.
#[verifier::external_body]
fn hot_get(m: &DashMap<String, HotEntry>, key: &str) -> (value: Option<HotEntry>)
    ensures
        value == (if hot_contents(*m).dom().contains(key@) {
            Some(hot_contents(*m)[key@])
        } else {
            None
        }),
{
    m.get(key).map(|entry| *entry.value())
}

/// `DashMap::insert` for the counts: `value` now stands under `key`. The map is
/// borrowed mutably, so no other thread reaches it meanwhile.
#[verifier::external_body]
fn hot_put(m: &mut DashMap<String, HotEntry>, key: String, value: HotEntry)
    ensures
        hot_contents(*final(m)) == hot_contents(*old(m)).insert(key@, value),
{
    m.insert(key, value);
}

/// `DashMap::retain` for the counts: exactly the entries that are fresh at
/// `now` stay.
#[verifier::external_body]
fn hot_retain_fresh(m: &mut DashMap<String, HotEntry>, now: u128, ttl: u128)
    ensures
        hot_contents(*final(m)) == hot_contents(*old(m)).restrict(
            Set::new(
                |d: Seq<char>|
                    hot_contents(*old(m)).dom().contains(d) && fresh_at(
                        hot_contents(*old(m))[d],
                        now,
                        ttl,
                    ),
            ),
        ),
{
    m.retain(|_, entry| is_fresh(entry, now, ttl));
}

/// `DashMap::len` for the counts: the number of keys.
#[verifier::external_body]
fn hot_len(m: &DashMap<String, HotEntry>) -> (n: usize)
    ensures
        n == hot_contents(*m).dom().len(),
{
    m.len()
}

/// `DashMap::new` for the families: the map is empty.
#[verifier::external_body]
fn family_new() -> (m: DashMap<String, Vec<String>>)
    ensures
        family_contents(m) == Knowledge::nothing().families,
{
    DashMap::new()
}

/// `DashMap::get` for the families: a copy of the list under `key`.
#[verifier::external_body]
fn family_get(m: &DashMap<String, Vec<String>>, key: &str) -> (members: Option<Vec<String>>)
    ensures
        match members {
            Some(list) => family_contents(*m).dom().contains(key@) && text::texts(list@)
                == family_contents(*m)[key@],
            None => !family_contents(*m).dom().contains(key@),
        },
{
    m.get(key).map(|entry| entry.value().clone())
}

/// `DashMap::insert` for the families: `members` now stands under `key`. The map
/// is borrowed mutably, so no other thread reaches it meanwhile.
#[verifier::external_body]
fn family_put(m: &mut DashMap<String, Vec<String>>, key: String, members: Vec<String>)
    ensures
        family_contents(*final(m)) == family_contents(*old(m)).insert(key@, text::texts(members@)),
{
    m.insert(key, members);
}

/// `DashMap::len` for the families: the number of keys.
#[verifier::external_body]
fn family_len(m: &DashMap<String, Vec<String>>) -> (n: usize)
    ensures
        n == family_contents(*m).dom().len(),
{
    m.len()
}

/// `DashSet::new`: the set is empty.
#[verifier::external_body]
fn cache_new() -> (s: DashSet<String>)
    ensures
        cache_contents(s) == Set::<Seq<char>>::empty(),
{
    DashSet::new()
}

/// `DashSet::insert`: `key` is now in the set. The set is borrowed mutably, so
/// no other thread reaches it meanwhile.
#[verifier::external_body]
fn cache_insert(s: &mut DashSet<String>, key: String)
    ensures
        cache_contents(*final(s)) == cache_contents(*old(s)).insert(key@),
{
    s.insert(key);
}

/// `DashSet::contains`: whether `key` is in the set.
#[verifier::external_body]
fn cache_contains(s: &DashSet<String>, key: &str) -> (found: bool)
    ensures
        found == cache_contents(*s).contains(key@),
{
    s.contains(key)
}

/// `DashSet::len`: the number of elements.
#[verifier::external_body]
fn cache_len(s: &DashSet<String>) -> (n: usize)
    ensures
        n == cache_contents(*s).len(),
{
    s.len()
}

// ---------------------------------------------------------------------------
// The rules
// ---------------------------------------------------------------------------

/// At least 80 of 100 probes found the domain blocked.
pub open spec fn mostly_blocked(e: HotEntry) -> bool {
    e.total_probes > 0 && (e.blocked_count * 100) / (e.total_probes as int) >= 80
}

/// The counts are younger than `ttl` at `now`; an entry from the future counts
/// as brand new.
pub open spec fn fresh_at(e: HotEntry, now: u128, ttl: u128) -> bool {
    (if now >= e.last_probe {
        now - e.last_probe
    } else {
        0
    }) < ttl
}

/// Everything that an accumulator knows.
#[verifier::ext_equal]
pub struct Knowledge {
    /// The counts by domain.
    pub hot: Map<Seq<char>, HotEntry>,
    /// The domains that are remembered for good.
    pub cache: Set<Seq<char>>,
    /// The blocked members by family.
    pub families: Map<Seq<char>, Seq<Seq<char>>>,
}

/// The thresholds of an accumulator.
pub struct Limits {
    pub promote_threshold: u32,
    pub family_threshold: usize,
    pub hot_ttl_nanos: u128,
}

impl Knowledge {
    /// Nothing is known.
    pub open spec fn nothing() -> Knowledge {
        Knowledge { hot: Map::empty(), cache: Set::empty(), families: Map::empty() }
    }

    /// The counts of `domain`, or those of a domain that is first seen at `now`.
    pub open spec fn entry(self, domain: Seq<char>, now: u128) -> HotEntry {
        if self.hot.dom().contains(domain) {
            self.hot[domain]
        } else {
            HotEntry { blocked_count: 0, total_probes: 0, first_seen: now, last_probe: now }
        }
    }

    /// The blocked members of `family`.
    pub open spec fn members(self, family: Seq<char>) -> Seq<Seq<char>> {
        if self.families.dom().contains(family) {
            self.families[family]
        } else {
            Seq::empty()
        }
    }

    /// What is known once a probe of `domain` at `now` found it blocked or not.
    pub open spec fn recorded(
        self,
        limits: Limits,
        domain: Seq<char>,
        blocked: bool,
        now: u128,
    ) -> Knowledge {
        let entry = counted(self.entry(domain, now), blocked);
        Knowledge {
            hot: self.hot.insert(domain, entry),
            cache: if entry.blocked_count > 0 && entry.blocked_count >= limits.promote_threshold {
                self.cache.insert(domain)
            } else {
                self.cache
            },
            families: match domain::family_of(domain) {
                Some(family) => {
                    let members = self.members(family);
                    self.families.insert(
                        family,
                        if blocked && !members.contains(domain) {
                            members.push(domain)
                        } else {
                            members
                        },
                    )
                },
                None => self.families,
            },
        }
    }

    /// What is known once the stale counts are gone.
    pub open spec fn cleaned(self, limits: Limits, now: u128) -> Knowledge {
        Knowledge {
            hot: self.hot.restrict(
                Set::new(
                    |d: Seq<char>|
                        self.hot.dom().contains(d) && fresh_at(
                            self.hot[d],
                            now,
                            limits.hot_ttl_nanos,
                        ),
                ),
            ),
            ..self
        }
    }

    /// The whole family of `domain` counts as blocked.
    pub open spec fn family_blocked(self, limits: Limits, domain: Seq<char>) -> bool {
        match domain::family_of(domain) {
            Some(family) => self.families.dom().contains(family) && self.families[family].len()
                >= limits.family_threshold,
            None => false,
        }
    }

    /// The counts of `domain` alone are reason enough for a tunnel.
    pub open spec fn hot_blocked(self, domain: Seq<char>) -> bool {
        self.hot.dom().contains(domain) && self.hot[domain].total_probes >= 5 && mostly_blocked(
            self.hot[domain],
        )
    }

    /// Traffic to `domain` should take the tunnel.
    pub open spec fn tunnels(self, limits: Limits, domain: Seq<char>) -> bool {
        self.cache.contains(domain) || self.family_blocked(limits, domain) || self.hot_blocked(
            domain,
        )
    }

    /// The members of every family belong to it, and none is listed twice.
    pub open spec fn families_sound(self) -> bool {
        forall|family: Seq<char>| #[trigger]
            self.families.dom().contains(family) ==> {
                &&& self.families[family].no_duplicates()
                &&& forall|i: int|
                    0 <= i < self.families[family].len() ==> domain::family_of(
                        #[trigger] self.families[family][i],
                    ) == Some(family)
            }
    }
}

/// The later of two times.
pub open spec fn later(a: u128, b: u128) -> u128 {
    if b > a {
        b
    } else {
        a
    }
}

/// The verdict says that the domain is blocked.
pub open spec fn blocks(verdict: ProbeVerdict) -> bool {
    verdict is Blocked
}

/// The counts after one more probe. They wrap around at 2^32.
pub open spec fn counted(e: HotEntry, blocked: bool) -> HotEntry {
    HotEntry {
        blocked_count: if blocked {
            e.blocked_count.wrapping_add(1)
        } else {
            e.blocked_count
        },
        total_probes: e.total_probes.wrapping_add(1),
        ..e
    }
}

fn is_mostly_blocked(e: &HotEntry) -> (yes: bool)
    ensures
        yes == mostly_blocked(*e),
{
    e.total_probes > 0 && (e.blocked_count as u64 * 100) / (e.total_probes as u64) >= 80
}

/// Whether the counts are younger than `ttl` at `now`.
pub fn is_fresh(e: &HotEntry, now: u128, ttl: u128) -> (yes: bool)
    ensures
        yes == fresh_at(*e, now, ttl),
{
    let age: u128 = if now >= e.last_probe {
        now - e.last_probe
    } else {
        0
    };
    age < ttl
}

// ---------------------------------------------------------------------------
// The accumulator
// ---------------------------------------------------------------------------

/// The verdict of the accumulator on a domain.
pub struct AccumulatedVerdict {
    pub domain: String,
    pub blocked: bool,
    /// The share of the probes that found the domain blocked.
    pub confidence: Confidence,
    pub should_tunnel: bool,
    pub blocked_count: u32,
    pub total_probes: u32,
    pub is_family: bool,
}

/// The history of verdicts.
pub struct Accumulator {
    hot_entries: DashMap<String, HotEntry>,
    cache_entries: DashSet<String>,
    family_entries: DashMap<String, Vec<String>>,
    promote_threshold: u32,
    family_threshold: usize,
    hot_ttl_nanos: u128,
    clock: Instant,
    latest: u128,
}

impl View for Accumulator {
    type V = Knowledge;

    closed spec fn view(&self) -> Knowledge {
        Knowledge {
            hot: hot_contents(self.hot_entries),
            cache: cache_contents(self.cache_entries),
            families: family_contents(self.family_entries),
        }
    }
}

impl Accumulator {
    /// The thresholds.
    pub closed spec fn limits(&self) -> Limits {
        Limits {
            promote_threshold: self.promote_threshold,
            family_threshold: self.family_threshold,
            hot_ttl_nanos: self.hot_ttl_nanos,
        }
    }

    /// The latest reading of the clock, in nanoseconds since the accumulator
    /// was made.
    pub closed spec fn latest(&self) -> u128 {
        self.latest
    }

    /// An accumulator that knows nothing.
    pub fn new(promote_threshold: u32, family_threshold: usize, hot_ttl: Duration) -> (acc:
        Accumulator)
        ensures
            acc@ == Knowledge::nothing(),
            acc.limits() == (Limits {
                promote_threshold,
                family_threshold,
                hot_ttl_nanos: clock::nanos_of(hot_ttl),
            }),
            acc.latest() == 0,
    {
        Accumulator {
            hot_entries: hot_new(),
            cache_entries: cache_new(),
            family_entries: family_new(),
            promote_threshold,
            family_threshold,
            hot_ttl_nanos: hot_ttl.as_nanos(),
            clock: Instant::now(),
            latest: 0,
        }
    }

    /// Reads the clock: the time since the accumulator was made, in
    /// nanoseconds, the unit of the time limit. The clock never runs back. How
    /// much time has passed is left open.
    pub(crate) fn now(&mut self) -> (nanos: u128)
        ensures
            nanos == final(self).latest(),
            exists|elapsed: Duration|
                nanos == later(old(self).latest(), #[trigger] clock::nanos_of(elapsed)),
            final(self)@ == old(self)@,
            final(self).limits() == old(self).limits(),
    {
        let reading: u128 = self.clock.elapsed().as_nanos();
        if reading > self.latest {
            self.latest = reading;
        }
        self.latest
    }

    /// Records what a probe of `domain` found.
    pub fn record(&mut self, domain: &str, verdict: &ProbeVerdict)
        ensures
            final(self).limits() == old(self).limits(),
            final(self)@ == old(self)@.recorded(
                old(self).limits(),
                domain@,
                blocks(*verdict),
                final(self).latest(),
            ),
            final(self).latest() >= old(self).latest(),
            exists|elapsed: Duration|
                final(self).latest() == later(
                    old(self).latest(),
                    #[trigger] clock::nanos_of(elapsed),
                ),
    {
        let now: u128 = self.now();
        self.record_at(domain, verdict, now);
    }

    /// Records what a probe of `domain` found at `now`.
    pub fn record_at(&mut self, domain: &str, verdict: &ProbeVerdict, now: u128)
        ensures
            final(self).limits() == old(self).limits(),
            final(self).latest() == old(self).latest(),
            final(self)@ == old(self)@.recorded(
                old(self).limits(),
                domain@,
                blocks(*verdict),
                now,
            ),
    {
        let is_blocked = *verdict == ProbeVerdict::Blocked;
        let known = match hot_get(&self.hot_entries, domain) {
            Some(entry) => entry,
            None => HotEntry {
                blocked_count: 0,
                total_probes: 0,
                first_seen: now,
                last_probe: now,
            },
        };
        let entry = HotEntry {
            blocked_count: if is_blocked {
                known.blocked_count.wrapping_add(1)
            } else {
                known.blocked_count
            },
            total_probes: known.total_probes.wrapping_add(1),
            first_seen: known.first_seen,
            last_probe: known.last_probe,
        };
        hot_put(&mut self.hot_entries, domain.to_string(), entry);
        if entry.blocked_count > 0 && entry.blocked_count >= self.promote_threshold {
            cache_insert(&mut self.cache_entries, domain.to_string());
        }
        match extract_etld1(domain) {
            Some(family) => {
                let mut members = match family_get(&self.family_entries, family.as_str()) {
                    Some(list) => list,
                    None => Vec::new(),
                };
                proof {
                    assert(text::texts(members@) =~= old(self)@.members(family@));
                }
                if is_blocked && !lists_text(&members, domain) {
                    let ghost before = members@;
                    members.push(domain.to_string());
                    assert(text::texts(members@) =~= text::texts(before).push(domain@));
                }
                family_put(&mut self.family_entries, family, members);
            },
            None => {},
        }
    }

    /// Whether traffic to `domain` should take the tunnel.
    pub fn should_tunnel(&self, domain: &str) -> (yes: bool)
        ensures
            yes == self@.tunnels(self.limits(), domain@),
    {
        if cache_contains(&self.cache_entries, domain) {
            return true;
        }
        if self.is_family_blocked(domain) {
            return true;
        }
        match hot_get(&self.hot_entries, domain) {
            Some(entry) => entry.total_probes >= 5 && is_mostly_blocked(&entry),
            None => false,
        }
    }

    /// Whether the whole family of `domain` counts as blocked.
    fn is_family_blocked(&self, domain: &str) -> (yes: bool)
        ensures
            yes == self@.family_blocked(self.limits(), domain@),
    {
        match extract_etld1(domain) {
            Some(family) => match family_get(&self.family_entries, family.as_str()) {
                Some(members) => {
                    assert(text::texts(members@).len() == members@.len());
                    members.len() >= self.family_threshold
                },
                None => false,
            },
            None => false,
        }
    }

    /// The verdict on `domain`.
    pub fn get_verdict(&self, domain: &str) -> (v: AccumulatedVerdict)
        ensures
            v.domain@ == domain@,
            v.should_tunnel == self@.tunnels(self.limits(), domain@),
            v.blocked == v.should_tunnel,
            v.blocked_count == self@.entry(domain@, 0).blocked_count,
            v.total_probes == self@.entry(domain@, 0).total_probes,
            v.confidence == (if v.total_probes > 0 {
                Confidence { parts: v.blocked_count, whole: v.total_probes }
            } else {
                Confidence { parts: 0, whole: 1 }
            }),
            v.is_family == self@.family_blocked(self.limits(), domain@),
    {
        let should_tunnel = self.should_tunnel(domain);
        let (blocked_count, total_probes): (u32, u32) = match hot_get(&self.hot_entries, domain) {
            Some(entry) => (entry.blocked_count, entry.total_probes),
            None => (0, 0),
        };
        let confidence = if total_probes > 0 {
            Confidence { parts: blocked_count, whole: total_probes }
        } else {
            Confidence { parts: 0, whole: 1 }
        };
        AccumulatedVerdict {
            domain: domain.to_string(),
            blocked: should_tunnel,
            confidence,
            should_tunnel,
            blocked_count,
            total_probes,
            is_family: self.is_family_blocked(domain),
        }
    }

    /// Forgets the counts that are older than the time limit.
    pub fn cleanup(&mut self)
        ensures
            final(self).limits() == old(self).limits(),
            final(self)@ == old(self)@.cleaned(old(self).limits(), final(self).latest()),
            final(self).latest() >= old(self).latest(),
            exists|elapsed: Duration|
                final(self).latest() == later(
                    old(self).latest(),
                    #[trigger] clock::nanos_of(elapsed),
                ),
    {
        let now: u128 = self.now();
        self.cleanup_at(now);
    }

    /// Forgets the counts that are older than the time limit at `now`.
    pub fn cleanup_at(&mut self, now: u128)
        ensures
            final(self).limits() == old(self).limits(),
            final(self).latest() == old(self).latest(),
            final(self)@ == old(self)@.cleaned(old(self).limits(), now),
    {
        hot_retain_fresh(&mut self.hot_entries, now, self.hot_ttl_nanos);
    }

    /// The number of domains with counts.
    pub fn hot_count(&self) -> (n: usize)
        ensures
            n == self@.hot.dom().len(),
    {
        hot_len(&self.hot_entries)
    }

    /// The number of domains that are remembered for good.
    pub fn cache_count(&self) -> (n: usize)
        ensures
            n == self@.cache.len(),
    {
        cache_len(&self.cache_entries)
    }

    /// The number of families.
    pub fn family_count(&self) -> (n: usize)
        ensures
            n == self@.families.dom().len(),
    {
        family_len(&self.family_entries)
    }
}

} // verus!
