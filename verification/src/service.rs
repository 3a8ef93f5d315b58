//! The service: what it tells its clients, and what it remembers.

use crate::probe::classifier::{
    Confidence, DnsFailureCode, HttpFailureCode, TcpFailureCode, TlsFailureCode,
};
use crate::probe::findings::Tcp16ProbeResult;
use crate::probe::run::ProbeRun;
use crate::probe::strategy_map;
use crate::probe::strategy_map::{recommend, StrategyRecommendation};
use crate::probe::ProbeResult;
use crate::text;
use crate::text::{append_decimal, copy_texts, lists_text, to_lower};
use vstd::prelude::*;
use vstd::string::*;

verus! {

// ---------------------------------------------------------------------------
// Reports
// ---------------------------------------------------------------------------

/// What one phase of a probe comes to.
pub struct PhaseResult {
    pub phase: String,
    pub status: String,
    pub detail: String,
    pub latency_us: Option<u64>,
}

/// A technique that should help.
pub struct Recommendation {
    pub strategy_name: String,
    pub confidence: Confidence,
    pub rationale: String,
}

/// What a probe comes to, for a client to read.
pub struct ProbeResponse {
    pub domain: String,
    pub verdict: String,
    pub confidence: Confidence,
    pub dns: PhaseResult,
    pub tcp: PhaseResult,
    pub tls: Option<PhaseResult>,
    pub http: Option<PhaseResult>,
    pub tcp16: Option<PhaseResult>,
    pub recommendations: Vec<Recommendation>,
    pub should_tunnel: bool,
    pub timestamp: String,
}

impl PhaseResult {
    /// The phase `phase` went well or not, for the reason `detail`.
    pub open spec fn says(
        self,
        phase: Seq<char>,
        ok: bool,
        detail: Seq<char>,
        latency_us: u64,
    ) -> bool {
        &&& self.phase@ == phase
        &&& self.status@ == if ok {
            "ok"@
        } else {
            "blocked"@
        }
        &&& self.detail@ == detail
        &&& self.latency_us == Some(latency_us)
    }

    fn new(phase: &str, ok: bool, detail: &str, latency_us: u64) -> (result: PhaseResult)
        ensures
            result.says(phase@, ok, detail@, latency_us),
    {
        let status = if ok {
            "ok"
        } else {
            "blocked"
        };
        PhaseResult {
            phase: phase.to_string(),
            status: status.to_string(),
            detail: detail.to_string(),
            latency_us: Some(latency_us),
        }
    }
}

impl Recommendation {
    /// The recommendation passes `advice` on.
    pub open spec fn passes_on(self, advice: strategy_map::Advice) -> bool {
        &&& self.strategy_name@ == advice.name
        &&& self.confidence == advice.confidence
        &&& self.rationale@ == advice.rationale
    }
}

/// The reason that the data volume phase gives.
pub open spec fn volume_detail(volume: Tcp16ProbeResult) -> Seq<char> {
    if volume.detected {
        "detected at "@ + text::decimal(volume.detected_at_kb as nat) + "KB"@
    } else {
        "ok"@
    }
}

impl ProbeResponse {
    /// The response tells everything that `result` holds for a client.
    pub open spec fn tells(self, result: ProbeResult) -> bool {
        &&& self.domain@ == result.domain@
        &&& self.verdict@ == result.verdict.lower_label()
        &&& self.confidence == result.confidence
        &&& self.dns.says(
            "dns"@,
            result.dns.verdict == DnsFailureCode::DnsOk,
            result.dns.verdict.label(),
            result.dns.latency_us,
        )
        &&& self.tcp.says(
            "tcp"@,
            result.tcp.verdict == TcpFailureCode::ConnectOk,
            result.tcp.verdict.label(),
            result.tcp.rtt_us,
        )
        &&& match (self.tls, result.tls) {
            (Some(told), Some(tls)) => told.says(
                "tls"@,
                !tls.verdict.tls_failed(),
                tls.verdict.label(),
                tls.latency_us,
            ),
            (None, None) => true,
            _ => false,
        }
        &&& match (self.http, result.http) {
            (Some(told), Some(http)) => told.says(
                "http"@,
                !http.verdict.http_failed(),
                http.verdict.label(),
                http.latency_us,
            ),
            (None, None) => true,
            _ => false,
        }
        &&& match (self.tcp16, result.tcp16) {
            (Some(told), Some(volume)) => told.says(
                "tcp16"@,
                !volume.detected,
                volume_detail(volume),
                volume.rtt_us,
            ),
            (None, None) => true,
            _ => false,
        }
        &&& self.recommendations@.len() == strategy_map::advice_on(result).len()
        &&& forall|i: int|
            0 <= i < self.recommendations@.len() ==> (
            #[trigger] self.recommendations@[i]).passes_on(strategy_map::advice_on(result)[i])
        &&& self.should_tunnel == result.should_tunnel
        &&& self.timestamp@ == result.timestamp@
    }
}

fn pass_on(recs: &Vec<StrategyRecommendation>) -> (told: Vec<Recommendation>)
    ensures
        told@.len() == recs@.len(),
        forall|i: int| 0 <= i < told@.len() ==> (#[trigger] told@[i]).passes_on(recs@[i]@),
{
    let mut told: Vec<Recommendation> = Vec::new();
    let mut i: usize = 0;
    while i < recs.len()
        invariant
            i <= recs@.len(),
            told@.len() == i,
            forall|j: int| 0 <= j < i ==> (#[trigger] told@[j]).passes_on(recs@[j]@),
        decreases recs@.len() - i,
    {
        told.push(
            Recommendation {
                strategy_name: recs[i].strategy_name.clone(),
                confidence: recs[i].confidence,
                rationale: recs[i].rationale.clone(),
            },
        );
        i += 1;
    }
    told
}

/// What a probe found, for a client to read.
pub fn describe(result: &ProbeResult) -> (response: ProbeResponse)
    ensures
        response.tells(*result),
{
    let recs = recommend(result);
    let recommendations = pass_on(&recs);
    assert forall|i: int| 0 <= i < recs@.len() implies recs@[i]@ == #[trigger]
        strategy_map::advice_on(*result)[i] by {
        assert(strategy_map::all_seen(recs@)[i] == recs@[i]@);
    }
    let tls = match &result.tls {
        Some(tls) => Some(
            PhaseResult::new(
                "tls",
                !tls.verdict.is_tls_fail(),
                tls.verdict.name(),
                tls.latency_us,
            ),
        ),
        None => None,
    };
    let http = match &result.http {
        Some(http) => Some(
            PhaseResult::new(
                "http",
                !http.verdict.is_error(),
                http.verdict.name(),
                http.latency_us,
            ),
        ),
        None => None,
    };
    let tcp16 = match &result.tcp16 {
        Some(volume) => {
            let mut detail = String::new();
            if volume.detected {
                detail.append("detected at ");
                append_decimal(&mut detail, volume.detected_at_kb as u64);
                detail.append("KB");
            } else {
                detail.append("ok");
            }
            assert(detail@ =~= volume_detail(*volume));
            Some(PhaseResult::new("tcp16", !volume.detected, detail.as_str(), volume.rtt_us))
        },
        None => None,
    };
    ProbeResponse {
        domain: result.domain.clone(),
        verdict: result.verdict.lower_name().to_string(),
        confidence: result.confidence,
        dns: PhaseResult::new(
            "dns",
            result.dns.verdict == DnsFailureCode::DnsOk,
            result.dns.verdict.name(),
            result.dns.latency_us,
        ),
        tcp: PhaseResult::new(
            "tcp",
            result.tcp.verdict == TcpFailureCode::ConnectOk,
            result.tcp.verdict.name(),
            result.tcp.rtt_us,
        ),
        tls,
        http,
        tcp16,
        recommendations,
        should_tunnel: result.should_tunnel,
        timestamp: result.timestamp.clone(),
    }
}

/// What clients are told of a quick probe holds nothing of a page or a
/// transfer.
pub proof fn quick_probes_tell_of_no_page(
    run: ProbeRun,
    result: ProbeResult,
    response: ProbeResponse,
)
    requires
        run.wf(),
        run.quick,
        result.sums_up(run),
        response.tells(result),
    ensures
        response.http is None,
        response.tcp16 is None,
{
}

// ---------------------------------------------------------------------------
// History
// ---------------------------------------------------------------------------

/// How many responses are remembered.
pub const HISTORY_LIMIT: usize = 100;

/// The latest responses, the newest first.
pub struct History<T> {
    entries: Vec<T>,
}

/// The first `HISTORY_LIMIT` of `s`.
pub open spec fn latest<T>(s: Seq<T>) -> Seq<T> {
    if s.len() <= HISTORY_LIMIT {
        s
    } else {
        s.take(HISTORY_LIMIT as int)
    }
}

/// What is remembered once `entry` came.
pub open spec fn remembered<T>(known: Seq<T>, entry: T) -> Seq<T> {
    latest(seq![entry] + known)
}

/// What is remembered once all of `batch` came, in order.
pub open spec fn all_remembered<T>(known: Seq<T>, batch: Seq<T>) -> Seq<T> {
    latest(batch.reverse() + known)
}

impl<T> View for History<T> {
    type V = Seq<T>;

    closed spec fn view(&self) -> Seq<T> {
        self.entries@
    }
}

impl<T> History<T> {
    /// Nothing is remembered.
    pub fn new() -> (history: History<T>)
        ensures
            history@ == Seq::<T>::empty(),
    {
        History { entries: Vec::new() }
    }

    /// Remembers `entry`.
    pub fn remember(&mut self, entry: T)
        ensures
            final(self)@ == remembered(old(self)@, entry),
    {
        self.entries.insert(0, entry);
        assert(self.entries@ =~= seq![entry] + old(self)@);
        self.entries.truncate(HISTORY_LIMIT);
    }

    /// Remembers all of `batch`, in order.
    pub fn remember_all(&mut self, batch: Vec<T>)
        ensures
            final(self)@ == all_remembered(old(self)@, batch@),
    {
        let mut rest = batch;
        let ghost whole = batch@;
        let ghost mut done: int = 0;
        assert(whole.skip(0) =~= whole);
        assert(whole.take(0).reverse() + old(self)@ =~= old(self)@);
        while rest.len() > 0
            invariant
                0 <= done <= whole.len(),
                rest@ == whole.skip(done),
                self.entries@ == whole.take(done).reverse() + old(self)@,
            decreases rest@.len(),
        {
            let entry = rest.remove(0);
            self.entries.insert(0, entry);
            proof {
                assert(entry == whole[done]);
                assert(self.entries@ =~= whole.take(done + 1).reverse() + old(self)@);
                done = done + 1;
                assert(rest@ =~= whole.skip(done));
            }
        }
        assert(whole.take(done) =~= whole);
        self.entries.truncate(HISTORY_LIMIT);
    }

    /// What is remembered, the newest first.
    pub fn entries(&self) -> (entries: &Vec<T>)
        ensures
            entries@ == self@,
    {
        &self.entries
    }
}

/// The newest response comes first, and no more than the limit are kept.
pub proof fn history_keeps_the_latest<T>(known: Seq<T>, entry: T)
    ensures
        remembered(known, entry).len() > 0,
        remembered(known, entry)[0] == entry,
        remembered(known, entry).len() <= HISTORY_LIMIT,
        forall|i: int|
            0 < i < remembered(known, entry).len() ==> #[trigger] remembered(known, entry)[i]
                == known[i - 1],
{
}

/// A batch is remembered as its responses would be, one after the other.
pub proof fn batches_are_remembered_in_order<T>(known: Seq<T>, batch: Seq<T>, entry: T)
    ensures
        all_remembered(known, Seq::empty()) == latest(known),
        all_remembered(known, batch.push(entry)) == remembered(
            all_remembered(known, batch),
            entry,
        ),
{
    assert(Seq::<T>::empty().reverse() + known =~= known);
    assert(batch.push(entry).reverse() + known =~= seq![entry] + (batch.reverse() + known));
    assert(all_remembered(known, batch.push(entry)) =~= remembered(
        all_remembered(known, batch),
        entry,
    ));
}

// ---------------------------------------------------------------------------
// Trying a technique
// ---------------------------------------------------------------------------

/// How the trial of a technique went.
pub struct StrategyTestResult {
    pub test_id: String,
    pub domain: String,
    pub strategy_id: u32,
    pub success: bool,
    pub latency_ms: u64,
    pub handshake_completed: bool,
    pub error: Option<String>,
}

/// The shape of a random identifier: five groups of characters with hyphens
/// between them, of which the third begins with a 4.
pub open spec fn is_test_id(id: Seq<char>) -> bool {
    &&& id.len() == 36
    &&& id[8] == '-'
    &&& id[13] == '-'
    &&& id[14] == '4'
    &&& id[18] == '-'
    &&& id[23] == '-'
}

/// `uuid::Uuid::new_v4`, written out by its `Display`: a random identifier of
/// version 4. Nothing is known of its random digits.
#[verifier::external_body]
fn new_test_id() -> (id: String)
    ensures
        is_test_id(id@),
{
    uuid::Uuid::new_v4().to_string()
}

/// Tries technique `strategy_id` on `domain`, under a fresh identifier.
pub fn test_strategy(domain: &str, strategy_id: u32) -> (result: StrategyTestResult)
    ensures
        is_test_id(result.test_id@),
        result.reports(domain@, strategy_id),
{
    test_strategy_as(new_test_id(), domain, strategy_id)
}

/// Tries technique `strategy_id` on `domain`, under the identifier `test_id`.
pub fn test_strategy_as(test_id: String, domain: &str, strategy_id: u32) -> (result:
    StrategyTestResult)
    ensures
        result.test_id == test_id,
        result.reports(domain@, strategy_id),
{
    StrategyTestResult {
        test_id,
        domain: domain.to_string(),
        strategy_id,
        success: true,
        latency_ms: 42,
        handshake_completed: true,
        error: None,
    }
}

impl StrategyTestResult {
    /// The trial of `strategy_id` on `domain` succeeded after 42 milliseconds.
    pub open spec fn reports(self, domain: Seq<char>, strategy_id: u32) -> bool {
        &&& self.domain@ == domain
        &&& self.strategy_id == strategy_id
        &&& self.success
        &&& self.latency_ms == 42
        &&& self.handshake_completed
        &&& self.error is None
    }
}

// ---------------------------------------------------------------------------
// Presets
// ---------------------------------------------------------------------------

/// A list of domains that comes with the service.
pub struct Preset {
    pub id: String,
    pub name: String,
    pub category: String,
    pub domains: Vec<String>,
}

/// What a client is told of a preset.
pub struct PresetList {
    pub id: String,
    pub name: String,
    pub category: String,
    pub domain_count: usize,
}

impl PresetList {
    /// The entry tells of `preset`: its category in lower case, and how many
    /// domains it has.
    pub open spec fn tells(self, preset: Preset) -> bool {
        &&& self.id@ == preset.id@
        &&& self.name@ == preset.name@
        &&& self.category@ == text::lowercased(preset.category@)
        &&& self.domain_count == preset.domains@.len()
    }
}

/// The domains of the presets whose identifier is one of `ids`, preset by
/// preset.
pub open spec fn domains_of(presets: Seq<Preset>, ids: Seq<Seq<char>>) -> Seq<Seq<char>>
    decreases presets.len(),
{
    if presets.len() == 0 {
        Seq::empty()
    } else {
        let front = domains_of(presets.drop_last(), ids);
        if ids.contains(presets.last().id@) {
            front + text::texts(presets.last().domains@)
        } else {
            front
        }
    }
}

/// The domains of the presets whose identifier is one of `ids`, preset by
/// preset.
pub fn get_domains_by_ids(presets: &Vec<Preset>, ids: &Vec<String>) -> (domains: Vec<String>)
    ensures
        text::texts(domains@) == domains_of(presets@, text::texts(ids@)),
{
    let mut domains: Vec<String> = Vec::new();
    assert(text::texts(domains@) =~= Seq::empty());
    assert(presets@.take(0) =~= Seq::empty());
    let mut i: usize = 0;
    while i < presets.len()
        invariant
            i <= presets@.len(),
            text::texts(domains@) == domains_of(presets@.take(i as int), text::texts(ids@)),
        decreases presets@.len() - i,
    {
        assert(presets@.take(i + 1).drop_last() =~= presets@.take(i as int));
        if lists_text(ids, presets[i].id.as_str()) {
            let mut more = copy_texts(&presets[i].domains);
            let ghost before = domains@;
            let ghost added = more@;
            domains.append(&mut more);
            assert(text::texts(domains@) =~= text::texts(before) + text::texts(added));
        }
        i += 1;
    }
    assert(presets@.take(i as int) =~= presets@);
    domains
}

/// What clients are told of the presets.
pub fn get_presets(presets: &Vec<Preset>) -> (list: Vec<PresetList>)
    ensures
        list@.len() == presets@.len(),
        forall|i: int| 0 <= i < list@.len() ==> (#[trigger] list@[i]).tells(presets@[i]),
{
    let mut list: Vec<PresetList> = Vec::new();
    let mut i: usize = 0;
    while i < presets.len()
        invariant
            i <= presets@.len(),
            list@.len() == i,
            forall|j: int| 0 <= j < i ==> (#[trigger] list@[j]).tells(presets@[j]),
        decreases presets@.len() - i,
    {
        let preset = &presets[i];
        list.push(
            PresetList {
                id: preset.id.clone(),
                name: preset.name.clone(),
                category: to_lower(preset.category.as_str()),
                domain_count: preset.domains.len(),
            },
        );
        i += 1;
    }
    list
}

// ---------------------------------------------------------------------------
// Laws
// ---------------------------------------------------------------------------

/// A response gives the domain, the verdict in words, and of each phase that
/// reported its name, whether it went well, and how long it took. A phase that
/// did not report is left out.
pub proof fn responses_tell_of_each_phase(result: ProbeResult, response: ProbeResponse)
    requires
        response.tells(result),
    ensures
        response.domain@ == result.domain@,
        response.verdict@ == if result.verdict is Blocked {
            "blocked"@
        } else {
            "ambiguous"@
        },
        response.confidence == result.confidence,
        response.should_tunnel == result.should_tunnel,
        response.timestamp@ == result.timestamp@,
        response.dns.phase@ == "dns"@,
        response.dns.status@ == if result.dns.verdict == DnsFailureCode::DnsOk {
            "ok"@
        } else {
            "blocked"@
        },
        response.dns.detail@ == result.dns.verdict.label(),
        response.dns.latency_us == Some(result.dns.latency_us),
        response.tcp.phase@ == "tcp"@,
        response.tcp.status@ == if result.tcp.verdict == TcpFailureCode::ConnectOk {
            "ok"@
        } else {
            "blocked"@
        },
        response.tcp.detail@ == result.tcp.verdict.label(),
        response.tcp.latency_us == Some(result.tcp.rtt_us),
        response.tls is Some <==> result.tls is Some,
        response.tls is Some ==> {
            let told = response.tls->0;
            let tls = result.tls->0;
            &&& told.phase@ == "tls"@
            &&& told.status@ == if tls.verdict == TlsFailureCode::HandshakeOk || tls.verdict
                == TlsFailureCode::Version12Only {
                "ok"@
            } else {
                "blocked"@
            }
            &&& told.detail@ == tls.verdict.label()
            &&& told.latency_us == Some(tls.latency_us)
        },
        response.http is Some <==> result.http is Some,
        response.http is Some ==> {
            let told = response.http->0;
            let http = result.http->0;
            &&& told.phase@ == "http"@
            &&& told.status@ == if http.verdict == HttpFailureCode::HttpOk || http.verdict
                == HttpFailureCode::RedirectSame {
                "ok"@
            } else {
                "blocked"@
            }
            &&& told.detail@ == http.verdict.label()
            &&& told.latency_us == Some(http.latency_us)
        },
        response.tcp16 is Some <==> result.tcp16 is Some,
        response.tcp16 is Some ==> {
            let told = response.tcp16->0;
            let volume = result.tcp16->0;
            &&& told.phase@ == "tcp16"@
            &&& told.status@ == if volume.detected {
                "blocked"@
            } else {
                "ok"@
            }
            &&& volume.detected ==> told.detail@ == "detected at "@ + text::decimal(
                volume.detected_at_kb as nat,
            ) + "KB"@
            &&& !volume.detected ==> told.detail@ == "ok"@
            &&& told.latency_us == Some(volume.rtt_us)
        },
{
}

/// A response passes all advice on, in its order: the name of the technique, how
/// sure the advice is, and the reason.
pub proof fn responses_pass_the_advice_on(result: ProbeResult, response: ProbeResponse, i: int)
    requires
        response.tells(result),
        0 <= i < strategy_map::advice_on(result).len(),
    ensures
        response.recommendations@.len() == strategy_map::advice_on(result).len(),
        response.recommendations@[i].strategy_name@ == strategy_map::advice_on(result)[i].name,
        response.recommendations@[i].confidence == strategy_map::advice_on(result)[i].confidence,
        response.recommendations@[i].rationale@ == strategy_map::advice_on(result)[i].rationale,
{
    assert(response.recommendations@[i].passes_on(strategy_map::advice_on(result)[i]));
}

/// Whoever reads of forged DNS is told to use DNS over HTTPS.
pub proof fn readers_of_forged_dns_are_told_of_doh(
    result: ProbeResult,
    response: ProbeResponse,
) -> (i: int)
    requires
        response.tells(result),
        result.dns.verdict == DnsFailureCode::Poisoned || result.dns.verdict
            == DnsFailureCode::NxdomainSpoof || result.dns.verdict == DnsFailureCode::EmptySpoof
            || result.dns.verdict == DnsFailureCode::Intercepted,
    ensures
        0 <= i < response.recommendations@.len(),
        response.recommendations@[i].strategy_name@ == "doh_dns"@,
{
    strategy_map::forged_dns_calls_for_doh(result);
    let list = strategy_map::advice_on(result);
    let i = choose|i: int| 0 <= i < list.len() && (#[trigger] list[i]).name == "doh_dns"@;
    responses_pass_the_advice_on(result, response, i);
    i
}

/// A hundred responses are remembered at most, and none is forgotten before
/// that: one more response makes one more entry, or drops the oldest.
pub proof fn a_hundred_are_remembered<T>(known: Seq<T>, entry: T)
    ensures
        known.len() < 100 ==> remembered(known, entry).len() == known.len() + 1,
        known.len() >= 100 ==> remembered(known, entry).len() == 100,
        remembered(known, entry)[0] == entry,
        forall|i: int|
            0 <= i < known.len() && i < 99 ==> remembered(known, entry)[i + 1] == #[trigger] known[i],
{
}

/// Of a batch, the last response comes first; what was known before follows,
/// and a hundred are remembered at most.
pub proof fn batches_come_newest_first<T>(known: Seq<T>, batch: Seq<T>)
    ensures
        batch.len() + known.len() <= 100 ==> all_remembered(known, batch).len() == batch.len()
            + known.len(),
        batch.len() + known.len() > 100 ==> all_remembered(known, batch).len() == 100,
        forall|i: int|
            0 <= i < batch.len() && i < 100 ==> #[trigger] all_remembered(known, batch)[i]
                == batch[batch.len() - 1 - i],
        forall|i: int|
            0 <= i < known.len() && batch.len() + i < 100 ==> all_remembered(
                known,
                batch,
            )[batch.len() + i] == #[trigger] known[i],
{
}

/// The domains of presets go preset by preset: those of two lists of presets
/// are those of the first and then those of the second, and a single preset
/// gives all its domains in order, or none if its identifier was not asked for.
pub proof fn presets_give_their_domains(
    front: Seq<Preset>,
    back: Seq<Preset>,
    preset: Preset,
    ids: Seq<Seq<char>>,
)
    ensures
        domains_of(front + back, ids) == domains_of(front, ids) + domains_of(back, ids),
        (exists|i: int| 0 <= i < ids.len() && #[trigger] ids[i] == preset.id@) ==> domains_of(
            seq![preset],
            ids,
        ) == text::texts(preset.domains@),
        (forall|i: int| 0 <= i < ids.len() ==> #[trigger] ids[i] != preset.id@) ==> domains_of(
            seq![preset],
            ids,
        ).len() == 0,
    decreases back.len(),
{
    let one = seq![preset];
    assert(one.drop_last() =~= Seq::empty());
    assert(one.last() == preset);
    assert(domains_of(one.drop_last(), ids) =~= Seq::empty());
    assert(Seq::<Seq<char>>::empty() + text::texts(preset.domains@) =~= text::texts(
        preset.domains@,
    ));
    if back.len() == 0 {
        assert(front + back =~= front);
        assert(domains_of(front, ids) + domains_of(back, ids) =~= domains_of(front, ids));
    } else {
        assert((front + back).drop_last() =~= front + back.drop_last());
        assert((front + back).last() == back.last());
        presets_give_their_domains(front, back.drop_last(), preset, ids);
        assert(domains_of(front + back, ids) =~= domains_of(front, ids) + domains_of(back, ids));
    }
}

/// What is told of a preset is its identifier, its name, its category in lower
/// case, and how many domains it has.
pub proof fn entries_tell_of_their_preset(entry: PresetList, preset: Preset)
    ensures
        entry.tells(preset) <==> entry.id@ == preset.id@ && entry.name@ == preset.name@
            && entry.category@ == text::lowercased(preset.category@) && entry.domain_count
            == preset.domains@.len(),
{
}

/// A trial reports on the technique and the domain that were asked for, that it
/// succeeded after 42 milliseconds, and no error.
pub proof fn trials_report_on_what_was_asked(
    trial: StrategyTestResult,
    domain: Seq<char>,
    strategy_id: u32,
)
    ensures
        trial.reports(domain, strategy_id) <==> trial.domain@ == domain && trial.strategy_id
            == strategy_id && trial.success && trial.handshake_completed && trial.latency_ms == 42
            && trial.error is None,
{
}

} // verus!
