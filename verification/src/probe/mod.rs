//! The probe: what kind of blocking stands between here and a domain.
//!
//! A probe runs through phases, from DNS up to a transfer of data; see
//! [`run`]. Its verdict goes into the [`accumulator`], which decides whether
//! traffic to the domain should take the tunnel.

pub mod accumulator;
pub mod classifier;
pub mod config;
pub mod findings;
pub mod history;
pub mod http_probe;
pub mod letters;
pub mod rkn_stub;
pub mod run;
pub mod strategy_map;

pub use run::compute_verdict;

use accumulator::Accumulator;
use classifier::{Confidence, ProbeVerdict};
use config::ProbeConfig;
use findings::{
    DiscriminationResult, DnsProbeResult, Tcp16ProbeResult, TcpProbeResult, TlsProbeResult,
};
use http_probe::{HttpProbe, HttpProbeResult};
use run::{overall_verdict, ProbeRun};

use crate::{clock, text};
use vstd::prelude::*;

verus! {

/// What a probe of one domain found.
pub struct ProbeResult {
    pub domain: String,
    /// The address of the server: the first that DNS gave.
    pub ip: Option<[u8; 4]>,
    pub verdict: ProbeVerdict,
    pub confidence: Confidence,
    pub dns: DnsProbeResult,
    pub tcp: TcpProbeResult,
    pub tls: Option<TlsProbeResult>,
    pub http: Option<HttpProbeResult>,
    pub tcp16: Option<Tcp16ProbeResult>,
    pub discrimination: Option<DiscriminationResult>,
    /// Traffic to the domain should take the tunnel.
    pub should_tunnel: bool,
    pub timestamp: String,
}

impl ProbeResult {
    /// The result sums `run` up.
    pub open spec fn sums_up(self, run: ProbeRun) -> bool {
        &&& self.domain@ == run.domain@
        &&& self.ip == run.first_ip()
        &&& (self.verdict, self.confidence) == run.outcome()
        &&& Some(self.dns) == run.dns
        &&& self.tcp == run.settled_tcp()
        &&& self.tls == run.tls
        &&& self.http == run.http
        &&& self.tcp16 == run.tcp16
        &&& self.discrimination == run.discrimination
    }
}

/// The shape of a point in time in UTC: a date and a time of at least 19
/// characters, and the offset of UTC.
pub open spec fn is_utc_stamp(s: Seq<char>) -> bool {
    s.len() >= 25 && text::occurs_at(s, "+00:00"@, s.len() - 6)
}

/// The point in time that `chrono::Utc::now` reads, as `DateTime::to_rfc3339`
/// writes it. Which point that is, is left open.
#[verifier::external_body]
fn timestamp() -> (s: String)
    ensures
        is_utc_stamp(s@),
{
    chrono::Utc::now().to_rfc3339()
}

/// The probe: its settings, and what it has found so far.
pub struct ProbeModule {
    config: ProbeConfig,
    http: HttpProbe,
    accumulator: Accumulator,
}

impl ProbeModule {
    /// The settings.
    pub closed spec fn settings(&self) -> ProbeConfig {
        self.config
    }

    /// The HTTP phase.
    pub closed spec fn http_phase(&self) -> HttpProbe {
        self.http
    }

    /// What was found so far.
    pub closed spec fn found(&self) -> Accumulator {
        self.accumulator
    }

    /// A probe with the default settings.
    pub fn new() -> (module: ProbeModule)
        ensures
            module.settings().promote_threshold == 50,
            module.settings().family_threshold == 10,
            clock::nanos_of(module.settings().hot_ttl) == 86_400_000_000_000,
            clock::nanos_of(module.settings().http_read_timeout) == 10_000_000_000,
            text::texts(module.settings().rkn_stub_substrings@) == rkn_stub::default_stub_texts(),
            module.is_fresh(),
    {
        ProbeModule::with_config(ProbeConfig::default())
    }

    /// Nothing was found yet, and every part goes by the settings.
    pub open spec fn is_fresh(&self) -> bool {
        let settings = self.settings();
        &&& self.found()@ == accumulator::Knowledge::nothing()
        &&& self.found().latest() == 0
        &&& self.found().limits() == (accumulator::Limits {
            promote_threshold: settings.promote_threshold,
            family_threshold: settings.family_threshold,
            hot_ttl_nanos: clock::nanos_of(settings.hot_ttl),
        })
        &&& self.http_phase().stubs() == text::texts(settings.rkn_stub_substrings@)
        &&& self.http_phase().limit() == settings.http_read_timeout
    }

    /// A probe with the settings of `config`.
    pub fn with_config(config: ProbeConfig) -> (module: ProbeModule)
        ensures
            module.settings() == config,
            module.is_fresh(),
    {
        let http = HttpProbe::new(&config);
        let accumulator = Accumulator::new(
            config.promote_threshold,
            config.family_threshold,
            config.hot_ttl,
        );
        ProbeModule { config, http, accumulator }
    }

    /// Concludes a run: takes its verdict into account, and sums it up.
    pub fn conclude(&mut self, run: ProbeRun) -> (result: ProbeResult)
        requires
            run.wf(),
            run.pending() is Finished,
        ensures
            final(self).settings() == old(self).settings(),
            final(self).http_phase() == old(self).http_phase(),
            final(self).found().limits() == old(self).found().limits(),
            final(self).found()@ == old(self).found()@.recorded(
                old(self).found().limits(),
                run.domain@,
                accumulator::blocks(run.outcome().0),
                final(self).found().latest(),
            ),
            final(self).found().latest() >= old(self).found().latest(),
            exists|elapsed: std::time::Duration|
                final(self).found().latest() == accumulator::later(
                    old(self).found().latest(),
                    #[trigger] clock::nanos_of(elapsed),
                ),
            result.sums_up(run),
            run.discrimination is Some ==> result.verdict == run.discrimination->0.verdict
                && result.confidence == run.discrimination->0.confidence,
            result.should_tunnel == final(self).found()@.tunnels(
                final(self).found().limits(),
                run.domain@,
            ),
            is_utc_stamp(result.timestamp@),
    {
        let now: u128 = self.accumulator.now();
        self.conclude_at(run, now, timestamp())
    }

    /// Concludes a run at `now` of the accumulator's clock and `timestamp` of
    /// the calendar.
    pub fn conclude_at(&mut self, run: ProbeRun, now: u128, timestamp: String) -> (result:
        ProbeResult)
        requires
            run.wf(),
            run.pending() is Finished,
        ensures
            final(self).settings() == old(self).settings(),
            final(self).http_phase() == old(self).http_phase(),
            final(self).found().limits() == old(self).found().limits(),
            final(self).found().latest() == old(self).found().latest(),
            final(self).found()@ == old(self).found()@.recorded(
                old(self).found().limits(),
                run.domain@,
                accumulator::blocks(run.outcome().0),
                now,
            ),
            result.sums_up(run),
            run.discrimination is Some ==> result.verdict == run.discrimination->0.verdict
                && result.confidence == run.discrimination->0.confidence,
            result.should_tunnel == final(self).found()@.tunnels(
                final(self).found().limits(),
                run.domain@,
            ),
            result.timestamp == timestamp,
    {
        let ip = run.ip();
        let tcp = run.final_tcp();
        let tls = match &run.tls {
            Some(tls) => Some(tls.verdict),
            None => None,
        };
        proof {
            run::finished_runs_are_complete(run);
        }
        let dns = run.dns.unwrap();
        let (verdict, confidence) = overall_verdict(&dns, &tcp, tls, run.discrimination);
        self.accumulator.record_at(run.domain.as_str(), &verdict, now);
        let should_tunnel = self.accumulator.should_tunnel(run.domain.as_str());
        ProbeResult {
            domain: run.domain,
            ip,
            verdict,
            confidence,
            dns,
            tcp,
            tls: run.tls,
            http: run.http,
            tcp16: run.tcp16,
            discrimination: run.discrimination,
            should_tunnel,
            timestamp,
        }
    }

    /// The settings.
    pub fn config(&self) -> (config: &ProbeConfig)
        ensures
            *config == self.settings(),
    {
        &self.config
    }

    /// The HTTP phase.
    pub fn http(&self) -> (http: &HttpProbe)
        ensures
            *http == self.http_phase(),
    {
        &self.http
    }

    /// What was found so far.
    pub fn accumulator(&self) -> (accumulator: &Accumulator)
        ensures
            *accumulator == self.found(),
    {
        &self.accumulator
    }

    /// What was found so far, to be added to or cleaned up.
    pub fn accumulator_mut(&mut self) -> (accumulator: &mut Accumulator)
        ensures
            *accumulator == old(self).found(),
            final(self).found() == *final(accumulator),
            final(self).settings() == old(self).settings(),
            final(self).http_phase() == old(self).http_phase(),
    {
        &mut self.accumulator
    }
}

impl Default for ProbeModule {
    fn default() -> (module: ProbeModule)
        ensures
            module.settings().promote_threshold == 50,
            module.settings().family_threshold == 10,
            clock::nanos_of(module.settings().hot_ttl) == 86_400_000_000_000,
            clock::nanos_of(module.settings().http_read_timeout) == 10_000_000_000,
            text::texts(module.settings().rkn_stub_substrings@) == rkn_stub::default_stub_texts(),
            module.is_fresh(),
    {
        ProbeModule::new()
    }
}

/// A run that was discriminated is summed up by its discrimination: the result
/// has its verdict and its confidence, and counts as a block of the domain if
/// and only if the discrimination found one.
pub proof fn discriminated_runs_count_as_such(
    run: ProbeRun,
    result: ProbeResult,
    known: accumulator::Knowledge,
    limits: accumulator::Limits,
    now: u128,
)
    requires
        run.discrimination is Some,
        result.sums_up(run),
        known.hot.dom().contains(run.domain@) ==> known.hot[run.domain@].blocked_count < u32::MAX,
    ensures
        result.verdict == run.discrimination->0.verdict,
        result.confidence == run.discrimination->0.confidence,
        ({
            let next = known.recorded(
                limits,
                run.domain@,
                accumulator::blocks(run.outcome().0),
                now,
            );
            let before: int = if known.hot.dom().contains(run.domain@) {
                known.hot[run.domain@].blocked_count as int
            } else {
                0
            };
            &&& next.hot.dom().contains(run.domain@)
            &&& run.discrimination->0.verdict == ProbeVerdict::Blocked
                ==> next.hot[run.domain@].blocked_count == before + 1
            &&& run.discrimination->0.verdict != ProbeVerdict::Blocked
                ==> next.hot[run.domain@].blocked_count == before
        }),
{
    run::discrimination_decides(
        run,
        run.dns->0.verdict,
        run.settled_tcp().verdict,
        None,
        run.discrimination->0,
    );
}

/// A result holds what its run found: the domain, the verdict, the reports, and
/// the first address that DNS resolved without a finding. A transfer that was
/// found cut shows in the TCP finding.
pub proof fn results_hold_the_reports(run: ProbeRun, result: ProbeResult)
    requires
        run.dns is Some,
        result.sums_up(run),
    ensures
        result.domain@ == run.domain@,
        result.verdict == run.outcome().0,
        result.confidence == run.outcome().1,
        result.dns == run.dns->0,
        run.tcp16 is Some && run.tcp16->0.detected ==> result.tcp.verdict
            == classifier::TcpFailureCode::DataVolumeCut,
        !(run.tcp16 is Some && run.tcp16->0.detected) && run.tcp is Some ==> result.tcp.verdict
            == run.tcp->0.verdict,
        !(run.tcp16 is Some && run.tcp16->0.detected) && run.tcp is None ==> result.tcp.verdict
            == classifier::TcpFailureCode::Timeout,
        run.tcp is Some ==> result.tcp.ip == run.tcp->0.ip && result.tcp.rtt_us == run.tcp->0.rtt_us,
        result.tls == run.tls,
        result.http == run.http,
        result.tcp16 == run.tcp16,
        result.discrimination == run.discrimination,
        result.ip is Some <==> result.dns.verdict == classifier::DnsFailureCode::DnsOk
            && result.dns.resolved_ips@.len() > 0,
        result.ip is Some ==> result.ip->0 == result.dns.resolved_ips@[0],
{
    run::addresses_come_from_dns(run);
    run::cuts_replace_the_tcp_finding(run);
}

/// A probe that is fresh has found nothing, sends nothing through the tunnel, and
/// goes by its settings.
pub proof fn fresh_probes_go_by_their_settings(module: ProbeModule, domain: Seq<char>)
    requires
        module.is_fresh(),
    ensures
        !module.found()@.hot.dom().contains(domain),
        !module.found()@.cache.contains(domain),
        !module.found()@.families.dom().contains(domain),
        !module.found()@.tunnels(module.found().limits(), domain),
        module.found().limits().promote_threshold == module.settings().promote_threshold,
        module.found().limits().family_threshold == module.settings().family_threshold,
        module.found().limits().hot_ttl_nanos == clock::nanos_of(module.settings().hot_ttl),
        module.http_phase().limit() == module.settings().http_read_timeout,
        module.http_phase().stubs() == text::texts(module.settings().rkn_stub_substrings@),
{
}

} // verus!
