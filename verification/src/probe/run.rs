//! One run of the probe: which phase comes next, and what the phases add up to.
//!
//! The phases themselves are carried out elsewhere. A run says which phase is
//! due, takes its report, and in the end gives the verdict.

use super::classifier::{
    Confidence, DnsFailureCode, HttpFailureCode, ProbeVerdict, TcpFailureCode, TlsFailureCode,
};
use super::findings::{
    DiscriminationResult, DnsProbeResult, Tcp16ProbeResult, TcpProbeResult, TlsProbeResult,
};
use super::http_probe::HttpProbeResult;
use vstd::prelude::*;

verus! {

/// The port of the TCP phase.
pub const TLS_PORT: u16 = 443;

/// What a run is waiting for.
#[derive(Clone, Copy, Debug)]
pub enum Phase {
    /// Compare the resolvers.
    Dns,
    /// Connect to one of the addresses.
    Tcp { port: u16 },
    /// Make a TLS handshake.
    Tls { ip: [u8; 4] },
    /// Ask for a page.
    Http { ip: [u8; 4] },
    /// Transfer a volume of data.
    Volume { ip: [u8; 4] },
    /// Tell the server and the path apart.
    Discriminate { tls: TlsFailureCode, http: HttpFailureCode },
    /// Nothing: the verdict is due.
    Finished,
}

/// What a phase reports.
pub enum Report {
    Dns(DnsProbeResult),
    Tcp(TcpProbeResult),
    Tls(TlsProbeResult),
    Http(HttpProbeResult),
    Volume(Tcp16ProbeResult),
    Discriminated(DiscriminationResult),
}

impl Phase {
    /// `report` is what this phase reports.
    pub open spec fn answered_by(self, report: Report) -> bool {
        match self {
            Phase::Dns => report is Dns,
            Phase::Tcp { .. } => report is Tcp,
            Phase::Tls { .. } => report is Tls,
            Phase::Http { .. } => report is Http,
            Phase::Volume { .. } => report is Volume,
            Phase::Discriminate { .. } => report is Discriminated,
            Phase::Finished => false,
        }
    }
}

/// The reports of one run so far.
pub struct ProbeRun {
    pub domain: String,
    /// The run ends with the TLS phase: no page is asked for.
    pub quick: bool,
    pub dns: Option<DnsProbeResult>,
    pub tcp: Option<TcpProbeResult>,
    pub tls: Option<TlsProbeResult>,
    pub http: Option<HttpProbeResult>,
    pub tcp16: Option<Tcp16ProbeResult>,
    pub discrimination: Option<DiscriminationResult>,
}

impl ProbeRun {
    /// The addresses to go on with: those of the DNS phase, if it found nothing
    /// wrong.
    pub open spec fn ips(self) -> Seq<[u8; 4]> {
        if self.dns is Some && self.dns->0.verdict == DnsFailureCode::DnsOk {
            self.dns->0.resolved_ips@
        } else {
            Seq::empty()
        }
    }

    /// The address of the server: the first of them.
    pub open spec fn first_ip(self) -> Option<[u8; 4]> {
        if self.ips().len() > 0 {
            Some(self.ips()[0])
        } else {
            None
        }
    }

    /// The TCP phase made a connection.
    pub open spec fn connected(self) -> bool {
        self.tcp is Some && self.tcp->0.verdict == TcpFailureCode::ConnectOk
    }

    /// The TLS phase made a session.
    pub open spec fn secured(self) -> bool {
        self.tls is Some && !self.tls->0.verdict.tls_failed()
    }

    /// A page is to be asked for: there is a session, and the run is no quick
    /// one.
    pub open spec fn wants_page(self) -> bool {
        self.secured() && !self.quick
    }

    /// The HTTP phase found the response cut off.
    pub open spec fn cut_off(self) -> bool {
        self.http is Some && self.http->0.verdict == HttpFailureCode::Cutoff
    }

    /// The phase that is due: each phase once, and only where the one before it
    /// calls for it.
    pub open spec fn pending(self) -> Phase {
        if self.dns is None {
            Phase::Dns
        } else if self.ips().len() > 0 && self.tcp is None {
            Phase::Tcp { port: TLS_PORT }
        } else if self.connected() && self.tls is None {
            Phase::Tls { ip: self.ips()[0] }
        } else if self.wants_page() && self.http is None {
            Phase::Http { ip: self.ips()[0] }
        } else if self.cut_off() && self.tcp16 is None {
            Phase::Volume { ip: self.ips()[0] }
        } else if self.tls is Some && self.discrimination is None {
            Phase::Discriminate {
                tls: self.tls->0.verdict,
                http: if self.http is Some {
                    self.http->0.verdict
                } else {
                    HttpFailureCode::HttpOk
                },
            }
        } else {
            Phase::Finished
        }
    }

    /// Every report stands where its phase was due.
    pub open spec fn wf(self) -> bool {
        &&& self.tcp is Some ==> self.ips().len() > 0
        &&& self.tls is Some ==> self.connected()
        &&& self.http is Some ==> self.wants_page()
        &&& self.tcp16 is Some ==> self.cut_off()
        &&& self.discrimination is Some ==> {
            &&& self.tls is Some
            &&& self.wants_page() ==> self.http is Some
            &&& self.cut_off() ==> self.tcp16 is Some
        }
    }

    /// The run with one more report.
    pub open spec fn with(self, report: Report) -> ProbeRun {
        match report {
            Report::Dns(r) => ProbeRun { dns: Some(r), ..self },
            Report::Tcp(r) => ProbeRun { tcp: Some(r), ..self },
            Report::Tls(r) => ProbeRun { tls: Some(r), ..self },
            Report::Http(r) => ProbeRun { http: Some(r), ..self },
            Report::Volume(r) => ProbeRun { tcp16: Some(r), ..self },
            Report::Discriminated(r) => ProbeRun { discrimination: Some(r), ..self },
        }
    }

    /// How many reports are still missing at most.
    pub open spec fn missing(self) -> int {
        (if self.dns is None {
            1int
        } else {
            0
        }) + (if self.tcp is None {
            1int
        } else {
            0
        }) + (if self.tls is None {
            1int
        } else {
            0
        }) + (if self.http is None {
            1int
        } else {
            0
        }) + (if self.tcp16 is None {
            1int
        } else {
            0
        }) + (if self.discrimination is None {
            1int
        } else {
            0
        })
    }

    /// What the TCP phase comes to: a timeout where there was no address to
    /// connect to, and a cut where the data volume phase found one.
    pub open spec fn settled_tcp(self) -> TcpProbeResult {
        let tcp = if self.tcp is Some {
            self.tcp->0
        } else {
            TcpProbeResult { verdict: TcpFailureCode::Timeout, rtt_us: 0, ip: None }
        };
        if self.tcp16 is Some && self.tcp16->0.detected {
            TcpProbeResult { verdict: TcpFailureCode::DataVolumeCut, ..tcp }
        } else {
            tcp
        }
    }

    /// The verdict of the run, and how sure it is.
    pub open spec fn outcome(self) -> (ProbeVerdict, Confidence) {
        outcome_of(
            self.dns->0.verdict,
            self.settled_tcp().verdict,
            if self.tls is Some {
                Some(self.tls->0.verdict)
            } else {
                None
            },
            self.discrimination,
        )
    }

    /// A full run of the probe on `domain`, with nothing reported yet.
    pub fn new(domain: &str) -> (run: ProbeRun)
        ensures
            run.domain@ == domain@,
            !run.quick,
            run.wf(),
            run.pending() is Dns,
            run.missing() == 6,
    {
        ProbeRun::with_depth(domain, true)
    }

    /// A run of the probe on `domain`, with nothing reported yet: a full one,
    /// or a quick one of the DNS, TCP and TLS phases only.
    pub fn with_depth(domain: &str, full: bool) -> (run: ProbeRun)
        ensures
            run.domain@ == domain@,
            run.quick == !full,
            run.wf(),
            run.pending() is Dns,
            run.missing() == 6,
    {
        ProbeRun {
            domain: domain.to_string(),
            quick: !full,
            dns: None,
            tcp: None,
            tls: None,
            http: None,
            tcp16: None,
            discrimination: None,
        }
    }

    /// The addresses to connect to.
    pub fn addresses(&self) -> (ips: Vec<[u8; 4]>)
        ensures
            ips@ == self.ips(),
    {
        match &self.dns {
            Some(dns) => {
                let mut ips: Vec<[u8; 4]> = Vec::new();
                if dns.verdict == DnsFailureCode::DnsOk {
                    let mut i: usize = 0;
                    while i < dns.resolved_ips.len()
                        invariant
                            i <= dns.resolved_ips@.len(),
                            ips@ == dns.resolved_ips@.take(i as int),
                        decreases dns.resolved_ips@.len() - i,
                    {
                        ips.push(dns.resolved_ips[i]);
                        i += 1;
                        assert(dns.resolved_ips@.take(i as int) =~= dns.resolved_ips@.take(
                            i - 1,
                        ).push(dns.resolved_ips@[i - 1]));
                    }
                    assert(dns.resolved_ips@.take(i as int) =~= dns.resolved_ips@);
                }
                ips
            },
            None => Vec::new(),
        }
    }

    /// The address of the server.
    pub fn ip(&self) -> (ip: Option<[u8; 4]>)
        ensures
            ip == self.first_ip(),
    {
        match &self.dns {
            Some(dns) => if dns.verdict == DnsFailureCode::DnsOk && dns.resolved_ips.len() > 0 {
                Some(dns.resolved_ips[0])
            } else {
                None
            },
            None => None,
        }
    }

    /// The phase that is due.
    pub fn next_phase(&self) -> (phase: Phase)
        requires
            self.wf(),
        ensures
            phase == self.pending(),
    {
        if self.dns.is_none() {
            return Phase::Dns;
        }
        let ip = match self.ip() {
            Some(ip) => ip,
            None => {
                return Phase::Finished;
            },
        };
        let tcp = match &self.tcp {
            Some(tcp) => tcp,
            None => {
                return Phase::Tcp { port: TLS_PORT };
            },
        };
        if tcp.verdict != TcpFailureCode::ConnectOk {
            return Phase::Finished;
        }
        let tls = match &self.tls {
            Some(tls) => tls.verdict,
            None => {
                return Phase::Tls { ip };
            },
        };
        if !self.quick && !tls.is_tls_fail() && self.http.is_none() {
            return Phase::Http { ip };
        }
        let http = match &self.http {
            Some(http) => http.verdict,
            None => HttpFailureCode::HttpOk,
        };
        if http == HttpFailureCode::Cutoff && self.tcp16.is_none() {
            return Phase::Volume { ip };
        }
        if self.discrimination.is_none() {
            return Phase::Discriminate { tls, http };
        }
        Phase::Finished
    }

    /// Takes the report of the phase that is due.
    pub fn accept(&mut self, report: Report)
        requires
            old(self).wf(),
            old(self).pending().answered_by(report),
        ensures
            *final(self) == old(self).with(report),
            final(self).wf(),
    {
        match report {
            Report::Dns(r) => {
                self.dns = Some(r);
            },
            Report::Tcp(r) => {
                self.tcp = Some(r);
            },
            Report::Tls(r) => {
                self.tls = Some(r);
            },
            Report::Http(r) => {
                self.http = Some(r);
            },
            Report::Volume(r) => {
                self.tcp16 = Some(r);
            },
            Report::Discriminated(r) => {
                self.discrimination = Some(r);
            },
        }
    }

    /// What the TCP phase comes to.
    pub fn final_tcp(&self) -> (tcp: TcpProbeResult)
        ensures
            tcp == self.settled_tcp(),
    {
        let tcp = match self.tcp {
            Some(tcp) => tcp,
            None => TcpProbeResult { verdict: TcpFailureCode::Timeout, rtt_us: 0, ip: None },
        };
        match self.tcp16 {
            Some(volume) => if volume.detected {
                TcpProbeResult {
                    verdict: TcpFailureCode::DataVolumeCut,
                    rtt_us: tcp.rtt_us,
                    ip: tcp.ip,
                }
            } else {
                tcp
            },
            None => tcp,
        }
    }
}

// ---------------------------------------------------------------------------
// The verdict
// ---------------------------------------------------------------------------

/// The verdict of the DNS and TCP phases. A finding of the DNS phase comes
/// first, then one of the TCP phase.
pub open spec fn verdict_of(dns: DnsFailureCode, tcp: TcpFailureCode) -> (
    ProbeVerdict,
    Confidence,
) {
    let blocked = |percent: int| (ProbeVerdict::Blocked, Confidence::percent_of(percent));
    let ambiguous = |percent: int| (ProbeVerdict::Ambiguous, Confidence::percent_of(percent));
    match dns {
        DnsFailureCode::Poisoned => blocked(95),
        DnsFailureCode::NxdomainSpoof => blocked(90),
        DnsFailureCode::EmptySpoof => blocked(85),
        DnsFailureCode::Intercepted => blocked(90),
        DnsFailureCode::DohBlocked => blocked(80),
        DnsFailureCode::DnsOk => match tcp {
            TcpFailureCode::ConnectOk => ambiguous(30),
            TcpFailureCode::Reset => blocked(85),
            TcpFailureCode::Timeout => blocked(75),
            TcpFailureCode::Refused => ambiguous(40),
            TcpFailureCode::Unreachable => ambiguous(30),
            TcpFailureCode::DataVolumeCut => blocked(85),
        },
        DnsFailureCode::Unresolvable => match tcp {
            TcpFailureCode::ConnectOk => ambiguous(50),
            TcpFailureCode::Reset => blocked(80),
            TcpFailureCode::Timeout => blocked(60),
            TcpFailureCode::Refused => ambiguous(40),
            TcpFailureCode::Unreachable => ambiguous(30),
            TcpFailureCode::DataVolumeCut => blocked(85),
        },
    }
}

/// The verdict of the DNS and TCP phases, and how sure it is.
pub fn compute_verdict(dns: &DnsProbeResult, tcp: &TcpProbeResult) -> (v: (
    ProbeVerdict,
    Confidence,
))
    ensures
        v == verdict_of(dns.verdict, tcp.verdict),
{
    match (dns.verdict, tcp.verdict) {
        (DnsFailureCode::Poisoned, _) => (ProbeVerdict::Blocked, Confidence::percent(95)),
        (DnsFailureCode::NxdomainSpoof, _) => (ProbeVerdict::Blocked, Confidence::percent(90)),
        (DnsFailureCode::EmptySpoof, _) => (ProbeVerdict::Blocked, Confidence::percent(85)),
        (DnsFailureCode::Intercepted, _) => (ProbeVerdict::Blocked, Confidence::percent(90)),
        (DnsFailureCode::DohBlocked, _) => (ProbeVerdict::Blocked, Confidence::percent(80)),
        (DnsFailureCode::DnsOk, TcpFailureCode::ConnectOk) => (
            ProbeVerdict::Ambiguous,
            Confidence::percent(30),
        ),
        (DnsFailureCode::DnsOk, TcpFailureCode::Reset) => (
            ProbeVerdict::Blocked,
            Confidence::percent(85),
        ),
        (DnsFailureCode::DnsOk, TcpFailureCode::Timeout) => (
            ProbeVerdict::Blocked,
            Confidence::percent(75),
        ),
        (_, TcpFailureCode::Reset) => (ProbeVerdict::Blocked, Confidence::percent(80)),
        (_, TcpFailureCode::Timeout) => (ProbeVerdict::Blocked, Confidence::percent(60)),
        (_, TcpFailureCode::Refused) => (ProbeVerdict::Ambiguous, Confidence::percent(40)),
        (_, TcpFailureCode::Unreachable) => (ProbeVerdict::Ambiguous, Confidence::percent(30)),
        (_, TcpFailureCode::DataVolumeCut) => (ProbeVerdict::Blocked, Confidence::percent(85)),
        (DnsFailureCode::Unresolvable, _) => (ProbeVerdict::Ambiguous, Confidence::percent(50)),
    }
}

/// The verdict of all phases: that of the discrimination where there is one,
/// else that of a weakened or failed TLS phase, else that of DNS and TCP.
pub open spec fn outcome_of(
    dns: DnsFailureCode,
    tcp: TcpFailureCode,
    tls: Option<TlsFailureCode>,
    discrimination: Option<DiscriminationResult>,
) -> (ProbeVerdict, Confidence) {
    match (discrimination, tls) {
        (Some(d), _) => (d.verdict, d.confidence),
        (None, Some(t)) => if t == TlsFailureCode::Version12Only {
            (ProbeVerdict::Blocked, Confidence::percent_of(90))
        } else if t.tls_failed() {
            (ProbeVerdict::Blocked, Confidence::percent_of(85))
        } else {
            verdict_of(dns, tcp)
        },
        (None, None) => verdict_of(dns, tcp),
    }
}

/// The verdict of all phases, and how sure it is.
pub fn overall_verdict(
    dns: &DnsProbeResult,
    tcp: &TcpProbeResult,
    tls: Option<TlsFailureCode>,
    discrimination: Option<DiscriminationResult>,
) -> (v: (ProbeVerdict, Confidence))
    ensures
        v == outcome_of(dns.verdict, tcp.verdict, tls, discrimination),
        discrimination is Some ==> v == (discrimination->0.verdict, discrimination->0.confidence),
{
    if let Some(d) = discrimination {
        return (d.verdict, d.confidence);
    }
    if let Some(t) = tls {
        if t == TlsFailureCode::Version12Only {
            return (ProbeVerdict::Blocked, Confidence::percent(90));
        }
        if t.is_tls_fail() {
            return (ProbeVerdict::Blocked, Confidence::percent(85));
        }
    }
    compute_verdict(dns, tcp)
}

// ---------------------------------------------------------------------------
// Laws
// ---------------------------------------------------------------------------

/// Each phase comes only after the one before it gave reason for it: addresses
/// before a connection, a connection before a handshake, a session before a
/// page, a page that was cut off before a transfer.
pub proof fn phases_need_their_reasons(run: ProbeRun)
    requires
        run.wf(),
    ensures
        run.pending() is Tcp ==> run.dns is Some && run.dns->0.verdict == DnsFailureCode::DnsOk
            && run.ips().len() > 0,
        run.pending() is Tls ==> run.connected() && run.pending() == (Phase::Tls {
            ip: run.first_ip()->0,
        }),
        run.pending() is Http ==> run.wants_page() && run.pending() == (Phase::Http {
            ip: run.first_ip()->0,
        }),
        run.pending() is Volume ==> run.cut_off() && run.pending() == (Phase::Volume {
            ip: run.first_ip()->0,
        }),
        run.pending() is Discriminate ==> run.tls is Some,
{
}

/// Every report brings the run closer to its end, so that after six reports at
/// most the verdict is due.
pub proof fn runs_end(run: ProbeRun, report: Report)
    requires
        run.wf(),
    ensures
        run.pending().answered_by(report) ==> run.with(report).wf(),
        run.pending().answered_by(report) ==> 0 <= run.with(report).missing() < run.missing(),
        run.missing() <= 6,
        run.missing() == 0 ==> run.pending() is Finished,
{
}

/// A quick run never asks for a page or a transfer: it has no such reports, and
/// a TLS report leads straight to the discrimination.
pub proof fn quick_runs_stop_at_tls(run: ProbeRun, report: Report)
    requires
        run.wf(),
        run.quick,
    ensures
        run.http is None,
        run.tcp16 is None,
        !(run.pending() is Http),
        !(run.pending() is Volume),
        run.tls is Some && run.discrimination is None ==> run.pending() == (Phase::Discriminate {
            tls: run.tls->0.verdict,
            http: HttpFailureCode::HttpOk,
        }),
        run.with(report).quick,
{
}

/// At the end there is a report of the DNS phase, and a TLS report was
/// discriminated.
pub proof fn finished_runs_are_complete(run: ProbeRun)
    requires
        run.wf(),
        run.pending() is Finished,
    ensures
        run.dns is Some,
        run.tcp is Some <==> run.ips().len() > 0,
        run.tls is Some <==> run.connected(),
        run.http is Some <==> run.wants_page(),
        run.tcp16 is Some <==> run.cut_off(),
        run.discrimination is Some <==> run.tls is Some,
{
}

/// The discrimination has the last word: whatever DNS, TCP, TLS and HTTP
/// reported, a run that holds a discrimination comes to its verdict and is as
/// sure as it is.
pub proof fn discrimination_decides(
    run: ProbeRun,
    dns: DnsFailureCode,
    tcp: TcpFailureCode,
    tls: Option<TlsFailureCode>,
    found: DiscriminationResult,
)
    ensures
        outcome_of(dns, tcp, tls, Some(found)).0 == found.verdict,
        outcome_of(dns, tcp, tls, Some(found)).1 == found.confidence,
        run.discrimination is Some ==> run.outcome().0 == run.discrimination->0.verdict,
        run.discrimination is Some ==> run.outcome().1 == run.discrimination->0.confidence,
{
}

/// Without a discrimination, a TLS phase that did not complete a handshake of
/// the newest version is a block, whatever DNS and TCP reported: sure to 90% if
/// the older version works, to 85% if none does. A handshake that completed, or
/// none that was tried, leaves the verdict to DNS and TCP.
pub proof fn broken_tls_blocks(dns: DnsFailureCode, tcp: TcpFailureCode, tls: TlsFailureCode)
    ensures
        outcome_of(dns, tcp, Some(tls), None).0 is Ambiguous ==> tls == TlsFailureCode::HandshakeOk,
        tls == TlsFailureCode::Version12Only ==> outcome_of(dns, tcp, Some(tls), None) == (
            ProbeVerdict::Blocked,
            Confidence { parts: 90, whole: 100 },
        ),
        tls == TlsFailureCode::Garbage || tls == TlsFailureCode::Reset || tls
            == TlsFailureCode::AlertSniblock || tls == TlsFailureCode::Mitm || tls
            == TlsFailureCode::MitmSelfSigned || tls == TlsFailureCode::MitmExpired ==> outcome_of(
            dns,
            tcp,
            Some(tls),
            None,
        ) == (ProbeVerdict::Blocked, Confidence { parts: 85, whole: 100 }),
        outcome_of(dns, tcp, Some(TlsFailureCode::HandshakeOk), None) == outcome_of(
            dns,
            tcp,
            None,
            None,
        ),
        outcome_of(dns, tcp, None, None) == verdict_of(dns, tcp),
{
}

/// A finding of the DNS phase is a block, and how sure it is does not depend on
/// TCP: 95% for forged addresses, 90% for a denied name or an interception, 85%
/// for an empty answer, 80% for a blocked resolver.
pub proof fn dns_findings_block(dns: DnsFailureCode, tcp: TcpFailureCode, other: TcpFailureCode)
    requires
        dns != DnsFailureCode::DnsOk,
        dns != DnsFailureCode::Unresolvable,
    ensures
        verdict_of(dns, tcp) == verdict_of(dns, other),
        verdict_of(dns, tcp).0 == ProbeVerdict::Blocked,
        verdict_of(dns, tcp).1.whole == 100,
        dns == DnsFailureCode::Poisoned <==> verdict_of(dns, tcp).1.parts == 95,
        dns == DnsFailureCode::NxdomainSpoof || dns == DnsFailureCode::Intercepted
            <==> verdict_of(dns, tcp).1.parts == 90,
        dns == DnsFailureCode::EmptySpoof <==> verdict_of(dns, tcp).1.parts == 85,
        dns == DnsFailureCode::DohBlocked <==> verdict_of(dns, tcp).1.parts == 80,
{
}

/// Where DNS found nothing wrong, or no resolver knew the name, TCP decides: a
/// reset, a timeout and a cut are blocks, the rest settles nothing. A reset and
/// a timeout weigh more where the name resolved, a connection more where it did
/// not.
pub proof fn tcp_findings_come_next(dns: DnsFailureCode, tcp: TcpFailureCode)
    requires
        dns == DnsFailureCode::DnsOk || dns == DnsFailureCode::Unresolvable,
    ensures
        verdict_of(dns, tcp).0 == ProbeVerdict::Blocked <==> tcp == TcpFailureCode::Reset || tcp
            == TcpFailureCode::Timeout || tcp == TcpFailureCode::DataVolumeCut,
        verdict_of(dns, tcp).1.whole == 100,
        tcp == TcpFailureCode::DataVolumeCut ==> verdict_of(dns, tcp).1.parts == 85,
        tcp == TcpFailureCode::Refused ==> verdict_of(dns, tcp).1.parts == 40,
        tcp == TcpFailureCode::Unreachable ==> verdict_of(dns, tcp).1.parts == 30,
        tcp == TcpFailureCode::Reset ==> verdict_of(DnsFailureCode::DnsOk, tcp).1.parts == 85
            && verdict_of(DnsFailureCode::Unresolvable, tcp).1.parts == 80,
        tcp == TcpFailureCode::Timeout ==> verdict_of(DnsFailureCode::DnsOk, tcp).1.parts == 75
            && verdict_of(DnsFailureCode::Unresolvable, tcp).1.parts == 60,
        tcp == TcpFailureCode::ConnectOk ==> verdict_of(DnsFailureCode::DnsOk, tcp).1.parts == 30
            && verdict_of(DnsFailureCode::Unresolvable, tcp).1.parts == 50,
{
}

/// What is due follows from the reports alone. DNS comes first. Addresses that
/// DNS gave without a finding lead to a connection to port 443, a connection to
/// a handshake with the first address. A session leads on to a page where the
/// run is a full one, and a page that was cut off to a transfer. Whatever the
/// handshake led to is discriminated in the end.
pub proof fn phases_come_in_turn(run: ProbeRun)
    requires
        run.wf(),
    ensures
        run.dns is None ==> run.pending() is Dns,
        run.dns is Some && run.tcp is None ==> if run.dns->0.verdict == DnsFailureCode::DnsOk
            && run.dns->0.resolved_ips@.len() > 0 {
            run.pending() == (Phase::Tcp { port: 443 })
        } else {
            run.pending() is Finished
        },
        run.tcp is Some && run.tls is None ==> if run.tcp->0.verdict == TcpFailureCode::ConnectOk {
            run.pending() == (Phase::Tls { ip: run.dns->0.resolved_ips@[0] })
        } else {
            run.pending() is Finished
        },
        run.tls is Some && run.http is None ==> if !run.quick && (run.tls->0.verdict
            == TlsFailureCode::HandshakeOk || run.tls->0.verdict == TlsFailureCode::Version12Only) {
            run.pending() == (Phase::Http { ip: run.dns->0.resolved_ips@[0] })
        } else if run.discrimination is None {
            run.pending() == (Phase::Discriminate {
                tls: run.tls->0.verdict,
                http: HttpFailureCode::HttpOk,
            })
        } else {
            run.pending() is Finished
        },
        run.http is Some ==> if run.http->0.verdict == HttpFailureCode::Cutoff && run.tcp16 is None {
            run.pending() == (Phase::Volume { ip: run.dns->0.resolved_ips@[0] })
        } else if run.discrimination is None {
            run.pending() == (Phase::Discriminate {
                tls: run.tls->0.verdict,
                http: run.http->0.verdict,
            })
        } else {
            run.pending() is Finished
        },
{
}

/// The addresses of a run are those that DNS resolved, in their order, and none
/// if DNS found something wrong; the address of the server is the first.
pub proof fn addresses_come_from_dns(run: ProbeRun)
    ensures
        run.dns is Some && run.dns->0.verdict == DnsFailureCode::DnsOk ==> run.ips()
            == run.dns->0.resolved_ips@,
        run.dns is Some && run.dns->0.verdict != DnsFailureCode::DnsOk ==> run.ips().len() == 0,
        run.dns is None ==> run.ips().len() == 0,
        run.first_ip() is Some <==> run.ips().len() > 0,
        run.first_ip() is Some ==> run.first_ip()->0 == run.dns->0.resolved_ips@[0],
{
}

/// A phase is answered by a report of its own kind and by no other, and the
/// report is all that the run gains.
pub proof fn reports_are_kept(run: ProbeRun, report: Report)
    ensures
        run.with(report).domain == run.domain,
        run.with(report).quick == run.quick,
        run.with(report).dns == if report is Dns { Some(report->Dns_0) } else { run.dns },
        run.with(report).tcp == if report is Tcp { Some(report->Tcp_0) } else { run.tcp },
        run.with(report).tls == if report is Tls { Some(report->Tls_0) } else { run.tls },
        run.with(report).http == if report is Http { Some(report->Http_0) } else { run.http },
        run.with(report).tcp16 == if report is Volume { Some(report->Volume_0) } else { run.tcp16 },
        run.with(report).discrimination == if report is Discriminated {
            Some(report->Discriminated_0)
        } else {
            run.discrimination
        },
        run.pending().answered_by(report) <==> {
            ||| run.pending() is Dns && report is Dns
            ||| run.pending() is Tcp && report is Tcp
            ||| run.pending() is Tls && report is Tls
            ||| run.pending() is Http && report is Http
            ||| run.pending() is Volume && report is Volume
            ||| run.pending() is Discriminate && report is Discriminated
        },
{
}

/// The TCP result of a run is what the TCP phase reported, and a timeout where
/// there was none. A transfer that was found cut changes its finding to a cut,
/// and nothing else.
pub proof fn cuts_replace_the_tcp_finding(run: ProbeRun)
    ensures
        run.tcp16 is Some && run.tcp16->0.detected ==> run.settled_tcp().verdict
            == TcpFailureCode::DataVolumeCut,
        !(run.tcp16 is Some && run.tcp16->0.detected) && run.tcp is Some ==> run.settled_tcp().verdict
            == run.tcp->0.verdict,
        !(run.tcp16 is Some && run.tcp16->0.detected) && run.tcp is None ==> run.settled_tcp().verdict
            == TcpFailureCode::Timeout,
        run.tcp is Some ==> run.settled_tcp().rtt_us == run.tcp->0.rtt_us && run.settled_tcp().ip
            == run.tcp->0.ip,
        run.tcp is None ==> run.settled_tcp().rtt_us == 0 && run.settled_tcp().ip is None,
{
}

} // verus!
