//! From the kind of blocking to the techniques against it.

use super::classifier::{
    Confidence, DnsFailureCode, HttpFailureCode, TcpFailureCode, TlsFailureCode,
};
use super::findings::Tcp16ProbeResult;
use super::run::ProbeRun;
use super::ProbeResult;
use crate::text;
use crate::text::append_decimal;
use vstd::prelude::*;
use vstd::string::*;

verus! {

/// The layer that a technique works on.
#[derive(Clone, Copy, Debug, PartialEq, Eq, Structural)]
pub enum StrategyCategory {
    Dns,
    Tcp,
    Tls,
    General,
}

/// A technique that should help.
pub struct StrategyRecommendation {
    pub strategy_id: u32,
    pub strategy_name: String,
    pub category: StrategyCategory,
    pub confidence: Confidence,
    pub rationale: String,
}

/// What a recommendation says.
pub struct Advice {
    pub id: u32,
    pub name: Seq<char>,
    pub category: StrategyCategory,
    pub confidence: Confidence,
    pub rationale: Seq<char>,
}

impl View for StrategyRecommendation {
    type V = Advice;

    open spec fn view(&self) -> Advice {
        Advice {
            id: self.strategy_id,
            name: self.strategy_name@,
            category: self.category,
            confidence: self.confidence,
            rationale: self.rationale@,
        }
    }
}

/// The advice to use technique `id`, sure to `percent`.
pub open spec fn advice(
    id: u32,
    name: Seq<char>,
    category: StrategyCategory,
    percent: int,
    rationale: Seq<char>,
) -> Advice {
    Advice { id, name, category, confidence: Confidence::percent_of(percent), rationale }
}

fn recommendation(
    id: u32,
    name: &str,
    category: StrategyCategory,
    percent: u32,
    rationale: &str,
) -> (rec: StrategyRecommendation)
    ensures
        rec@ == advice(id, name@, category, percent as int, rationale@),
{
    StrategyRecommendation {
        strategy_id: id,
        strategy_name: name.to_string(),
        category,
        confidence: Confidence::percent(percent),
        rationale: rationale.to_string(),
    }
}

/// What a recommendation says, where there is one.
pub open spec fn seen(rec: Option<StrategyRecommendation>) -> Option<Advice> {
    match rec {
        Some(r) => Some(r@),
        None => None,
    }
}

/// Against forged or intercepted DNS.
pub open spec fn dns_advice(verdict: DnsFailureCode) -> Option<Advice> {
    match verdict {
        DnsFailureCode::Poisoned | DnsFailureCode::NxdomainSpoof | DnsFailureCode::EmptySpoof => Some(
            advice(
                100,
                "doh_dns"@,
                StrategyCategory::Dns,
                95,
                "DNS poisoned — force DoH resolver"@,
            ),
        ),
        DnsFailureCode::Intercepted => Some(
            advice(
                100,
                "doh_dns"@,
                StrategyCategory::Dns,
                90,
                "DNS intercepted — UDP blocked, use DoH"@,
            ),
        ),
        _ => None,
    }
}

fn dns_recommendation(verdict: DnsFailureCode) -> (rec: Option<StrategyRecommendation>)
    ensures
        seen(rec) == dns_advice(verdict),
{
    match verdict {
        DnsFailureCode::Poisoned | DnsFailureCode::NxdomainSpoof | DnsFailureCode::EmptySpoof => Some(
            recommendation(
                100,
                "doh_dns",
                StrategyCategory::Dns,
                95,
                "DNS poisoned — force DoH resolver",
            ),
        ),
        DnsFailureCode::Intercepted => Some(
            recommendation(
                100,
                "doh_dns",
                StrategyCategory::Dns,
                90,
                "DNS intercepted — UDP blocked, use DoH",
            ),
        ),
        _ => None,
    }
}

/// Against interference with the connection.
pub open spec fn tcp_advice(verdict: TcpFailureCode) -> Option<Advice> {
    match verdict {
        TcpFailureCode::Reset => Some(
            advice(
                1,
                "tcp_split"@,
                StrategyCategory::Tcp,
                85,
                "TCP RST — DPI inspecting SYN/CH, apply split"@,
            ),
        ),
        TcpFailureCode::Timeout => Some(
            advice(
                3,
                "fake_sni"@,
                StrategyCategory::Tls,
                80,
                "TCP timeout — SYN drop, use fake SNI with low TTL"@,
            ),
        ),
        TcpFailureCode::DataVolumeCut => Some(
            advice(
                9,
                "mss_clamp"@,
                StrategyCategory::Tcp,
                85,
                "Data-volume cut — DPI counting packets, use MSS clamp + reorder"@,
            ),
        ),
        _ => None,
    }
}

fn tcp_recommendation(verdict: TcpFailureCode) -> (rec: Option<StrategyRecommendation>)
    ensures
        seen(rec) == tcp_advice(verdict),
{
    match verdict {
        TcpFailureCode::Reset => Some(
            recommendation(
                1,
                "tcp_split",
                StrategyCategory::Tcp,
                85,
                "TCP RST — DPI inspecting SYN/CH, apply split",
            ),
        ),
        TcpFailureCode::Timeout => Some(
            recommendation(
                3,
                "fake_sni",
                StrategyCategory::Tls,
                80,
                "TCP timeout — SYN drop, use fake SNI with low TTL",
            ),
        ),
        TcpFailureCode::DataVolumeCut => Some(
            recommendation(
                9,
                "mss_clamp",
                StrategyCategory::Tcp,
                85,
                "Data-volume cut — DPI counting packets, use MSS clamp + reorder",
            ),
        ),
        _ => None,
    }
}

/// Against interference with the handshake.
pub open spec fn tls_advice(verdict: TlsFailureCode) -> Option<Advice> {
    match verdict {
        TlsFailureCode::Version12Only => Some(
            advice(
                15,
                "tls_record_frag"@,
                StrategyCategory::Tls,
                90,
                "TLS 1.3 blocked, 1.2 works — force TLS 1.2 + record frag"@,
            ),
        ),
        TlsFailureCode::Garbage => Some(
            advice(
                6,
                "seq_number_spoof"@,
                StrategyCategory::Tcp,
                85,
                "TLS garbage injection — DPI injecting fake records, use SEQ spoof"@,
            ),
        ),
        TlsFailureCode::Reset => Some(
            advice(
                7,
                "disorder"@,
                StrategyCategory::Tcp,
                80,
                "TLS RST — DPI killing handshake, use disorder"@,
            ),
        ),
        TlsFailureCode::AlertSniblock => Some(
            advice(
                4,
                "hostfake"@,
                StrategyCategory::Tcp,
                85,
                "SNI blocked — use hostfake with allowed SNI"@,
            ),
        ),
        TlsFailureCode::Mitm | TlsFailureCode::MitmSelfSigned | TlsFailureCode::MitmExpired => Some(
            advice(
                35,
                "socks5_fallback"@,
                StrategyCategory::General,
                90,
                "Certificate substitution — MITM detected, use proxy"@,
            ),
        ),
        _ => None,
    }
}

fn tls_recommendation(verdict: TlsFailureCode) -> (rec: Option<StrategyRecommendation>)
    ensures
        seen(rec) == tls_advice(verdict),
{
    match verdict {
        TlsFailureCode::Version12Only => Some(
            recommendation(
                15,
                "tls_record_frag",
                StrategyCategory::Tls,
                90,
                "TLS 1.3 blocked, 1.2 works — force TLS 1.2 + record frag",
            ),
        ),
        TlsFailureCode::Garbage => Some(
            recommendation(
                6,
                "seq_number_spoof",
                StrategyCategory::Tcp,
                85,
                "TLS garbage injection — DPI injecting fake records, use SEQ spoof",
            ),
        ),
        TlsFailureCode::Reset => Some(
            recommendation(
                7,
                "disorder",
                StrategyCategory::Tcp,
                80,
                "TLS RST — DPI killing handshake, use disorder",
            ),
        ),
        TlsFailureCode::AlertSniblock => Some(
            recommendation(
                4,
                "hostfake",
                StrategyCategory::Tcp,
                85,
                "SNI blocked — use hostfake with allowed SNI",
            ),
        ),
        TlsFailureCode::Mitm | TlsFailureCode::MitmSelfSigned | TlsFailureCode::MitmExpired => Some(
            recommendation(
                35,
                "socks5_fallback",
                StrategyCategory::General,
                90,
                "Certificate substitution — MITM detected, use proxy",
            ),
        ),
        _ => None,
    }
}

/// Against interference with the page.
pub open spec fn http_advice(verdict: HttpFailureCode) -> Option<Advice> {
    match verdict {
        HttpFailureCode::Cutoff => Some(
            advice(
                8,
                "tcp_window_clamp"@,
                StrategyCategory::Tcp,
                80,
                "HTTP cutoff — DPI counting packets, use window clamp"@,
            ),
        ),
        HttpFailureCode::Http451 => Some(
            advice(
                35,
                "socks5_fallback"@,
                StrategyCategory::General,
                95,
                "HTTP 451 — legal block, proxy required"@,
            ),
        ),
        HttpFailureCode::RedirectForeign => Some(
            advice(
                35,
                "socks5_fallback"@,
                StrategyCategory::General,
                85,
                "ISP block page — redirect to foreign domain, use proxy"@,
            ),
        ),
        HttpFailureCode::StubPage => Some(
            advice(
                35,
                "socks5_fallback"@,
                StrategyCategory::General,
                90,
                "RKN stub page detected — use proxy"@,
            ),
        ),
        _ => None,
    }
}

fn http_recommendation(verdict: HttpFailureCode) -> (rec: Option<StrategyRecommendation>)
    ensures
        seen(rec) == http_advice(verdict),
{
    match verdict {
        HttpFailureCode::Cutoff => Some(
            recommendation(
                8,
                "tcp_window_clamp",
                StrategyCategory::Tcp,
                80,
                "HTTP cutoff — DPI counting packets, use window clamp",
            ),
        ),
        HttpFailureCode::Http451 => Some(
            recommendation(
                35,
                "socks5_fallback",
                StrategyCategory::General,
                95,
                "HTTP 451 — legal block, proxy required",
            ),
        ),
        HttpFailureCode::RedirectForeign => Some(
            recommendation(
                35,
                "socks5_fallback",
                StrategyCategory::General,
                85,
                "ISP block page — redirect to foreign domain, use proxy",
            ),
        ),
        HttpFailureCode::StubPage => Some(
            recommendation(
                35,
                "socks5_fallback",
                StrategyCategory::General,
                90,
                "RKN stub page detected — use proxy",
            ),
        ),
        _ => None,
    }
}

/// Against a cut after some volume of data.
pub open spec fn volume_advice(volume: Tcp16ProbeResult) -> Option<Advice> {
    if volume.detected {
        Some(
            advice(
                9,
                "mss_clamp"@,
                StrategyCategory::Tcp,
                80,
                "Data-volume cutoff at "@ + text::decimal(volume.detected_at_kb as nat)
                    + "KB — use MSS clamp + reorder"@,
            ),
        )
    } else {
        None
    }
}

fn volume_recommendation(volume: &Tcp16ProbeResult) -> (rec: Option<StrategyRecommendation>)
    ensures
        seen(rec) == volume_advice(*volume),
{
    if volume.detected {
        let mut rationale = "Data-volume cutoff at ".to_string();
        append_decimal(&mut rationale, volume.detected_at_kb as u64);
        rationale.append("KB — use MSS clamp + reorder");
        Some(
            recommendation(9, "mss_clamp", StrategyCategory::Tcp, 80, rationale.as_str()),
        )
    } else {
        None
    }
}

/// Against a list of the only addresses that may be reached.
pub open spec fn whitelist_advice(dns: DnsFailureCode, tcp: TcpFailureCode) -> Option<Advice> {
    if dns == DnsFailureCode::DnsOk && tcp == TcpFailureCode::Timeout {
        Some(
            advice(
                35,
                "socks5_fallback"@,
                StrategyCategory::General,
                70,
                "TCP timeout on foreign IP — possible CIDR whitelist, use proxy"@,
            ),
        )
    } else {
        None
    }
}

fn whitelist_recommendation(dns: DnsFailureCode, tcp: TcpFailureCode) -> (rec: Option<
    StrategyRecommendation,
>)
    ensures
        seen(rec) == whitelist_advice(dns, tcp),
{
    if dns == DnsFailureCode::DnsOk && tcp == TcpFailureCode::Timeout {
        Some(
            recommendation(
                35,
                "socks5_fallback",
                StrategyCategory::General,
                70,
                "TCP timeout on foreign IP — possible CIDR whitelist, use proxy",
            ),
        )
    } else {
        None
    }
}

/// One piece of advice or none, as a list.
pub open spec fn at_most_one(advice: Option<Advice>) -> Seq<Advice> {
    match advice {
        Some(a) => seq![a],
        None => Seq::empty(),
    }
}

/// All the advice on a result, from DNS upwards.
pub open spec fn advice_on(result: ProbeResult) -> Seq<Advice> {
    at_most_one(dns_advice(result.dns.verdict)) + at_most_one(tcp_advice(result.tcp.verdict)) + (
    match result.tls {
        Some(tls) => at_most_one(tls_advice(tls.verdict)),
        None => Seq::empty(),
    }) + (match result.http {
        Some(http) => at_most_one(http_advice(http.verdict)),
        None => Seq::empty(),
    }) + (match result.tcp16 {
        Some(volume) => at_most_one(volume_advice(volume)),
        None => Seq::empty(),
    }) + at_most_one(whitelist_advice(result.dns.verdict, result.tcp.verdict))
}

/// What a list of recommendations says.
pub open spec fn all_seen(recs: Seq<StrategyRecommendation>) -> Seq<Advice> {
    recs.map_values(|r: StrategyRecommendation| r@)
}

fn add_to(recs: &mut Vec<StrategyRecommendation>, rec: Option<StrategyRecommendation>)
    ensures
        all_seen(final(recs)@) == all_seen(old(recs)@) + at_most_one(seen(rec)),
{
    if let Some(r) = rec {
        recs.push(r);
    }
    assert(all_seen(recs@) =~= all_seen(old(recs)@) + at_most_one(seen(rec)));
}

/// The techniques that should help against what a probe found.
pub fn recommend(result: &ProbeResult) -> (recs: Vec<StrategyRecommendation>)
    ensures
        all_seen(recs@) == advice_on(*result),
{
    let mut recs: Vec<StrategyRecommendation> = Vec::new();
    assert(all_seen(recs@) =~= Seq::empty());
    add_to(&mut recs, dns_recommendation(result.dns.verdict));
    add_to(&mut recs, tcp_recommendation(result.tcp.verdict));
    match &result.tls {
        Some(tls) => add_to(&mut recs, tls_recommendation(tls.verdict)),
        None => {},
    }
    match &result.http {
        Some(http) => add_to(&mut recs, http_recommendation(http.verdict)),
        None => {},
    }
    match &result.tcp16 {
        Some(volume) => add_to(&mut recs, volume_recommendation(volume)),
        None => {},
    }
    add_to(&mut recs, whitelist_recommendation(result.dns.verdict, result.tcp.verdict));
    assert(all_seen(recs@) =~= advice_on(*result));
    recs
}

/// A probe that ended before the TLS phase with the verdict that the domain is
/// blocked comes with advice, and so does every probe in which the TLS
/// handshake was interfered with.
pub proof fn blocking_comes_with_advice(run: ProbeRun, result: ProbeResult)
    requires
        run.wf(),
        run.pending() is Finished,
        result.sums_up(run),
        (run.tls is None && result.verdict is Blocked) || (run.tls is Some
            && run.tls->0.verdict != TlsFailureCode::HandshakeOk),
    ensures
        advice_on(result).len() > 0,
{
}

/// Where no phase found anything, there is nothing to recommend.
pub proof fn clean_results_need_nothing(result: ProbeResult)
    requires
        result.dns.verdict == DnsFailureCode::DnsOk,
        result.tcp.verdict == TcpFailureCode::ConnectOk,
        result.tls is Some ==> result.tls->0.verdict == TlsFailureCode::HandshakeOk,
        result.http is Some ==> !result.http->0.verdict.http_failed(),
        result.tcp16 is Some ==> !result.tcp16->0.detected,
    ensures
        advice_on(result) == Seq::<Advice>::empty(),
{
}

/// A list made of what six places may hold has all that they hold, and nothing
/// else, in their order.
proof fn lists_hold_their_parts(
    a: Option<Advice>,
    b: Option<Advice>,
    c: Option<Advice>,
    d: Option<Advice>,
    e: Option<Advice>,
    f: Option<Advice>,
)
    ensures
        ({
            let list = at_most_one(a) + at_most_one(b) + at_most_one(c) + at_most_one(d)
                + at_most_one(e) + at_most_one(f);
            &&& a is Some ==> list.contains(a->0)
            &&& b is Some ==> list.contains(b->0)
            &&& c is Some ==> list.contains(c->0)
            &&& d is Some ==> list.contains(d->0)
            &&& e is Some ==> list.contains(e->0)
            &&& f is Some ==> list.contains(f->0)
            &&& a is Some ==> list[0] == a->0
            &&& b is Some ==> list[at_most_one(a).len() as int] == b->0
            &&& c is Some ==> list[(at_most_one(a).len() + at_most_one(b).len()) as int] == c->0
            &&& d is Some ==> list[(at_most_one(a).len() + at_most_one(b).len() + at_most_one(
                c,
            ).len()) as int] == d->0
            &&& f is Some ==> list[list.len() - 1] == f->0
            &&& list.len() == at_most_one(a).len() + at_most_one(b).len() + at_most_one(c).len()
                + at_most_one(d).len() + at_most_one(e).len() + at_most_one(f).len()
            &&& forall|i: int|
                0 <= i < list.len() ==> {
                    ||| i == 0 && a == Some(#[trigger] list[i])
                    ||| b == Some(list[i])
                    ||| c == Some(list[i])
                    ||| d == Some(list[i])
                    ||| e == Some(list[i])
                    ||| f == Some(list[i])
                }
        }),
{
    let list = at_most_one(a) + at_most_one(b) + at_most_one(c) + at_most_one(d) + at_most_one(e)
        + at_most_one(f);
    let at_b: int = at_most_one(a).len() as int;
    let at_c: int = at_b + at_most_one(b).len();
    let at_d: int = at_c + at_most_one(c).len();
    let at_e: int = at_d + at_most_one(d).len();
    let at_f: int = at_e + at_most_one(e).len();
    assert(a is Some ==> list[0] == a->0);
    assert(b is Some ==> list[at_b] == b->0);
    assert(c is Some ==> list[at_c] == c->0);
    assert(d is Some ==> list[at_d] == d->0);
    assert(e is Some ==> list[at_e] == e->0);
    assert(f is Some ==> list[at_f] == f->0);
}

spec fn tls_part(result: ProbeResult) -> Option<Advice> {
    if result.tls is Some {
        tls_advice(result.tls->0.verdict)
    } else {
        None
    }
}

spec fn http_part(result: ProbeResult) -> Option<Advice> {
    if result.http is Some {
        http_advice(result.http->0.verdict)
    } else {
        None
    }
}

spec fn volume_part(result: ProbeResult) -> Option<Advice> {
    if result.tcp16 is Some {
        volume_advice(result.tcp16->0)
    } else {
        None
    }
}

/// Every phase has its advice in the list.
proof fn advice_of_each_phase(result: ProbeResult)
    ensures
        dns_advice(result.dns.verdict) is Some ==> advice_on(result).contains(
            dns_advice(result.dns.verdict)->0,
        ),
        tcp_advice(result.tcp.verdict) is Some ==> advice_on(result).contains(
            tcp_advice(result.tcp.verdict)->0,
        ),
        result.tls is Some && tls_advice(result.tls->0.verdict) is Some ==> advice_on(
            result,
        ).contains(tls_advice(result.tls->0.verdict)->0),
        result.http is Some && http_advice(result.http->0.verdict) is Some ==> advice_on(
            result,
        ).contains(http_advice(result.http->0.verdict)->0),
        result.tcp16 is Some && volume_advice(result.tcp16->0) is Some ==> advice_on(
            result,
        ).contains(volume_advice(result.tcp16->0)->0),
        whitelist_advice(result.dns.verdict, result.tcp.verdict) is Some ==> advice_on(
            result,
        ).contains(whitelist_advice(result.dns.verdict, result.tcp.verdict)->0),
{
    lists_hold_their_parts(
        dns_advice(result.dns.verdict),
        tcp_advice(result.tcp.verdict),
        tls_part(result),
        http_part(result),
        volume_part(result),
        whitelist_advice(result.dns.verdict, result.tcp.verdict),
    );
}

/// Forged or intercepted DNS calls for DNS over HTTPS, whatever the other phases
/// found: sure to 95%, and to 90% for an interception.
pub proof fn forged_dns_calls_for_doh(result: ProbeResult)
    ensures
        result.dns.verdict == DnsFailureCode::Poisoned || result.dns.verdict
            == DnsFailureCode::NxdomainSpoof || result.dns.verdict == DnsFailureCode::EmptySpoof ==> advice_on(result).contains(
            (Advice {
                id: 100,
                name: "doh_dns"@,
                category: StrategyCategory::Dns,
                confidence: Confidence { parts: 95, whole: 100 },
                rationale: "DNS poisoned — force DoH resolver"@,
            }),
        ),
        result.dns.verdict == DnsFailureCode::Intercepted ==> advice_on(result).contains(
            (Advice {
                id: 100,
                name: "doh_dns"@,
                category: StrategyCategory::Dns,
                confidence: Confidence { parts: 90, whole: 100 },
                rationale: "DNS intercepted — UDP blocked, use DoH"@,
            }),
        ),
{
    advice_of_each_phase(result);
}

/// A connection that was reset calls for a split, one that timed out for a fake
/// server name, and one that was cut for smaller segments, whatever the other
/// phases found. A timeout on a name that resolved calls for a proxy as well.
pub proof fn broken_connections_call_for_their_technique(result: ProbeResult)
    ensures
        result.tcp.verdict == TcpFailureCode::Reset ==> advice_on(result).contains(
            (Advice {
                id: 1,
                name: "tcp_split"@,
                category: StrategyCategory::Tcp,
                confidence: Confidence { parts: 85, whole: 100 },
                rationale: "TCP RST — DPI inspecting SYN/CH, apply split"@,
            }),
        ),
        result.tcp.verdict == TcpFailureCode::Timeout ==> advice_on(result).contains(
            (Advice {
                id: 3,
                name: "fake_sni"@,
                category: StrategyCategory::Tls,
                confidence: Confidence { parts: 80, whole: 100 },
                rationale: "TCP timeout — SYN drop, use fake SNI with low TTL"@,
            }),
        ),
        result.tcp.verdict == TcpFailureCode::DataVolumeCut ==> advice_on(result).contains(
            (Advice {
                id: 9,
                name: "mss_clamp"@,
                category: StrategyCategory::Tcp,
                confidence: Confidence { parts: 85, whole: 100 },
                rationale: "Data-volume cut — DPI counting packets, use MSS clamp + reorder"@,
            }),
        ),
        result.tcp.verdict == TcpFailureCode::Timeout && result.dns.verdict
            == DnsFailureCode::DnsOk ==> advice_on(result).contains(
            (Advice {
                id: 35,
                name: "socks5_fallback"@,
                category: StrategyCategory::General,
                confidence: Confidence { parts: 70, whole: 100 },
                rationale: "TCP timeout on foreign IP — possible CIDR whitelist, use proxy"@,
            }),
        ),
        result.tcp16 is Some && result.tcp16->0.detected ==> advice_on(result).contains(
            (Advice {
                id: 9,
                name: "mss_clamp"@,
                category: StrategyCategory::Tcp,
                confidence: Confidence { parts: 80, whole: 100 },
                rationale: "Data-volume cutoff at "@ + text::decimal(
                    result.tcp16->0.detected_at_kb as nat,
                ) + "KB — use MSS clamp + reorder"@,
            }),
        ),
{
    advice_of_each_phase(result);
}

/// Each way of interfering with the handshake calls for its own technique,
/// whatever the other phases found.
pub proof fn broken_handshakes_call_for_their_technique(result: ProbeResult)
    requires
        result.tls is Some,
    ensures
        result.tls->0.verdict == TlsFailureCode::Version12Only ==> advice_on(result).contains(
            (Advice {
                id: 15,
                name: "tls_record_frag"@,
                category: StrategyCategory::Tls,
                confidence: Confidence { parts: 90, whole: 100 },
                rationale: "TLS 1.3 blocked, 1.2 works — force TLS 1.2 + record frag"@,
            }),
        ),
        result.tls->0.verdict == TlsFailureCode::Garbage ==> advice_on(result).contains(
            (Advice {
                id: 6,
                name: "seq_number_spoof"@,
                category: StrategyCategory::Tcp,
                confidence: Confidence { parts: 85, whole: 100 },
                rationale: "TLS garbage injection — DPI injecting fake records, use SEQ spoof"@,
            }),
        ),
        result.tls->0.verdict == TlsFailureCode::Reset ==> advice_on(result).contains(
            (Advice {
                id: 7,
                name: "disorder"@,
                category: StrategyCategory::Tcp,
                confidence: Confidence { parts: 80, whole: 100 },
                rationale: "TLS RST — DPI killing handshake, use disorder"@,
            }),
        ),
        result.tls->0.verdict == TlsFailureCode::AlertSniblock ==> advice_on(result).contains(
            (Advice {
                id: 4,
                name: "hostfake"@,
                category: StrategyCategory::Tcp,
                confidence: Confidence { parts: 85, whole: 100 },
                rationale: "SNI blocked — use hostfake with allowed SNI"@,
            }),
        ),
        result.tls->0.verdict == TlsFailureCode::Mitm || result.tls->0.verdict
            == TlsFailureCode::MitmSelfSigned || result.tls->0.verdict == TlsFailureCode::MitmExpired ==> advice_on(result).contains(
            (Advice {
                id: 35,
                name: "socks5_fallback"@,
                category: StrategyCategory::General,
                confidence: Confidence { parts: 90, whole: 100 },
                rationale: "Certificate substitution — MITM detected, use proxy"@,
            }),
        ),
{
    advice_of_each_phase(result);
}

/// A response that was cut off calls for a smaller window, one that something
/// else than the site answered for a proxy, whatever the other phases found.
pub proof fn broken_pages_call_for_their_technique(result: ProbeResult)
    requires
        result.http is Some,
    ensures
        result.http->0.verdict == HttpFailureCode::Cutoff ==> advice_on(result).contains(
            (Advice {
                id: 8,
                name: "tcp_window_clamp"@,
                category: StrategyCategory::Tcp,
                confidence: Confidence { parts: 80, whole: 100 },
                rationale: "HTTP cutoff — DPI counting packets, use window clamp"@,
            }),
        ),
        result.http->0.verdict == HttpFailureCode::Http451 ==> advice_on(result).contains(
            (Advice {
                id: 35,
                name: "socks5_fallback"@,
                category: StrategyCategory::General,
                confidence: Confidence { parts: 95, whole: 100 },
                rationale: "HTTP 451 — legal block, proxy required"@,
            }),
        ),
        result.http->0.verdict == HttpFailureCode::RedirectForeign ==> advice_on(result).contains(
            (Advice {
                id: 35,
                name: "socks5_fallback"@,
                category: StrategyCategory::General,
                confidence: Confidence { parts: 85, whole: 100 },
                rationale: "ISP block page — redirect to foreign domain, use proxy"@,
            }),
        ),
        result.http->0.verdict == HttpFailureCode::StubPage ==> advice_on(result).contains(
            (Advice {
                id: 35,
                name: "socks5_fallback"@,
                category: StrategyCategory::General,
                confidence: Confidence { parts: 90, whole: 100 },
                rationale: "RKN stub page detected — use proxy"@,
            }),
        ),
{
    advice_of_each_phase(result);
}

/// No technique is advised without its reason: each piece of advice in the list
/// goes back to a finding.
#[verifier::rlimit(60)]
pub proof fn advice_needs_a_reason(result: ProbeResult, i: int)
    requires
        0 <= i < advice_on(result).len(),
    ensures
        ({
            let id = advice_on(result)[i].id;
            let dns = result.dns.verdict;
            let tcp = result.tcp.verdict;
            ||| id == 100 && (dns == DnsFailureCode::Poisoned || dns
                == DnsFailureCode::NxdomainSpoof || dns == DnsFailureCode::EmptySpoof || dns
                == DnsFailureCode::Intercepted)
            ||| id == 1 && tcp == TcpFailureCode::Reset
            ||| id == 3 && tcp == TcpFailureCode::Timeout
            ||| id == 9 && tcp == TcpFailureCode::DataVolumeCut
            ||| id == 9 && result.tcp16 is Some && result.tcp16->0.detected
            ||| id == 15 && result.tls is Some && result.tls->0.verdict
                == TlsFailureCode::Version12Only
            ||| id == 6 && result.tls is Some && result.tls->0.verdict == TlsFailureCode::Garbage
            ||| id == 7 && result.tls is Some && result.tls->0.verdict == TlsFailureCode::Reset
            ||| id == 4 && result.tls is Some && result.tls->0.verdict
                == TlsFailureCode::AlertSniblock
            ||| id == 8 && result.http is Some && result.http->0.verdict == HttpFailureCode::Cutoff
            ||| id == 35 && result.tls is Some && (result.tls->0.verdict == TlsFailureCode::Mitm
                || result.tls->0.verdict == TlsFailureCode::MitmSelfSigned
                || result.tls->0.verdict == TlsFailureCode::MitmExpired)
            ||| id == 35 && result.http is Some && (result.http->0.verdict
                == HttpFailureCode::Http451 || result.http->0.verdict
                == HttpFailureCode::RedirectForeign || result.http->0.verdict
                == HttpFailureCode::StubPage)
            ||| id == 35 && dns == DnsFailureCode::DnsOk && tcp == TcpFailureCode::Timeout
        }),
{
    lists_hold_their_parts(
        dns_advice(result.dns.verdict),
        tcp_advice(result.tcp.verdict),
        tls_part(result),
        http_part(result),
        volume_part(result),
        whitelist_advice(result.dns.verdict, result.tcp.verdict),
    );
    let found = advice_on(result)[i];
    if Some(found) == dns_advice(result.dns.verdict) {
        assert(found.id == 100);
    } else if Some(found) == tcp_advice(result.tcp.verdict) {
    } else if Some(found) == tls_part(result) {
    } else if Some(found) == http_part(result) {
    } else if Some(found) == volume_part(result) {
        assert(found.id == 9);
    } else {
        assert(found.id == 35);
    }
}

/// Advice goes up the layers: that on DNS comes first, then that on TCP, and that
/// on a list of reachable addresses last. No finding brings more than one piece
/// of advice, so the list is as long as there are reasons.
#[verifier::rlimit(60)]
pub proof fn advice_goes_up_the_layers(result: ProbeResult)
    ensures
        ({
            let list = advice_on(result);
            let dns = result.dns.verdict;
            let tcp = result.tcp.verdict;
            let after_dns: int = if dns == DnsFailureCode::Poisoned || dns
                == DnsFailureCode::NxdomainSpoof || dns == DnsFailureCode::EmptySpoof || dns
                == DnsFailureCode::Intercepted {
                1
            } else {
                0
            };
            &&& after_dns == 1 ==> list[0].id == 100
            &&& tcp == TcpFailureCode::Reset ==> list[after_dns].id == 1
            &&& tcp == TcpFailureCode::Timeout ==> list[after_dns].id == 3
            &&& tcp == TcpFailureCode::DataVolumeCut ==> list[after_dns].id == 9
            &&& dns == DnsFailureCode::DnsOk && tcp == TcpFailureCode::Timeout ==> list[list.len()
                - 1].id == 35
            &&& list.len() == reasons(result)
        }),
{
    lists_hold_their_parts(
        dns_advice(result.dns.verdict),
        tcp_advice(result.tcp.verdict),
        tls_part(result),
        http_part(result),
        volume_part(result),
        whitelist_advice(result.dns.verdict, result.tcp.verdict),
    );
}

/// How many findings of a result call for a technique.
pub open spec fn reasons(result: ProbeResult) -> int {
    let dns = result.dns.verdict;
    let tcp = result.tcp.verdict;
    (if dns == DnsFailureCode::DnsOk || dns == DnsFailureCode::DohBlocked || dns
        == DnsFailureCode::Unresolvable {
        0int
    } else {
        1
    }) + (if tcp == TcpFailureCode::Reset || tcp == TcpFailureCode::Timeout || tcp
        == TcpFailureCode::DataVolumeCut {
        1int
    } else {
        0
    }) + (if result.tls is Some && result.tls->0.verdict != TlsFailureCode::HandshakeOk {
        1int
    } else {
        0
    }) + (if result.http is Some && (result.http->0.verdict == HttpFailureCode::Cutoff
        || result.http->0.verdict == HttpFailureCode::Http451 || result.http->0.verdict
        == HttpFailureCode::RedirectForeign || result.http->0.verdict == HttpFailureCode::StubPage) {
        1int
    } else {
        0
    }) + (if result.tcp16 is Some && result.tcp16->0.detected {
        1int
    } else {
        0
    }) + (if dns == DnsFailureCode::DnsOk && tcp == TcpFailureCode::Timeout {
        1int
    } else {
        0
    })
}

} // verus!
