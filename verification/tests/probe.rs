use freedpi::probe::classifier::{
    Confidence, ConnectionStage, DnsFailureCode, HttpFailureCode, ProbeVerdict, TcpFailureCode,
    TlsFailureCode,
};
use freedpi::probe::config::ProbeConfig;
use freedpi::probe::findings::{
    DiscriminationResult, DnsProbeResult, Tcp16ProbeResult, TcpProbeResult, TlsProbeResult,
};
use freedpi::probe::http_probe::HttpProbeResult;
use freedpi::probe::run::{overall_verdict, Phase, ProbeRun, Report};
use freedpi::probe::strategy_map::{recommend, StrategyCategory};
use freedpi::probe::{compute_verdict, ProbeModule, ProbeResult};
use std::time::Duration;

/// A confidence as a number between 0 and 1.
fn value(c: Confidence) -> f64 {
    c.parts as f64 / c.whole as f64
}

fn dns_result(verdict: DnsFailureCode, ips: Vec<[u8; 4]>, latency_us: u64) -> DnsProbeResult {
    DnsProbeResult {
        verdict,
        resolved_ips: ips.clone(),
        udp_ips: ips.clone(),
        doh_ips: ips,
        latency_us,
        fake_ip_detected: false,
    }
}

fn tcp_result(verdict: TcpFailureCode) -> TcpProbeResult {
    TcpProbeResult { verdict, rtt_us: 12000, ip: Some([8, 8, 8, 8]) }
}

fn tls_result(verdict: TlsFailureCode) -> TlsProbeResult {
    TlsProbeResult {
        verdict,
        tls13_ok: false,
        tls12_ok: false,
        stage: ConnectionStage::TlsConnected,
        latency_us: 50000,
    }
}

fn http_result(verdict: HttpFailureCode) -> HttpProbeResult {
    HttpProbeResult { verdict, bytes_read: 0, redirect_url: None, latency_us: 0 }
}

#[test]
fn test_compute_verdict_dns_poisoned() {
    let dns = dns_result(DnsFailureCode::Poisoned, vec![], 0);
    let tcp = TcpProbeResult { verdict: TcpFailureCode::ConnectOk, rtt_us: 10000, ip: None };
    let (v, c) = compute_verdict(&dns, &tcp);
    assert_eq!(v, ProbeVerdict::Blocked);
    assert!(value(c) > 0.9);
}

#[test]
fn test_compute_verdict_tcp_ok_dns_ok() {
    let dns = dns_result(DnsFailureCode::DnsOk, vec![[8, 8, 8, 8]], 50000);
    let tcp = TcpProbeResult {
        verdict: TcpFailureCode::ConnectOk,
        rtt_us: 12000,
        ip: Some([8, 8, 8, 8]),
    };
    let (v, _c) = compute_verdict(&dns, &tcp);
    assert_eq!(v, ProbeVerdict::Ambiguous);
}

#[test]
fn test_compute_verdict_tcp_reset() {
    let dns = dns_result(DnsFailureCode::DnsOk, vec![[8, 8, 8, 8]], 50000);
    let tcp = TcpProbeResult {
        verdict: TcpFailureCode::Reset,
        rtt_us: 5000,
        ip: Some([8, 8, 8, 8]),
    };
    let (v, c) = compute_verdict(&dns, &tcp);
    assert_eq!(v, ProbeVerdict::Blocked);
    assert!(value(c) >= 0.8);
}

#[test]
fn verdicts_follow_the_table() {
    let tcps = [
        TcpFailureCode::ConnectOk,
        TcpFailureCode::Reset,
        TcpFailureCode::Timeout,
        TcpFailureCode::Refused,
        TcpFailureCode::Unreachable,
        TcpFailureCode::DataVolumeCut,
    ];
    let table: [(DnsFailureCode, [(bool, u32); 6]); 7] = [
        (DnsFailureCode::Poisoned, [(true, 95); 6]),
        (DnsFailureCode::NxdomainSpoof, [(true, 90); 6]),
        (DnsFailureCode::EmptySpoof, [(true, 85); 6]),
        (DnsFailureCode::Intercepted, [(true, 90); 6]),
        (DnsFailureCode::DohBlocked, [(true, 80); 6]),
        (
            DnsFailureCode::DnsOk,
            [(false, 30), (true, 85), (true, 75), (false, 40), (false, 30), (true, 85)],
        ),
        (
            DnsFailureCode::Unresolvable,
            [(false, 50), (true, 80), (true, 60), (false, 40), (false, 30), (true, 85)],
        ),
    ];
    for (dns, row) in table {
        for (tcp, (blocked, percent)) in tcps.iter().zip(row) {
            let (v, c) = compute_verdict(&dns_result(dns, vec![], 0), &tcp_result(*tcp));
            assert_eq!(v == ProbeVerdict::Blocked, blocked);
            assert_eq!(c, Confidence { parts: percent, whole: 100 });
        }
    }
}

#[test]
fn later_phases_override_the_verdict() {
    let dns = dns_result(DnsFailureCode::DnsOk, vec![[1, 2, 3, 4]], 0);
    let tcp = tcp_result(TcpFailureCode::ConnectOk);
    let d = DiscriminationResult {
        verdict: ProbeVerdict::Ambiguous,
        confidence: Confidence::percent(12),
    };
    let with = |tls, disc| overall_verdict(&dns, &tcp, tls, disc);
    assert_eq!(
        with(Some(TlsFailureCode::Reset), Some(d)),
        (ProbeVerdict::Ambiguous, Confidence::percent(12))
    );
    assert_eq!(
        with(Some(TlsFailureCode::Version12Only), None),
        (ProbeVerdict::Blocked, Confidence::percent(90))
    );
    assert_eq!(
        with(Some(TlsFailureCode::Reset), None),
        (ProbeVerdict::Blocked, Confidence::percent(85))
    );
    assert_eq!(
        with(Some(TlsFailureCode::HandshakeOk), None),
        (ProbeVerdict::Ambiguous, Confidence::percent(30))
    );
    assert_eq!(with(None, None), (ProbeVerdict::Ambiguous, Confidence::percent(30)));
}

#[test]
fn a_full_run_goes_through_all_phases() {
    let mut run = ProbeRun::new("example.com");
    assert!(matches!(run.next_phase(), Phase::Dns));
    run.accept(Report::Dns(dns_result(
        DnsFailureCode::DnsOk,
        vec![[9, 9, 9, 9], [8, 8, 8, 8]],
        100,
    )));
    assert!(matches!(run.next_phase(), Phase::Tcp { port: 443 }));
    assert_eq!(run.addresses(), vec![[9, 9, 9, 9], [8, 8, 8, 8]]);
    run.accept(Report::Tcp(tcp_result(TcpFailureCode::ConnectOk)));
    assert!(matches!(run.next_phase(), Phase::Tls { ip: [9, 9, 9, 9] }));
    run.accept(Report::Tls(tls_result(TlsFailureCode::Version12Only)));
    assert!(matches!(run.next_phase(), Phase::Http { ip: [9, 9, 9, 9] }));
    run.accept(Report::Http(http_result(HttpFailureCode::Cutoff)));
    assert!(matches!(run.next_phase(), Phase::Volume { ip: [9, 9, 9, 9] }));
    run.accept(Report::Volume(Tcp16ProbeResult {
        detected: true,
        detected_at_kb: 16,
        rtt_us: 77,
    }));
    assert!(matches!(
        run.next_phase(),
        Phase::Discriminate { tls: TlsFailureCode::Version12Only, http: HttpFailureCode::Cutoff }
    ));
    run.accept(Report::Discriminated(DiscriminationResult {
        verdict: ProbeVerdict::Blocked,
        confidence: Confidence::percent(88),
    }));
    assert!(matches!(run.next_phase(), Phase::Finished));

    let mut module = ProbeModule::new();
    let result = module.conclude_at(run, 5, "now".to_string());
    assert_eq!(result.domain, "example.com");
    assert_eq!(result.ip, Some([9, 9, 9, 9]));
    assert_eq!(result.verdict, ProbeVerdict::Blocked);
    assert_eq!(result.confidence, Confidence::percent(88));
    assert_eq!(result.tcp.verdict, TcpFailureCode::DataVolumeCut);
    assert_eq!((result.tcp.rtt_us, result.tcp.ip), (12000, Some([8, 8, 8, 8])));
    assert_eq!(result.dns.latency_us, 100);
    assert_eq!(result.tls.unwrap().verdict, TlsFailureCode::Version12Only);
    assert_eq!(result.http.unwrap().verdict, HttpFailureCode::Cutoff);
    assert!(result.tcp16.unwrap().detected);
    assert!(result.discrimination.is_some());
    assert!(!result.should_tunnel);
    assert_eq!(result.timestamp, "now");
    assert_eq!(module.accumulator().get_verdict("example.com").blocked_count, 1);
}

#[test]
fn runs_stop_where_a_phase_gives_no_reason_to_go_on() {
    // Forged DNS: nothing to connect to.
    let mut run = ProbeRun::new("a.com");
    run.accept(Report::Dns(dns_result(DnsFailureCode::Poisoned, vec![[1, 1, 1, 1]], 0)));
    assert!(matches!(run.next_phase(), Phase::Finished));
    assert!(run.addresses().is_empty() && run.ip().is_none());
    assert_eq!(run.final_tcp().verdict, TcpFailureCode::Timeout);
    assert_eq!((run.final_tcp().rtt_us, run.final_tcp().ip), (0, None));

    // No addresses.
    let mut run = ProbeRun::new("a.com");
    run.accept(Report::Dns(dns_result(DnsFailureCode::DnsOk, vec![], 0)));
    assert!(matches!(run.next_phase(), Phase::Finished));

    // No connection.
    let mut run = ProbeRun::new("a.com");
    run.accept(Report::Dns(dns_result(DnsFailureCode::DnsOk, vec![[1, 1, 1, 1]], 0)));
    run.accept(Report::Tcp(tcp_result(TcpFailureCode::Refused)));
    assert!(matches!(run.next_phase(), Phase::Finished));

    // No TLS session: the missing page counts as none to blame.
    let mut run = ProbeRun::new("a.com");
    run.accept(Report::Dns(dns_result(DnsFailureCode::DnsOk, vec![[1, 1, 1, 1]], 0)));
    run.accept(Report::Tcp(tcp_result(TcpFailureCode::ConnectOk)));
    run.accept(Report::Tls(tls_result(TlsFailureCode::Mitm)));
    assert!(matches!(
        run.next_phase(),
        Phase::Discriminate { tls: TlsFailureCode::Mitm, http: HttpFailureCode::HttpOk }
    ));

    // A page that was not cut off needs no transfer.
    let mut run = ProbeRun::new("a.com");
    run.accept(Report::Dns(dns_result(DnsFailureCode::DnsOk, vec![[1, 1, 1, 1]], 0)));
    run.accept(Report::Tcp(tcp_result(TcpFailureCode::ConnectOk)));
    run.accept(Report::Tls(tls_result(TlsFailureCode::HandshakeOk)));
    run.accept(Report::Http(http_result(HttpFailureCode::StubPage)));
    assert!(matches!(
        run.next_phase(),
        Phase::Discriminate { tls: TlsFailureCode::HandshakeOk, http: HttpFailureCode::StubPage }
    ));
}

#[test]
fn a_quick_run_ends_with_tls() {
    let mut run = ProbeRun::with_depth("a.com", false);
    run.accept(Report::Dns(dns_result(DnsFailureCode::DnsOk, vec![[1, 1, 1, 1]], 0)));
    run.accept(Report::Tcp(tcp_result(TcpFailureCode::ConnectOk)));
    assert!(matches!(run.next_phase(), Phase::Tls { ip: [1, 1, 1, 1] }));
    run.accept(Report::Tls(tls_result(TlsFailureCode::HandshakeOk)));
    assert!(matches!(
        run.next_phase(),
        Phase::Discriminate { tls: TlsFailureCode::HandshakeOk, http: HttpFailureCode::HttpOk }
    ));
    run.accept(Report::Discriminated(DiscriminationResult {
        verdict: ProbeVerdict::Ambiguous,
        confidence: Confidence::percent(10),
    }));
    assert!(matches!(run.next_phase(), Phase::Finished));
    let result = ProbeModule::new().conclude(run);
    assert!(result.http.is_none() && result.tcp16.is_none());
    assert_eq!(result.tls.unwrap().verdict, TlsFailureCode::HandshakeOk);

    let mut full = ProbeRun::with_depth("a.com", true);
    full.accept(Report::Dns(dns_result(DnsFailureCode::DnsOk, vec![[1, 1, 1, 1]], 0)));
    full.accept(Report::Tcp(tcp_result(TcpFailureCode::ConnectOk)));
    full.accept(Report::Tls(tls_result(TlsFailureCode::HandshakeOk)));
    assert!(matches!(full.next_phase(), Phase::Http { ip: [1, 1, 1, 1] }));
}

#[test]
fn conclusions_add_up_to_the_tunnel() {
    let mut module = ProbeModule::default();
    for i in 0..5 {
        let mut run = ProbeRun::new("bad.com");
        run.accept(Report::Dns(dns_result(DnsFailureCode::Poisoned, vec![], 0)));
        let result = module.conclude(run);
        assert_eq!(result.verdict, ProbeVerdict::Blocked);
        assert_eq!(result.confidence, Confidence::percent(95));
        assert_eq!(result.should_tunnel, i == 4);
        assert!(result.timestamp.ends_with("+00:00"));
        assert!(result.timestamp.contains('T'));
    }
    module.accumulator_mut().cleanup_at(u128::MAX);
    assert_eq!(module.accumulator().hot_count(), 0);
}

#[test]
fn settings_are_the_default_unless_given() {
    let module = ProbeModule::new();
    assert_eq!(module.config().promote_threshold, 50);
    assert_eq!(module.config().family_threshold, 10);
    assert_eq!(module.config().hot_ttl, Duration::from_secs(24 * 60 * 60));
    assert_eq!(module.config().http_read_timeout, Duration::from_secs(10));
    assert_eq!(module.http().url("a.b"), "https://a.b/");

    let config = ProbeConfig {
        promote_threshold: 2,
        family_threshold: 1,
        hot_ttl: Duration::from_secs(1),
        http_read_timeout: Duration::from_secs(3),
        rkn_stub_substrings: vec!["x".to_string()],
    };
    let copy = config.clone();
    assert_eq!(copy.rkn_stub_substrings, config.rkn_stub_substrings);
    let mut module = ProbeModule::with_config(config);
    assert_eq!(module.http().read_timeout(), copy.http_read_timeout);
    let mut run = ProbeRun::new("a.bad.com");
    run.accept(Report::Dns(dns_result(DnsFailureCode::Poisoned, vec![], 0)));
    assert!(module.conclude(run).should_tunnel);
    assert!(module.accumulator().should_tunnel("b.bad.com"));
}

#[test]
fn findings_have_their_names() {
    assert_eq!(DnsFailureCode::DnsOk.name(), "Ok");
    assert_eq!(DnsFailureCode::Poisoned.name(), "Poisoned");
    assert_eq!(DnsFailureCode::NxdomainSpoof.name(), "NxdomainSpoof");
    assert_eq!(DnsFailureCode::EmptySpoof.name(), "EmptySpoof");
    assert_eq!(DnsFailureCode::Intercepted.name(), "Intercepted");
    assert_eq!(DnsFailureCode::DohBlocked.name(), "DohBlocked");
    assert_eq!(DnsFailureCode::Unresolvable.name(), "Unresolvable");
    assert_eq!(TcpFailureCode::ConnectOk.name(), "ConnectOk");
    assert_eq!(TcpFailureCode::Reset.name(), "Reset");
    assert_eq!(TcpFailureCode::Timeout.name(), "Timeout");
    assert_eq!(TcpFailureCode::Refused.name(), "Refused");
    assert_eq!(TcpFailureCode::Unreachable.name(), "Unreachable");
    assert_eq!(TcpFailureCode::DataVolumeCut.name(), "DataVolumeCut");
    assert_eq!(TlsFailureCode::Version12Only.name(), "Version12Only");
    assert_eq!(TlsFailureCode::MitmSelfSigned.name(), "MitmSelfSigned");
    assert_eq!(HttpFailureCode::HttpOk.name(), "Ok");
    assert_eq!(HttpFailureCode::RedirectForeign.name(), "RedirectForeign");
    assert!(!TlsFailureCode::HandshakeOk.is_tls_fail());
    assert!(!TlsFailureCode::Version12Only.is_tls_fail());
    assert!(TlsFailureCode::Garbage.is_tls_fail());
    assert!(!HttpFailureCode::HttpOk.is_error());
    assert!(!HttpFailureCode::RedirectSame.is_error());
    assert!(HttpFailureCode::Timeout.is_error());
}

// ---------------------------------------------------------------------------
// Recommendations
// ---------------------------------------------------------------------------

fn make_test_result(
    dns: DnsFailureCode,
    tcp: TcpFailureCode,
    tls: Option<TlsFailureCode>,
) -> ProbeResult {
    ProbeResult {
        domain: "test.com".into(),
        ip: Some([8, 8, 8, 8]),
        verdict: ProbeVerdict::Ambiguous,
        confidence: Confidence::percent(50),
        dns: DnsProbeResult {
            verdict: dns,
            resolved_ips: vec![],
            udp_ips: vec![],
            doh_ips: vec![],
            latency_us: 0,
            fake_ip_detected: false,
        },
        tcp: TcpProbeResult { verdict: tcp, rtt_us: 10000, ip: Some([8, 8, 8, 8]) },
        tls: tls.map(tls_result),
        http: None,
        tcp16: None,
        discrimination: None,
        should_tunnel: false,
        timestamp: "".into(),
    }
}

#[test]
fn test_recommend_dns_poisoned() {
    let result = make_test_result(DnsFailureCode::Poisoned, TcpFailureCode::ConnectOk, None);
    let recs = recommend(&result);
    assert!(recs.iter().any(|r| r.strategy_name == "doh_dns"));
}

#[test]
fn test_recommend_tcp_reset() {
    let result = make_test_result(DnsFailureCode::DnsOk, TcpFailureCode::Reset, None);
    let recs = recommend(&result);
    assert!(recs.iter().any(|r| r.strategy_name == "tcp_split"));
}

#[test]
fn test_recommend_tls_version12only() {
    let result = make_test_result(
        DnsFailureCode::DnsOk,
        TcpFailureCode::ConnectOk,
        Some(TlsFailureCode::Version12Only),
    );
    let recs = recommend(&result);
    assert!(recs.iter().any(|r| r.strategy_name == "tls_record_frag"));
}

#[test]
fn test_recommend_tls_garbage() {
    let result = make_test_result(
        DnsFailureCode::DnsOk,
        TcpFailureCode::ConnectOk,
        Some(TlsFailureCode::Garbage),
    );
    let recs = recommend(&result);
    assert!(recs.iter().any(|r| r.strategy_name == "seq_number_spoof"));
}

#[test]
fn test_recommend_http_451() {
    let mut result = make_test_result(
        DnsFailureCode::DnsOk,
        TcpFailureCode::ConnectOk,
        Some(TlsFailureCode::HandshakeOk),
    );
    result.http = Some(HttpProbeResult {
        verdict: HttpFailureCode::Http451,
        bytes_read: 0,
        redirect_url: None,
        latency_us: 0,
    });
    let recs = recommend(&result);
    assert!(recs.iter().any(|r| r.strategy_name == "socks5_fallback"));
}

#[test]
fn recommendations_come_from_dns_upwards() {
    let mut result = make_test_result(
        DnsFailureCode::Intercepted,
        TcpFailureCode::DataVolumeCut,
        Some(TlsFailureCode::MitmExpired),
    );
    result.http = Some(http_result(HttpFailureCode::Cutoff));
    result.tcp16 = Some(Tcp16ProbeResult { detected: true, detected_at_kb: 16, rtt_us: 0 });
    let recs = recommend(&result);
    let ids: Vec<u32> = recs.iter().map(|r| r.strategy_id).collect();
    assert_eq!(ids, vec![100, 9, 35, 8, 9]);
    assert_eq!(recs[0].category, StrategyCategory::Dns);
    assert_eq!(recs[0].confidence, Confidence::percent(90));
    assert_eq!(recs[0].rationale, "DNS intercepted — UDP blocked, use DoH");
    assert_eq!(recs[2].category, StrategyCategory::General);
    assert_eq!(recs[3].strategy_name, "tcp_window_clamp");
    assert_eq!(
        recs[4].rationale,
        "Data-volume cutoff at 16KB — use MSS clamp + reorder"
    );
}

#[test]
fn a_silent_server_may_be_off_the_list() {
    let recs =
        recommend(&make_test_result(DnsFailureCode::DnsOk, TcpFailureCode::Timeout, None));
    assert_eq!(recs.len(), 2);
    assert_eq!((recs[0].strategy_id, recs[0].category), (3, StrategyCategory::Tls));
    assert_eq!((recs[1].strategy_id, recs[1].confidence), (35, Confidence::percent(70)));
    let recs = recommend(&make_test_result(
        DnsFailureCode::Unresolvable,
        TcpFailureCode::Timeout,
        None,
    ));
    assert_eq!(recs.len(), 1);
}

#[test]
fn every_failure_has_its_technique() {
    let tls = [
        (TlsFailureCode::Version12Only, 15, 90),
        (TlsFailureCode::Garbage, 6, 85),
        (TlsFailureCode::Reset, 7, 80),
        (TlsFailureCode::AlertSniblock, 4, 85),
        (TlsFailureCode::Mitm, 35, 90),
        (TlsFailureCode::MitmSelfSigned, 35, 90),
        (TlsFailureCode::MitmExpired, 35, 90),
    ];
    for (code, id, percent) in tls {
        let result =
            make_test_result(DnsFailureCode::DnsOk, TcpFailureCode::ConnectOk, Some(code));
        let recs = recommend(&result);
        assert_eq!(recs.len(), 1);
        assert_eq!((recs[0].strategy_id, recs[0].confidence), (id, Confidence::percent(percent)));
    }
    let http = [
        (HttpFailureCode::Cutoff, Some((8, 80))),
        (HttpFailureCode::Http451, Some((35, 95))),
        (HttpFailureCode::RedirectForeign, Some((35, 85))),
        (HttpFailureCode::StubPage, Some((35, 90))),
        (HttpFailureCode::RedirectSame, None),
        (HttpFailureCode::Timeout, None),
        (HttpFailureCode::HttpOk, None),
    ];
    for (code, expected) in http {
        let mut result = make_test_result(
            DnsFailureCode::DnsOk,
            TcpFailureCode::ConnectOk,
            Some(TlsFailureCode::HandshakeOk),
        );
        result.http = Some(http_result(code));
        let recs = recommend(&result);
        match expected {
            Some((id, percent)) => {
                assert_eq!(recs.len(), 1);
                assert_eq!(recs[0].strategy_id, id);
                assert_eq!(recs[0].confidence, Confidence::percent(percent));
            }
            None => assert!(recs.is_empty()),
        }
    }
    let clean = make_test_result(DnsFailureCode::DnsOk, TcpFailureCode::ConnectOk, None);
    assert!(recommend(&clean).is_empty());
}
