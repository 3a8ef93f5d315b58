use freedpi::probe::classifier::{
    Confidence, ConnectionStage, DnsFailureCode, HttpFailureCode, ProbeVerdict, TcpFailureCode,
    TlsFailureCode,
};
use freedpi::probe::findings::{
    DnsProbeResult, Tcp16ProbeResult, TcpProbeResult, TlsProbeResult,
};
use freedpi::probe::http_probe::HttpProbeResult;
use freedpi::probe::ProbeResult;
use freedpi::service::{
    describe, get_domains_by_ids, get_presets, test_strategy, test_strategy_as, History, Preset, HISTORY_LIMIT,
};

fn result() -> ProbeResult {
    ProbeResult {
        domain: "test.com".into(),
        ip: Some([8, 8, 8, 8]),
        verdict: ProbeVerdict::Blocked,
        confidence: Confidence::percent(85),
        dns: DnsProbeResult {
            verdict: DnsFailureCode::DnsOk,
            resolved_ips: vec![[8, 8, 8, 8]],
            udp_ips: vec![],
            doh_ips: vec![],
            latency_us: 11,
            fake_ip_detected: false,
        },
        tcp: TcpProbeResult { verdict: TcpFailureCode::Reset, rtt_us: 22, ip: None },
        tls: None,
        http: None,
        tcp16: None,
        discrimination: None,
        should_tunnel: true,
        timestamp: "2024-01-01T00:00:00+00:00".into(),
    }
}

#[test]
fn results_are_described() {
    let r = describe(&result());
    assert_eq!(r.domain, "test.com");
    assert_eq!(r.verdict, "blocked");
    assert_eq!(r.confidence, Confidence::percent(85));
    assert_eq!((r.dns.phase.as_str(), r.dns.status.as_str()), ("dns", "ok"));
    assert_eq!((r.dns.detail.as_str(), r.dns.latency_us), ("Ok", Some(11)));
    assert_eq!((r.tcp.phase.as_str(), r.tcp.status.as_str()), ("tcp", "blocked"));
    assert_eq!((r.tcp.detail.as_str(), r.tcp.latency_us), ("Reset", Some(22)));
    assert!(r.tls.is_none() && r.http.is_none() && r.tcp16.is_none());
    assert_eq!(r.recommendations.len(), 1);
    assert_eq!(r.recommendations[0].strategy_name, "tcp_split");
    assert_eq!(r.recommendations[0].confidence, Confidence::percent(85));
    assert_eq!(
        r.recommendations[0].rationale,
        "TCP RST — DPI inspecting SYN/CH, apply split"
    );
    assert!(r.should_tunnel);
    assert_eq!(r.timestamp, "2024-01-01T00:00:00+00:00");
}

#[test]
fn later_phases_are_described_where_they_ran() {
    let mut probed = result();
    probed.verdict = ProbeVerdict::Ambiguous;
    probed.tls = Some(TlsProbeResult {
        verdict: TlsFailureCode::Version12Only,
        tls13_ok: false,
        tls12_ok: true,
        stage: ConnectionStage::TlsConnected,
        latency_us: 33,
    });
    probed.http = Some(HttpProbeResult {
        verdict: HttpFailureCode::Cutoff,
        bytes_read: 1,
        redirect_url: None,
        latency_us: 44,
    });
    probed.tcp16 = Some(Tcp16ProbeResult { detected: true, detected_at_kb: 20, rtt_us: 55 });
    let r = describe(&probed);
    assert_eq!(r.verdict, "ambiguous");
    let tls = r.tls.unwrap();
    assert_eq!((tls.phase.as_str(), tls.status.as_str()), ("tls", "ok"));
    assert_eq!((tls.detail.as_str(), tls.latency_us), ("Version12Only", Some(33)));
    let http = r.http.unwrap();
    assert_eq!((http.phase.as_str(), http.status.as_str()), ("http", "blocked"));
    assert_eq!((http.detail.as_str(), http.latency_us), ("Cutoff", Some(44)));
    let volume = r.tcp16.unwrap();
    assert_eq!((volume.phase.as_str(), volume.status.as_str()), ("tcp16", "blocked"));
    assert_eq!((volume.detail.as_str(), volume.latency_us), ("detected at 20KB", Some(55)));
    assert_eq!(r.recommendations.len(), 4);

    probed.tcp16 = Some(Tcp16ProbeResult { detected: false, detected_at_kb: 20, rtt_us: 55 });
    let volume = describe(&probed).tcp16.unwrap();
    assert_eq!((volume.status.as_str(), volume.detail.as_str()), ("ok", "ok"));
}

#[test]
fn the_newest_responses_are_remembered() {
    let mut history: History<u32> = History::new();
    assert!(history.entries().is_empty());
    for i in 0..150 {
        history.remember(i);
        assert_eq!(history.entries()[0], i);
    }
    assert_eq!(history.entries().len(), HISTORY_LIMIT);
    assert_eq!(history.entries()[99], 50);
}

#[test]
fn a_batch_is_remembered_like_single_responses() {
    let mut one: History<u32> = History::new();
    let mut all: History<u32> = History::new();
    one.remember(1000);
    all.remember(1000);
    for i in 0..3 {
        one.remember(i);
    }
    all.remember_all(vec![0, 1, 2]);
    assert_eq!(all.entries(), &vec![2, 1, 0, 1000]);
    assert_eq!(one.entries(), all.entries());
    all.remember_all((0..200).collect());
    assert_eq!(all.entries().len(), 100);
    assert_eq!((all.entries()[0], all.entries()[99]), (199, 100));
    all.remember_all(Vec::new());
    assert_eq!(all.entries()[0], 199);
}

#[test]
fn trials_get_an_identifier_of_their_own() {
    let a = test_strategy("example.com", 7);
    let b = test_strategy("example.com", 7);
    assert_ne!(a.test_id, b.test_id);
    assert_eq!(a.test_id.len(), 36);
    let chars: Vec<char> = a.test_id.chars().collect();
    for i in [8, 13, 18, 23] {
        assert_eq!(chars[i], '-');
    }
    assert_eq!(chars[14], '4');
    let t = test_strategy_as("id".to_string(), "example.com", 7);
    assert_eq!((t.test_id.as_str(), t.domain.as_str(), t.strategy_id), ("id", "example.com", 7));
    assert!(t.success && t.handshake_completed && t.error.is_none());
    assert_eq!(t.latency_ms, 42);
    assert_eq!((a.domain.as_str(), a.latency_ms), ("example.com", 42));
}

#[test]
fn presets_are_listed() {
    let presets = vec![
        Preset {
            id: "social".into(),
            name: "Social networks".into(),
            category: "SocialMedia".into(),
            domains: vec!["a.com".into(), "b.com".into()],
        },
        Preset {
            id: "none".into(),
            name: "Empty".into(),
            category: "ЁЖ".into(),
            domains: vec![],
        },
    ];
    let list = get_presets(&presets);
    assert_eq!(list.len(), 2);
    assert_eq!(list[0].id, "social");
    assert_eq!(list[0].name, "Social networks");
    assert_eq!(list[0].category, "socialmedia");
    assert_eq!(list[0].domain_count, 2);
    assert_eq!((list[1].category.as_str(), list[1].domain_count), ("ёж", 0));

    let ids = |ids: &[&str]| ids.iter().map(|s| s.to_string()).collect::<Vec<String>>();
    assert_eq!(get_domains_by_ids(&presets, &ids(&["none", "social"])), vec!["a.com", "b.com"]);
    assert!(get_domains_by_ids(&presets, &ids(&["none"])).is_empty());
    assert!(get_domains_by_ids(&presets, &ids(&[])).is_empty());
}
