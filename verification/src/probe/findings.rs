//! What each phase of the probe reports.

use super::classifier::{
    Confidence, ConnectionStage, DnsFailureCode, ProbeVerdict, TcpFailureCode, TlsFailureCode,
};
use vstd::prelude::*;

verus! {

/// What the DNS phase reports.
pub struct DnsProbeResult {
    pub verdict: DnsFailureCode,
    /// The addresses that both resolvers stand for.
    pub resolved_ips: Vec<[u8; 4]>,
    /// The answer of plain DNS.
    pub udp_ips: Vec<[u8; 4]>,
    /// The answer of DNS over HTTPS.
    pub doh_ips: Vec<[u8; 4]>,
    pub latency_us: u64,
    pub fake_ip_detected: bool,
}

/// What the TCP phase reports.
#[derive(Clone, Copy, Debug)]
pub struct TcpProbeResult {
    pub verdict: TcpFailureCode,
    pub rtt_us: u64,
    /// The address that answered.
    pub ip: Option<[u8; 4]>,
}

/// What the TLS phase reports.
#[derive(Clone, Copy, Debug)]
pub struct TlsProbeResult {
    pub verdict: TlsFailureCode,
    pub tls13_ok: bool,
    pub tls12_ok: bool,
    pub stage: ConnectionStage,
    pub latency_us: u64,
}

/// What the data volume phase reports.
#[derive(Clone, Copy, Debug)]
pub struct Tcp16ProbeResult {
    /// The connection dies after some volume of data.
    pub detected: bool,
    pub detected_at_kb: u32,
    pub rtt_us: u64,
}

/// Whether the server or something on the path is to blame.
#[derive(Clone, Copy, Debug)]
pub struct DiscriminationResult {
    pub verdict: ProbeVerdict,
    pub confidence: Confidence,
}

} // verus!
