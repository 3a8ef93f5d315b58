//! The findings of the probe phases.

use vstd::prelude::*;

verus! {

/// How sure a finding is: `parts` out of `whole`.
#[derive(Clone, Copy, Debug, PartialEq, Eq, Structural)]
pub struct Confidence {
    pub parts: u32,
    pub whole: u32,
}

impl Confidence {
    /// A confidence in hundredths.
    pub open spec fn percent_of(hundredths: int) -> Confidence {
        Confidence { parts: hundredths as u32, whole: 100 }
    }

    /// A confidence in hundredths.
    pub fn percent(hundredths: u32) -> (c: Confidence)
        ensures
            c == Confidence::percent_of(hundredths as int),
    {
        Confidence { parts: hundredths, whole: 100 }
    }
}

/// The overall verdict on a domain.
#[derive(Clone, Copy, Debug, PartialEq, Eq, Structural)]
pub enum ProbeVerdict {
    /// Access is being blocked.
    Blocked,
    /// The evidence does not settle it.
    Ambiguous,
}

impl ProbeVerdict {
    /// The name of the verdict, in lower case.
    pub open spec fn lower_label(self) -> Seq<char> {
        match self {
            ProbeVerdict::Blocked => "blocked"@,
            ProbeVerdict::Ambiguous => "ambiguous"@,
        }
    }

    /// The name of the verdict, in lower case.
    pub fn lower_name(self) -> (name: &'static str)
        ensures
            name@ == self.lower_label(),
    {
        match self {
            ProbeVerdict::Blocked => "blocked",
            ProbeVerdict::Ambiguous => "ambiguous",
        }
    }
}

/// What the DNS phase found.
#[derive(Clone, Copy, Debug, PartialEq, Eq, Structural)]
pub enum DnsFailureCode {
    /// The resolvers agree.
    DnsOk,
    /// The plain resolver gives forged addresses.
    Poisoned,
    /// The plain resolver denies that the name exists.
    NxdomainSpoof,
    /// The plain resolver answers without addresses.
    EmptySpoof,
    /// Plain DNS is intercepted.
    Intercepted,
    /// DNS over HTTPS is blocked.
    DohBlocked,
    /// No resolver knows the name.
    Unresolvable,
}

impl DnsFailureCode {
    /// The name of the finding.
    pub open spec fn label(self) -> Seq<char> {
        match self {
            DnsFailureCode::DnsOk => "Ok"@,
            DnsFailureCode::Poisoned => "Poisoned"@,
            DnsFailureCode::NxdomainSpoof => "NxdomainSpoof"@,
            DnsFailureCode::EmptySpoof => "EmptySpoof"@,
            DnsFailureCode::Intercepted => "Intercepted"@,
            DnsFailureCode::DohBlocked => "DohBlocked"@,
            DnsFailureCode::Unresolvable => "Unresolvable"@,
        }
    }

    /// The name of the finding.
    pub fn name(self) -> (name: &'static str)
        ensures
            name@ == self.label(),
    {
        match self {
            DnsFailureCode::DnsOk => "Ok",
            DnsFailureCode::Poisoned => "Poisoned",
            DnsFailureCode::NxdomainSpoof => "NxdomainSpoof",
            DnsFailureCode::EmptySpoof => "EmptySpoof",
            DnsFailureCode::Intercepted => "Intercepted",
            DnsFailureCode::DohBlocked => "DohBlocked",
            DnsFailureCode::Unresolvable => "Unresolvable",
        }
    }
}

/// What the TCP phase found.
#[derive(Clone, Copy, Debug, PartialEq, Eq, Structural)]
pub enum TcpFailureCode {
    /// The connection was made.
    ConnectOk,
    /// The connection was reset.
    Reset,
    /// Nothing answered.
    Timeout,
    /// The connection was refused.
    Refused,
    /// There is no route.
    Unreachable,
    /// The connection dies after some volume of data.
    DataVolumeCut,
}

impl TcpFailureCode {
    /// The name of the finding.
    pub open spec fn label(self) -> Seq<char> {
        match self {
            TcpFailureCode::ConnectOk => "ConnectOk"@,
            TcpFailureCode::Reset => "Reset"@,
            TcpFailureCode::Timeout => "Timeout"@,
            TcpFailureCode::Refused => "Refused"@,
            TcpFailureCode::Unreachable => "Unreachable"@,
            TcpFailureCode::DataVolumeCut => "DataVolumeCut"@,
        }
    }

    /// The name of the finding.
    pub fn name(self) -> (name: &'static str)
        ensures
            name@ == self.label(),
    {
        match self {
            TcpFailureCode::ConnectOk => "ConnectOk",
            TcpFailureCode::Reset => "Reset",
            TcpFailureCode::Timeout => "Timeout",
            TcpFailureCode::Refused => "Refused",
            TcpFailureCode::Unreachable => "Unreachable",
            TcpFailureCode::DataVolumeCut => "DataVolumeCut",
        }
    }
}

/// What the TLS phase found.
#[derive(Clone, Copy, Debug, PartialEq, Eq, Structural)]
pub enum TlsFailureCode {
    /// The handshake completed.
    HandshakeOk,
    /// Only TLS 1.2 completes.
    Version12Only,
    /// Garbage was injected into the handshake.
    Garbage,
    /// The handshake was reset.
    Reset,
    /// An alert answered the server name.
    AlertSniblock,
    /// The certificate was substituted.
    Mitm,
    /// A self-signed certificate was substituted.
    MitmSelfSigned,
    /// An expired certificate was substituted.
    MitmExpired,
}

impl TlsFailureCode {
    /// The name of the finding.
    pub open spec fn label(self) -> Seq<char> {
        match self {
            TlsFailureCode::HandshakeOk => "HandshakeOk"@,
            TlsFailureCode::Version12Only => "Version12Only"@,
            TlsFailureCode::Garbage => "Garbage"@,
            TlsFailureCode::Reset => "Reset"@,
            TlsFailureCode::AlertSniblock => "AlertSniblock"@,
            TlsFailureCode::Mitm => "Mitm"@,
            TlsFailureCode::MitmSelfSigned => "MitmSelfSigned"@,
            TlsFailureCode::MitmExpired => "MitmExpired"@,
        }
    }

    /// The name of the finding.
    pub fn name(self) -> (name: &'static str)
        ensures
            name@ == self.label(),
    {
        match self {
            TlsFailureCode::HandshakeOk => "HandshakeOk",
            TlsFailureCode::Version12Only => "Version12Only",
            TlsFailureCode::Garbage => "Garbage",
            TlsFailureCode::Reset => "Reset",
            TlsFailureCode::AlertSniblock => "AlertSniblock",
            TlsFailureCode::Mitm => "Mitm",
            TlsFailureCode::MitmSelfSigned => "MitmSelfSigned",
            TlsFailureCode::MitmExpired => "MitmExpired",
        }
    }

    /// No TLS session came about.
    pub open spec fn tls_failed(self) -> bool {
        self != TlsFailureCode::HandshakeOk && self != TlsFailureCode::Version12Only
    }

    /// No TLS session came about, neither with version 1.3 nor with 1.2.
    pub fn is_tls_fail(self) -> (failed: bool)
        ensures
            failed == self.tls_failed(),
    {
        self != TlsFailureCode::HandshakeOk && self != TlsFailureCode::Version12Only
    }
}

/// What the HTTP phase found.
#[derive(Clone, Copy, Debug, PartialEq, Eq, Structural)]
pub enum HttpFailureCode {
    /// A page was delivered.
    HttpOk,
    /// The response was cut off.
    Cutoff,
    /// The server reports a legal block.
    Http451,
    /// A redirect inside the domain.
    RedirectSame,
    /// A redirect to a foreign page.
    RedirectForeign,
    /// A block page was delivered.
    StubPage,
    /// Nothing answered in time.
    Timeout,
}

impl HttpFailureCode {
    /// The name of the finding.
    pub open spec fn label(self) -> Seq<char> {
        match self {
            HttpFailureCode::HttpOk => "Ok"@,
            HttpFailureCode::Cutoff => "Cutoff"@,
            HttpFailureCode::Http451 => "Http451"@,
            HttpFailureCode::RedirectSame => "RedirectSame"@,
            HttpFailureCode::RedirectForeign => "RedirectForeign"@,
            HttpFailureCode::StubPage => "StubPage"@,
            HttpFailureCode::Timeout => "Timeout"@,
        }
    }

    /// The name of the finding.
    pub fn name(self) -> (name: &'static str)
        ensures
            name@ == self.label(),
    {
        match self {
            HttpFailureCode::HttpOk => "Ok",
            HttpFailureCode::Cutoff => "Cutoff",
            HttpFailureCode::Http451 => "Http451",
            HttpFailureCode::RedirectSame => "RedirectSame",
            HttpFailureCode::RedirectForeign => "RedirectForeign",
            HttpFailureCode::StubPage => "StubPage",
            HttpFailureCode::Timeout => "Timeout",
        }
    }

    /// The response is not what the site would have sent.
    pub open spec fn http_failed(self) -> bool {
        self != HttpFailureCode::HttpOk && self != HttpFailureCode::RedirectSame
    }

    /// The response is neither a page nor a redirect inside the domain.
    pub fn is_error(self) -> (failed: bool)
        ensures
            failed == self.http_failed(),
    {
        self != HttpFailureCode::HttpOk && self != HttpFailureCode::RedirectSame
    }
}

/// How far a connection got.
#[derive(Clone, Copy, Debug, PartialEq, Eq, Structural)]
pub enum ConnectionStage {
    /// The TLS session was established.
    TlsConnected,
}

/// A TLS phase failed unless it completed a handshake, with the newest version
/// or the one before it. A response is an error unless it is a page or a
/// redirect inside the domain.
pub proof fn failures_are_all_but_successes(tls: TlsFailureCode, http: HttpFailureCode)
    ensures
        tls.tls_failed() <==> (tls is Garbage || tls is Reset || tls is AlertSniblock || tls is Mitm
            || tls is MitmSelfSigned || tls is MitmExpired),
        http.http_failed() <==> (http is Cutoff || http is Http451 || http is RedirectForeign
            || http is StubPage || http is Timeout),
{
}

/// Each verdict goes by its name.
pub proof fn verdicts_go_by_their_name(verdict: ProbeVerdict)
    ensures
        verdict == ProbeVerdict::Blocked ==> verdict.lower_label() == "blocked"@,
        verdict == ProbeVerdict::Ambiguous ==> verdict.lower_label() == "ambiguous"@,
{
}

/// Each finding of the DNS phase goes by its name.
pub proof fn dns_findings_go_by_their_name(found: DnsFailureCode)
    ensures
        found == DnsFailureCode::DnsOk ==> found.label() == "Ok"@,
        found == DnsFailureCode::Poisoned ==> found.label() == "Poisoned"@,
        found == DnsFailureCode::NxdomainSpoof ==> found.label() == "NxdomainSpoof"@,
        found == DnsFailureCode::EmptySpoof ==> found.label() == "EmptySpoof"@,
        found == DnsFailureCode::Intercepted ==> found.label() == "Intercepted"@,
        found == DnsFailureCode::DohBlocked ==> found.label() == "DohBlocked"@,
        found == DnsFailureCode::Unresolvable ==> found.label() == "Unresolvable"@,
{
}

/// Each finding of the TCP phase goes by its name.
pub proof fn tcp_findings_go_by_their_name(found: TcpFailureCode)
    ensures
        found == TcpFailureCode::ConnectOk ==> found.label() == "ConnectOk"@,
        found == TcpFailureCode::Reset ==> found.label() == "Reset"@,
        found == TcpFailureCode::Timeout ==> found.label() == "Timeout"@,
        found == TcpFailureCode::Refused ==> found.label() == "Refused"@,
        found == TcpFailureCode::Unreachable ==> found.label() == "Unreachable"@,
        found == TcpFailureCode::DataVolumeCut ==> found.label() == "DataVolumeCut"@,
{
}

/// Each finding of the TLS phase goes by its name.
pub proof fn tls_findings_go_by_their_name(found: TlsFailureCode)
    ensures
        found == TlsFailureCode::HandshakeOk ==> found.label() == "HandshakeOk"@,
        found == TlsFailureCode::Version12Only ==> found.label() == "Version12Only"@,
        found == TlsFailureCode::Garbage ==> found.label() == "Garbage"@,
        found == TlsFailureCode::Reset ==> found.label() == "Reset"@,
        found == TlsFailureCode::AlertSniblock ==> found.label() == "AlertSniblock"@,
        found == TlsFailureCode::Mitm ==> found.label() == "Mitm"@,
        found == TlsFailureCode::MitmSelfSigned ==> found.label() == "MitmSelfSigned"@,
        found == TlsFailureCode::MitmExpired ==> found.label() == "MitmExpired"@,
{
}

/// Each finding of the HTTP phase goes by its name.
pub proof fn http_findings_go_by_their_name(found: HttpFailureCode)
    ensures
        found == HttpFailureCode::HttpOk ==> found.label() == "Ok"@,
        found == HttpFailureCode::Cutoff ==> found.label() == "Cutoff"@,
        found == HttpFailureCode::Http451 ==> found.label() == "Http451"@,
        found == HttpFailureCode::RedirectSame ==> found.label() == "RedirectSame"@,
        found == HttpFailureCode::RedirectForeign ==> found.label() == "RedirectForeign"@,
        found == HttpFailureCode::StubPage ==> found.label() == "StubPage"@,
        found == HttpFailureCode::Timeout ==> found.label() == "Timeout"@,
{
}

} // verus!
