//! Settings of the probe.

use super::rkn_stub::default_rkn_stubs;
use crate::text::copy_texts;
use crate::{clock, probe, text};
use std::time::Duration;
use vstd::prelude::*;

verus! {

/// Settings of the probe.
pub struct ProbeConfig {
    /// How long an HTTP response may take.
    pub http_read_timeout: Duration,
    /// Texts that give a block page away.
    pub rkn_stub_substrings: Vec<String>,
    /// How many blocked probes make a domain be remembered for good.
    pub promote_threshold: u32,
    /// How many blocked subdomains make a whole family count as blocked.
    pub family_threshold: usize,
    /// How long the counts of a domain are kept.
    pub hot_ttl: Duration,
}

impl Default for ProbeConfig {
    fn default() -> (config: ProbeConfig)
        ensures
            clock::nanos_of(config.http_read_timeout) == 10_000_000_000,
            text::texts(config.rkn_stub_substrings@) == probe::rkn_stub::default_stub_texts(),
            config.promote_threshold == 50,
            config.family_threshold == 10,
            clock::nanos_of(config.hot_ttl) == 86_400_000_000_000,
    {
        ProbeConfig {
            http_read_timeout: Duration::from_secs(10),
            rkn_stub_substrings: default_rkn_stubs(),
            promote_threshold: 50,
            family_threshold: 10,
            hot_ttl: Duration::from_secs(86_400),
        }
    }
}

impl Clone for ProbeConfig {
    fn clone(&self) -> (config: ProbeConfig)
        ensures
            config.http_read_timeout == self.http_read_timeout,
            text::texts(config.rkn_stub_substrings@) == text::texts(self.rkn_stub_substrings@),
            config.promote_threshold == self.promote_threshold,
            config.family_threshold == self.family_threshold,
            config.hot_ttl == self.hot_ttl,
    {
        ProbeConfig {
            http_read_timeout: self.http_read_timeout,
            rkn_stub_substrings: copy_texts(&self.rkn_stub_substrings),
            promote_threshold: self.promote_threshold,
            family_threshold: self.family_threshold,
            hot_ttl: self.hot_ttl,
        }
    }
}

} // verus!
