//! The scan configuration, as the command line hands it over: which
//! namespaces to scan, the two concurrency and timeout bounds, and the
//! reporting switches.

use vstd::prelude::*;

verus! {

/// Everything one fleet scan is parameterized by.
#[derive(Debug, Clone)]
pub struct Config {
    /// The namespaces to scan.
    pub namespaces: Vec<String>,
    /// The largest number of probe tasks running at once within one
    /// namespace.
    pub max_concurrent: usize,
    /// The per-probe timeout, in whole seconds.
    pub timeout: u64,
    /// Whether DaemonSet-owned pods are left out of the scan.
    pub skip_daemonset: bool,
    /// Whether to log each step.
    pub verbose: bool,
    /// Where to write the delimited export, if anywhere.
    pub output: Option<String>,
}

impl Config {
    /// Relies on core::time::Duration::from_secs: builds the per-probe wait
    /// bound from the configured whole seconds.
    #[verifier::external_body]
    pub fn timeout_duration(&self) -> std::time::Duration {
        std::time::Duration::from_secs(self.timeout)
    }
}

} // verus!
