//! Parameters for address screening configuration.

use vstd::prelude::*;

verus! {

/// Parameters for configuring the ECSD address screening sidecar.
///
/// When enabled, transactions are screened against a blocklist via the ECSD
/// (Ethereum Compliance Screening Daemon) gRPC service before pool admission.
#[derive(Clone, Debug, PartialEq, Eq)]
pub struct ScreeningArgs {
    /// Enable address screening via ECSD sidecar.
    pub enable: bool,
    /// gRPC endpoint of the ECSD sidecar.
    pub endpoint: String,
    /// Request timeout in milliseconds.
    pub timeout_ms: u64,
    /// Behavior when ECSD is unavailable: "open" or "closed".
    ///
    /// - "open": transactions pass through when ECSD is unreachable (permissive)
    /// - "closed": transactions are rejected when ECSD is unreachable (restrictive)
    pub fail_mode: String,
}

impl Default for ScreeningArgs {
    /// Screening disabled, sidecar at `http://127.0.0.1:9090`, a 100 ms
    /// timeout and the fail-open mode.
    fn default() -> (args: Self)
        ensures
            !args.enable,
            args.endpoint@ == "http://127.0.0.1:9090"@,
            args.timeout_ms == 100,
            args.fail_mode@ == "open"@,
    {
        ScreeningArgs {
            enable: false,
            endpoint: "http://127.0.0.1:9090".to_owned(),
            timeout_ms: 100,
            fail_mode: "open".to_owned(),
        }
    }
}

} // verus!
