//! The outcome model of a single probe: what a completed probe command
//! captured, why a probe can fail, and how either is turned into the
//! version recorded for the pod.

use crate::version::{parse_java_version, spec_parse_java_version};
use vstd::prelude::*;

verus! {

/// The sentinel version recorded when a probe yields nothing identifiable.
pub open spec fn spec_sentinel() -> Seq<char> {
    "Unknown"@
}

/// Why a probe failed: the command could not be started, did not finish
/// within its bound, or ran and reported failure (carrying the captured
/// diagnostic text). A failed probe is never retried.
#[derive(Debug)]
pub enum ProbeError {
    LaunchFailure,
    Timeout,
    NonZeroExit(String),
}

/// The captured output streams of a probe command that ran to completion
/// and signalled success.
#[derive(Debug)]
pub struct CommandOutput {
    pub stdout: String,
    pub stderr: String,
}

/// The outcome of probing one pod: its name and the version recorded for
/// it, which is the sentinel when the probe revealed nothing.
#[derive(Debug)]
pub struct ProbeOutcome {
    pub pod_name: String,
    pub version: String,
}

/// An outcome counts as a match when its version is not the sentinel.
pub open spec fn spec_is_match(o: ProbeOutcome) -> bool {
    o.version@ != spec_sentinel()
}

/// The version a probe result stands for: the extractor applied to the
/// diagnostic stream of a completed command, the sentinel for any failure.
pub open spec fn spec_version_from_probe(r: Result<CommandOutput, ProbeError>) -> Seq<char> {
    match r {
        Ok(out) => spec_parse_java_version(out.stderr@),
        Err(_) => spec_sentinel(),
    }
}

/// Turns one probe result into the version recorded for the pod. A
/// completed command's diagnostic stream goes through the version
/// extractor (the probe tool prints its version report there); every
/// failure — timeout, launch failure, non-zero exit — uniformly yields the
/// sentinel and never aborts anything beyond this one pod.
pub fn version_from_probe(r: &Result<CommandOutput, ProbeError>) -> (v: String)
    ensures
        v@ == spec_version_from_probe(*r),
{
    match r {
        Result::Ok(out) => parse_java_version(out.stderr.as_str()),
        Result::Err(_) => String::from_str("Unknown"),
    }
}

/// Classifies a probe command that ran to completion: exactly when it
/// signalled success, its captured streams come back as a success; exactly
/// when it signalled failure, the result is a non-zero-exit error carrying
/// the captured diagnostic text.
pub fn classify_completed(success: bool, stdout: String, stderr: String) -> (r: Result<
    CommandOutput,
    ProbeError,
>)
    ensures
        success ==> (r matches Ok(out) && out.stdout@ == stdout@ && out.stderr@ == stderr@),
        !success ==> (r matches Err(e) && (e matches ProbeError::NonZeroExit(t) && t@
            == stderr@)),
{
    if success {
        Ok(CommandOutput { stdout, stderr })
    } else {
        Err(ProbeError::NonZeroExit(stderr))
    }
}

/// Every failed probe — timed out, unlaunchable, or exited nonzero — is
/// recorded with the sentinel version.
pub proof fn lemma_failure_yields_sentinel(r: Result<CommandOutput, ProbeError>)
    requires
        r is Err,
    ensures
        spec_version_from_probe(r) == spec_sentinel(),
{
}

} // verus!
