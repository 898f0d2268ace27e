//! Named operational parameters.
//!
//! Timeouts, body caps, poll intervals and lifetimes live here so call sites do
//! not invent silent literals or lean on library defaults. Durations are in
//! milliseconds; byte caps in bytes.

use vstd::prelude::*;

verus! {

/// Default HTTP client timeout where a call site needs no tighter bound.
pub const HTTP_DEFAULT_TIMEOUT: u64 = 30_000;

/// Container `/health` and `/info` probe budget.
pub const CONTAINER_PROBE_TIMEOUT: u64 = 3_000;

/// Re-fetch task catalogs and metadata when older than this.
pub const CONTAINER_METADATA_REFRESH: u64 = 300_000;

/// Maximum age of a container health and capability observation before a
/// rollout preparation refuses and asks for a probe; wider than the metadata
/// refresh so a record merely due for refresh is not reported stale.
pub const CONTAINER_CAPABILITY_MAX_AGE: u64 = 900_000;

/// Short visuals IPC hop to a registered loopback container.
pub const VISUALS_IPC_HOP_TIMEOUT: u64 = 3_000;

/// Longer visuals IPC hop (rollout and dataset pulls).
pub const VISUALS_IPC_ROLL_TIMEOUT: u64 = 10_000;

/// End-to-end live policy rollout budget.
pub const CONTAINER_POLICY_ROLLOUT_TIMEOUT: u64 = 900_000;

/// Lifetime, in seconds, of the capability a long agent task is issued.
pub const DEEPSWE_HARBOR_CAPABILITY_TTL_SECONDS: u32 = 5_400;

/// The same lifetime as a duration.
pub const DEEPSWE_HARBOR_CAPABILITY_TTL: u64 = 5_400_000;

/// Account snapshot HTTP budget.
pub const ACCOUNT_CLOUD_TIMEOUT: u64 = 12_000;

/// Credential broker upstream: aligned with the approved capability lifetime.
pub const CREDENTIAL_UPSTREAM_TIMEOUT: u64 = DEEPSWE_HARBOR_CAPABILITY_TTL;

/// Minimum interval between provider request starts for one capability.
pub const CREDENTIAL_UPSTREAM_MIN_INTERVAL: u64 = 6_000;

/// Additional upstream attempts for a rate-limited response.
pub const CREDENTIAL_UPSTREAM_MAX_RATE_LIMIT_RETRIES: u32 = 3;

/// Floor for rate-limit retry backoff.
pub const CREDENTIAL_UPSTREAM_RATE_LIMIT_BACKOFF: u64 = 6_000;

/// Desktop update manifest fetch.
pub const UPDATE_MANIFEST_TIMEOUT: u64 = 5_000;

/// Device-code and OAuth token exchange.
pub const DEVICE_AUTH_TIMEOUT: u64 = 20_000;

/// Default agent HTTP client timeout.
pub const INTERN_HTTP_TIMEOUT: u64 = 30_000;

/// Model-performance telemetry request.
pub const MODEL_PERFORMANCE_TIMEOUT: u64 = 10_000;

/// Optimizers cloud list and control.
pub const OPTIMIZERS_CLOUD_TIMEOUT: u64 = 30_000;

/// Inference sidecar ready-wait ceiling after start.
pub const LAGUNA_READY_WAIT: u64 = 90_000;

/// Inference sidecar `/health` probe.
pub const LAGUNA_HEALTH_TIMEOUT: u64 = 1_200;

/// Optimizer sidecar `/health` probe.
pub const OPTIMIZER_SIDECAR_HEALTH_TIMEOUT: u64 = 1_200;

/// Optimizer sidecar ready-wait after start, long enough for a cold build.
pub const OPTIMIZER_SIDECAR_READY_WAIT: u64 = 60_000;

/// How long a spawned recipe child may run before its run is visible to the
/// polled optimizer service.
pub const OPTIMIZER_RUN_INDEX_WAIT: u64 = 90_000;

/// Inference sidecar generation request.
pub const LAGUNA_INFERENCE_TIMEOUT: u64 = 20_000;

/// Inference sidecar admin control plane.
pub const LAGUNA_ADMIN_TIMEOUT: u64 = 2_000;

/// Inference sidecar unload request.
pub const LAGUNA_STOP_TIMEOUT: u64 = 10_000;

/// Speech worker idle unload.
pub const WHISPER_IDLE_UNLOAD: u64 = 900_000;

/// Loopback JSON IPC header cap.
pub const LOOPBACK_MAX_HEADER_BYTES: usize = 32_768;

/// Visuals IPC body cap.
pub const VISUALS_IPC_MAX_BODY_BYTES: usize = 1_048_576;

/// Eval driver body cap, larger for trace bundles.
pub const EVAL_DRIVER_MAX_BODY_BYTES: usize = 2_097_152;

/// Provider-proxy request body cap; oversized bodies fail closed.
pub const SECRETS_PROXY_MAX_BODY_BYTES: usize = 2_097_152;

/// Default lifetime of a run capability issued by the local secrets broker.
pub const SECRETS_CAPABILITY_TTL: u64 = 1_800_000;

/// Desktop image preview size cap.
pub const IMAGE_PREVIEW_MAX_BYTES: u64 = 20_971_520;

/// Sealed trace artifact cap for a container import.
pub const MAX_IMPORTED_TRACE_BYTES: u64 = 268_435_456;

/// The credential proxy covers the whole lifetime of the capability it serves,
/// and its rate-limit guard is conservative and bounded: requests start at
/// least six seconds apart, a rate-limited call is retried a bounded, non-zero
/// number of times, and its backoff is never shorter than the start interval.
pub proof fn law_credential_proxy_limits()
    ensures
        CREDENTIAL_UPSTREAM_TIMEOUT == DEEPSWE_HARBOR_CAPABILITY_TTL,
        CREDENTIAL_UPSTREAM_TIMEOUT == DEEPSWE_HARBOR_CAPABILITY_TTL_SECONDS as u64 * 1000,
        CREDENTIAL_UPSTREAM_MIN_INTERVAL >= 6_000,
        0 < CREDENTIAL_UPSTREAM_MAX_RATE_LIMIT_RETRIES,
        CREDENTIAL_UPSTREAM_RATE_LIMIT_BACKOFF >= CREDENTIAL_UPSTREAM_MIN_INTERVAL,
        CONTAINER_CAPABILITY_MAX_AGE > CONTAINER_METADATA_REFRESH,
{
}

} // verus!
