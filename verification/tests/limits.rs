use std::time::Duration;
use synth_desktop::limits::{
    CONTAINER_CAPABILITY_MAX_AGE, CONTAINER_METADATA_REFRESH, CREDENTIAL_UPSTREAM_MAX_RATE_LIMIT_RETRIES,
    CREDENTIAL_UPSTREAM_MIN_INTERVAL, CREDENTIAL_UPSTREAM_RATE_LIMIT_BACKOFF, CREDENTIAL_UPSTREAM_TIMEOUT,
    DEEPSWE_HARBOR_CAPABILITY_TTL, DEEPSWE_HARBOR_CAPABILITY_TTL_SECONDS,
};

#[test]
fn credential_proxy_covers_deepswe_capability_lifetime() {
    assert_eq!(CREDENTIAL_UPSTREAM_TIMEOUT, DEEPSWE_HARBOR_CAPABILITY_TTL);
    assert_eq!(
        Duration::from_millis(CREDENTIAL_UPSTREAM_TIMEOUT).as_secs(),
        u64::from(DEEPSWE_HARBOR_CAPABILITY_TTL_SECONDS)
    );
    assert_eq!(Duration::from_millis(CREDENTIAL_UPSTREAM_TIMEOUT).as_secs(), 5_400);
}

#[test]
fn credential_proxy_rate_limit_guard_is_conservative_and_bounded() {
    assert!(Duration::from_millis(CREDENTIAL_UPSTREAM_MIN_INTERVAL) >= Duration::from_secs(6));
    assert!(CREDENTIAL_UPSTREAM_MAX_RATE_LIMIT_RETRIES > 0);
    assert!(CREDENTIAL_UPSTREAM_RATE_LIMIT_BACKOFF >= CREDENTIAL_UPSTREAM_MIN_INTERVAL);
}

#[test]
fn a_capability_observation_outlives_its_refresh() {
    assert!(CONTAINER_CAPABILITY_MAX_AGE > CONTAINER_METADATA_REFRESH);
}
