use synth_desktop::cispo::{hosted_cispo_availability, hosted_cispo_prerequisites};
use synth_desktop::cloud::{cloud_base_url, runs_list_url, runs_of_payload, urlencoding_lite};
use synth_desktop::container_hydration::{advertised_task_family, check_registration_url, metadata_refresh_due, registration_refusal};
use synth_desktop::json::{JsonNumber, JsonValue};
use synth_desktop::laguna::{adapter_status, check_installed_digest, download_total, downloading_detail, progress_event};
use synth_desktop::report_visibility::{is_visual_event, promotion_inputs, unpublish_input, visibility_plan, VisibilityPlan};
use synth_desktop::visual_stream::{check_poll_declared, page_event, page_summary, poll_failure_retryable, poll_limit};

fn text(s: &str) -> JsonValue {
    JsonValue::String(s.to_string())
}

fn number(n: u64) -> JsonValue {
    JsonValue::Number(JsonNumber::Unsigned(n))
}

fn object(entries: Vec<(&str, JsonValue)>) -> JsonValue {
    JsonValue::Object(entries.into_iter().map(|(k, v)| (k.to_string(), v)).collect())
}

#[test]
fn only_declared_stream_urls_are_polled() {
    let declared = vec!["http://127.0.0.1:9000/stream".to_string()];
    assert!(check_poll_declared(&declared, "http://127.0.0.1:9000/stream").is_ok());
    assert_eq!(
        check_poll_declared(&declared, "http://evil/stream").err().unwrap(),
        "visual stream poll URL is not declared on this visual; the visual declares 1 live stream(s)"
    );
}

#[test]
fn a_polled_page_is_summarised_by_counts() {
    let page = object(vec![
        ("events", JsonValue::Array(vec![number(1), number(2)])),
        ("cursor", object(vec![("closed", JsonValue::Bool(true))])),
    ]);
    assert_eq!(page_summary(&page), (Some(2), true));
    let nested = object(vec![("page", object(vec![("events", JsonValue::Array(vec![number(1)]))]))]);
    assert_eq!(page_summary(&nested), (Some(1), false));
    let odd = object(vec![("events", text("none")), ("page", object(vec![("events", JsonValue::Array(vec![]))]))]);
    assert_eq!(page_summary(&odd), (None, false));
    assert_eq!(page_event(true), "stream.poll.closed");
    assert_eq!(page_event(false), "stream.poll.page");
    assert!(poll_failure_retryable(false, false, Some(503)));
    assert!(!poll_failure_retryable(false, false, Some(404)));
    assert!(poll_failure_retryable(false, false, None));
    assert!(poll_failure_retryable(true, false, Some(404)));
}

#[test]
fn report_visibility_needs_an_account_and_a_known_target() {
    assert_eq!(visibility_plan("public", false).err().unwrap(), "Approving Report visibility requires a signed-in Synth account");
    assert_eq!(visibility_plan("public", true), Ok(VisibilityPlan::Publish));
    assert_eq!(visibility_plan("private", true), Ok(VisibilityPlan::SharePrivately));
    assert_eq!(visibility_plan("unpublished", true), Ok(VisibilityPlan::Unpublish));
    assert_eq!(visibility_plan("friends", true).err().unwrap(), "unsupported visibility target");
    assert_eq!(promotion_inputs(None, Some("s".into())).err().unwrap(), "committed upload has no publication");
    assert_eq!(promotion_inputs(Some("p".into()), None).err().unwrap(), "public request has no slug");
    assert_eq!(promotion_inputs(Some("p".into()), Some("s".into())), Ok(("p".to_string(), "s".to_string())));
    assert_eq!(unpublish_input(None).err().unwrap(), "sealed Report has not been shared");
    assert_eq!(unpublish_input(Some(None)).err().unwrap(), "shared Report has no publication");
    assert_eq!(unpublish_input(Some(Some("p".into()))), Ok("p".to_string()));
    assert!(is_visual_event(&object(vec![("schemaVersion", text("v1"))])));
    assert!(!is_visual_event(&object(vec![])));
}

#[test]
fn laguna_downloads_are_checked_against_their_manifest() {
    let status = adapter_status("laguna-s", "Laguna S", "sha256:a", false, 100, "rev-1", "rev-2");
    assert!(!status.base_matches);
    assert!(adapter_status("laguna-s", "Laguna S", "sha256:a", true, 100, "rev-1", "rev-1").base_matches);
    assert_eq!(download_total(&vec![10, 20, 30]), Some(60));
    assert_eq!(download_total(&vec![u64::MAX, 1]), None);
    assert_eq!(downloading_detail("adapter.safetensors"), "Downloading adapter.safetensors…");
    assert_eq!(
        check_installed_digest("sha256:a", "sha256:b").err().unwrap(),
        "installed adapter is sha256:a but the manifest published sha256:b"
    );
    assert!(check_installed_digest("sha256:a", "sha256:a").is_ok());
    assert_eq!(
        progress_event("verifying", "Verifying the adapter…", "laguna-s", 60, 60),
        object(vec![
            ("phase", text("verifying")),
            ("detail", text("Verifying the adapter…")),
            ("modelId", text("laguna-s")),
            ("downloadedBytes", number(60)),
            ("totalBytes", number(60)),
        ])
    );
}

#[test]
fn cloud_queries_are_encoded_and_joined() {
    assert_eq!(urlencoding_lite("gepa v2/é"), "gepa%20v2%2F%E9");
    assert_eq!(urlencoding_lite("a-b_c.d~e,f"), "a-b_c.d~e,f");
    assert_eq!(cloud_base_url("https://api.example.com//"), "https://api.example.com");
    assert_eq!(runs_list_url("https://h", None, None, None), "https://h/api/v1/optimizers/runs");
    assert_eq!(
        runs_list_url("https://h", Some("gepa"), Some("running now"), Some(5)),
        "https://h/api/v1/optimizers/runs?algorithm=gepa&status=running%20now&limit=5"
    );
    assert_eq!(runs_list_url("https://h", None, None, Some(-1)), "https://h/api/v1/optimizers/runs?limit=-1");
}

#[test]
fn a_run_listing_reply_is_read_in_any_of_its_shapes() {
    let run = object(vec![("id", text("r1"))]);
    assert_eq!(runs_of_payload(&JsonValue::Array(vec![run.clone()])), vec![run.clone()]);
    assert_eq!(runs_of_payload(&object(vec![("runs", JsonValue::Array(vec![run.clone()]))])), vec![run.clone()]);
    assert_eq!(runs_of_payload(&run), vec![run.clone()]);
}

#[test]
fn hosted_cispo_stays_fail_closed_until_configured() {
    assert_eq!(hosted_cispo_prerequisites().len(), 7);
    assert_eq!(hosted_cispo_prerequisites()[1], "SYNTH_OPTIMIZERS_CISPO_SERVICE_TOKEN");
    let (available, reason) = hosted_cispo_availability(false, true, true, Some("t".into()), None);
    assert!(!available);
    assert!(reason.unwrap().starts_with("Hosted CISPO stays fail-closed"));
    let (_, reason) = hosted_cispo_availability(true, false, true, Some("  ".into()), None);
    assert_eq!(reason.unwrap(), "SYNTH_OPTIMIZERS_CISPO_SERVICE_TOKEN is required to reach the public CISPO service.");
    let (_, reason) = hosted_cispo_availability(true, false, true, Some("t".into()), Some(" ".into()));
    assert_eq!(reason.unwrap(), "SYNTH_OPTIMIZERS_CISPO_SERVICE_URL is empty; default is http://127.0.0.1:8880.");
    let (_, reason) = hosted_cispo_availability(true, true, false, Some("t".into()), None);
    assert!(reason.unwrap().starts_with("Hosted Banking77 CISPO requires"));
    let (_, reason) = hosted_cispo_availability(true, false, true, Some("t".into()), None);
    assert_eq!(reason.unwrap(), "Public CISPO service client is not configured.");
    assert_eq!(hosted_cispo_availability(true, true, true, None, None), (true, None));
}

#[test]
fn container_metadata_refreshes_when_stale_or_unreadable() {
    let now = (1_767_225_600, 0);
    assert!(metadata_refresh_due(true, &object(vec![]), now));
    assert!(metadata_refresh_due(false, &object(vec![]), now));
    assert!(metadata_refresh_due(false, &object(vec![("hydratedAt", text("yesterday"))]), now));
    assert!(!metadata_refresh_due(false, &object(vec![("hydratedAt", text("2025-12-31T23:59:00Z"))]), now));
    assert!(metadata_refresh_due(false, &object(vec![("hydratedAt", text("2025-12-31T23:55:00Z"))]), now));
}

#[test]
fn a_task_family_is_only_what_the_service_advertises() {
    let health = object(vec![("payload", object(vec![("env_family", text("craftax"))]))]);
    assert_eq!(advertised_task_family(Some("healthbench".into()), Some(&object(vec![])), &health), Some("healthbench".to_string()));
    let info = object(vec![("task_family", text("banking77")), ("runtime_family", text("other"))]);
    assert_eq!(advertised_task_family(None, Some(&info), &health), Some("banking77".to_string()));
    let runtime = object(vec![("runtime", object(vec![("runtime_id", text("GEPA-HealthBench-v2"))]))]);
    assert_eq!(advertised_task_family(None, Some(&runtime), &health), Some("healthbench".to_string()));
    assert_eq!(advertised_task_family(None, None, &health), Some("craftax".to_string()));
    assert_eq!(advertised_task_family(None, Some(&object(vec![("env_family", number(1))])), &health), Some("craftax".to_string()));
    assert_eq!(advertised_task_family(None, None, &object(vec![])), None);
}

#[test]
fn computer_use_lists_allowed_apps_only_for_a_session() {
    let snapshot = synth_desktop::computer_use::computer_use_snapshot("ready", Some(vec!["com.apple.Safari".to_string()]));
    assert_eq!(snapshot.status, "ready");
    assert_eq!(snapshot.allowed_apps, vec!["com.apple.Safari".to_string()]);
    let snapshot = synth_desktop::computer_use::computer_use_snapshot("ready", None);
    assert!(snapshot.allowed_apps.is_empty());
}

#[test]
fn a_container_registers_only_over_http_and_with_live_frames() {
    assert!(check_registration_url("http://127.0.0.1:8000").is_ok());
    assert!(check_registration_url("https://c.example").is_ok());
    assert_eq!(
        check_registration_url("ftp://c.example").unwrap_err(),
        "container baseUrl must start with http:// or https://"
    );
    let refused = object(vec![("liveEvalError", text("live_frames stream is unavailable"))]);
    assert_eq!(registration_refusal(&refused).as_deref(), Some("live_frames stream is unavailable"));
    let other = object(vec![("liveEvalError", text("timeout"))]);
    assert_eq!(registration_refusal(&other), None);
    assert_eq!(registration_refusal(&object(vec![])), None);
}

#[test]
fn a_poll_asks_for_between_one_and_five_hundred_events() {
    assert_eq!(poll_limit(0), 1);
    assert_eq!(poll_limit(1), 1);
    assert_eq!(poll_limit(120), 120);
    assert_eq!(poll_limit(500), 500);
    assert_eq!(poll_limit(501), 500);
    assert_eq!(poll_limit(u16::MAX), 500);
}
