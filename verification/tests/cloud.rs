//! Hosted optimizer runs: the create body, event replay, state batches and the
//! saved LoRA checkpoint search.

use synth_desktop::cloud::{
    checkpoint_search_url, create_run_body, events_of_payload, events_url, ndjson_lines,
    normalized_algorithm, state_batch_url, training_events_url, training_rows_of, CheckpointQuery,
};
use synth_desktop::json::{json_equal, JsonNumber, JsonValue};
use synth_desktop::model_performance::{
    model_performance_url, telemetry_api_key, telemetry_request_failure, telemetry_status_failure,
};

fn text(s: &str) -> JsonValue {
    JsonValue::String(s.to_string())
}

fn number(n: u64) -> JsonValue {
    JsonValue::Number(JsonNumber::Unsigned(n))
}

fn object(entries: Vec<(&str, JsonValue)>) -> JsonValue {
    JsonValue::Object(entries.into_iter().map(|(k, v)| (k.to_string(), v)).collect())
}

#[test]
fn go_ex_aliases_are_normalised() {
    assert_eq!(normalized_algorithm("gelo"), "go-ex");
    assert_eq!(normalized_algorithm("goex"), "go-ex");
    assert_eq!(normalized_algorithm("go_ex"), "go-ex");
    assert_eq!(normalized_algorithm("gepa"), "gepa");
}

#[test]
fn a_create_body_carries_toml_before_json() {
    let config = object(vec![("config_toml", text("[run]")), ("config_json", object(vec![]))]);
    let body = create_run_body("goex", &config, Some("proj"), Some("run-1")).unwrap();
    let expected = object(vec![
        ("algorithm", text("go-ex")),
        ("run_id", text("run-1")),
        ("idempotency_key", text("run-1")),
        ("project_id", text("proj")),
        ("config_toml", text("[run]")),
    ]);
    assert!(json_equal(&body, &expected));
}

#[test]
fn a_create_body_takes_the_json_member_or_the_object_itself() {
    let wrapped = object(vec![("config_json", object(vec![("a", number(1))]))]);
    let body = create_run_body("gepa", &wrapped, None, None).unwrap();
    assert!(json_equal(
        &body,
        &object(vec![("algorithm", text("gepa")), ("config_json", object(vec![("a", number(1))]))])
    ));
    let bare = object(vec![("b", number(2))]);
    let body = create_run_body("gepa", &bare, None, None).unwrap();
    assert!(json_equal(&body, &object(vec![("algorithm", text("gepa")), ("config_json", object(vec![("b", number(2))]))])));
    // TOML given as a number is not TOML; the configuration object stands.
    let odd = object(vec![("config_toml", number(3))]);
    let body = create_run_body("gepa", &odd, None, None).unwrap();
    assert!(json_equal(&body, &object(vec![("algorithm", text("gepa")), ("config_json", object(vec![("config_toml", number(3))]))])));
    assert_eq!(
        create_run_body("gepa", &text("x"), None, None).unwrap_err(),
        "cloud create requires config_toml or config_json"
    );
}

#[test]
fn replay_urls_bound_the_page() {
    assert_eq!(
        events_url("https://api", "r1", 9, None),
        "https://api/api/v1/optimizers/runs/r1/events?after_seq=9&limit=500&stream=false"
    );
    assert_eq!(
        events_url("https://api", "r1", 0, Some(99_999)),
        "https://api/api/v1/optimizers/runs/r1/events?after_seq=0&limit=5000&stream=false"
    );
    assert_eq!(
        training_events_url("https://api", "r1", 4, Some(-3)),
        "https://api/api/v1/optimizers/runs/r1/training-events?after_sequence=4&limit=1"
    );
}

#[test]
fn a_replay_reply_is_read_in_any_of_its_shapes() {
    let listed = events_of_payload(&JsonValue::Array(vec![number(1), number(2)]));
    assert_eq!(listed.len(), 2);
    let wrapped = events_of_payload(&object(vec![("events", JsonValue::Array(vec![number(1)]))]));
    assert_eq!(wrapped.len(), 1);
    let single = events_of_payload(&object(vec![("seq", number(5))]));
    assert_eq!(single.len(), 1);
    assert!(json_equal(&single[0], &object(vec![("seq", number(5))])));
    assert_eq!(training_rows_of(&object(vec![("events", JsonValue::Array(vec![]))])).unwrap().len(), 0);
    assert_eq!(training_rows_of(&JsonValue::Array(vec![number(1)])).unwrap().len(), 1);
    assert_eq!(
        training_rows_of(&object(vec![])).unwrap_err(),
        "cloud training event replay is not an event array"
    );
}

#[test]
fn ndjson_records_are_the_non_blank_lines() {
    assert_eq!(ndjson_lines("{\"a\":1}\n\n  {\"b\":2}  \r\n"), vec!["{\"a\":1}".to_string(), "{\"b\":2}".to_string()]);
    assert_eq!(ndjson_lines(""), Vec::<String>::new());
    assert_eq!(ndjson_lines("x"), vec!["x".to_string()]);
}

#[test]
fn state_slices_are_joined_then_encoded() {
    let url = state_batch_url("https://api", "r1", &vec!["summary".into(), "frontier pareto".into()]);
    assert_eq!(url, "https://api/api/v1/optimizers/runs/r1/state/batch?slices=summary,frontier%20pareto");
}

#[test]
fn a_checkpoint_search_drops_blank_filters_and_bounds_the_page() {
    let query = CheckpointQuery {
        search: Some("  qwen lora ".into()),
        provider: Some("   ".into()),
        status: Some("ready".into()),
        tags: Some((0..40).map(|n| if n == 1 { " ".to_string() } else { format!("t{n}") }).collect()),
        limit: Some(500),
        ..CheckpointQuery::default()
    };
    let url = checkpoint_search_url("https://api", &query);
    let (path, params) = url.split_once('?').unwrap();
    assert_eq!(path, "https://api/api/v1/optimizers/checkpoints");
    let params: Vec<&str> = params.split('&').collect();
    assert_eq!(params[0], "scope=all");
    assert_eq!(params[1], "q=qwen%20lora");
    assert_eq!(params[2], "status=ready");
    let tags: Vec<&&str> = params.iter().filter(|p| p.starts_with("tags=")).collect();
    assert_eq!(tags.len(), 31);
    assert_eq!(*tags[0], "tags=t0");
    assert_eq!(*tags[1], "tags=t2");
    assert_eq!(params[params.len() - 2], "limit=100");
    assert_eq!(params[params.len() - 1], "offset=0");
}

#[test]
fn model_telemetry_needs_an_account_and_a_bounded_window() {
    assert_eq!(telemetry_api_key(None).unwrap_err(), "Sign in to read Synth Cloud model telemetry");
    assert_eq!(telemetry_api_key(Some("k".into())).unwrap(), "k");
    assert_eq!(
        model_performance_url("https://api.synth/", None),
        "https://api.synth/api/v1/usage/model-performance?window_minutes=60"
    );
    assert_eq!(
        model_performance_url("https://api.synth", Some(0)),
        "https://api.synth/api/v1/usage/model-performance?window_minutes=1"
    );
    assert_eq!(
        model_performance_url("https://api.synth", Some(5000)),
        "https://api.synth/api/v1/usage/model-performance?window_minutes=1440"
    );
}

#[test]
fn model_telemetry_failures_are_explained() {
    assert_eq!(
        telemetry_request_failure("error sending request for url"),
        "Synth Cloud telemetry could not be reached. Check Account → Synth backend URL."
    );
    assert_eq!(
        telemetry_request_failure("operation timed out"),
        "Synth Cloud telemetry could not be reached. Check Account → Synth backend URL."
    );
    assert_eq!(telemetry_request_failure("bad certificate"), "Synth Cloud telemetry request failed: bad certificate");
    let body = "x".repeat(300);
    let message = telemetry_status_failure("502 Bad Gateway", &body);
    assert_eq!(message, format!("Synth Cloud telemetry returned 502 Bad Gateway: {}", "x".repeat(240)));
    assert_eq!(telemetry_status_failure("404 Not Found", "nope"), "Synth Cloud telemetry returned 404 Not Found: nope");
}
