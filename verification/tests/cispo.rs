//! CISPO recipes, the hosted Banking77 request, and the public CISPO service
//! boundary.

use synth_desktop::cispo::{
    banking77_cispo_parent, banking77_label_taxonomy, cispo_events_path, cispo_reply,
    cispo_service_settings, cispo_submit_body, hosted_cispo_availability, hosted_cispo_config_json,
    hosted_cispo_recipe, local_cispo_config, local_cispo_input_refs, local_cispo_output_dir,
    local_cispo_run_id, local_cispo_summary, local_mlx_recipe, recipe_catalog, warm_start_digests,
    LocalCispoBinding, OptimizerResourceRef,
};
use synth_desktop::admission::canonical::CanonicalJson;
use synth_desktop::json::{JsonNumber, JsonValue};

fn text(s: &str) -> JsonValue {
    JsonValue::String(s.to_string())
}

fn number(n: u64) -> JsonValue {
    JsonValue::Number(JsonNumber::Unsigned(n))
}

fn decimal(s: &str) -> JsonValue {
    JsonValue::Number(JsonNumber::Decimal(s.to_string()))
}

fn object(entries: Vec<(&str, JsonValue)>) -> JsonValue {
    JsonValue::Object(entries.into_iter().map(|(k, v)| (k.to_string(), v)).collect())
}

fn at<'a>(value: &'a JsonValue, path: &[&str]) -> &'a JsonValue {
    path.iter().fold(value, |v, key| v.get(key).unwrap_or_else(|| panic!("missing {key}")))
}

fn as_text(value: &JsonValue) -> &str {
    value.as_text().map(|s| s.as_str()).unwrap_or_else(|| panic!("not text: {value:?}"))
}

fn is_null(value: &JsonValue) -> bool {
    matches!(value, JsonValue::Null)
}

#[test]
fn hosted_recipes_are_unavailable_without_a_receipt_and_say_why() {
    let availability = hosted_cispo_availability(false, false, false, None, None);
    let recipes = recipe_catalog(
        "cispo.mlx.v1",
        "training.cispo.local",
        false,
        "banking77.cispo.tinker.v1",
        "cispo.tinker.v1",
        "training.cispo.hosted",
        availability,
    );
    assert_eq!(recipes.len(), 3);
    for recipe in &recipes[1..] {
        assert_eq!(as_text(at(recipe, &["availability"])), "unavailable");
        assert!(as_text(at(recipe, &["availabilityReason"])).contains("TINKER_CISPO_VALIDATION_RECEIPT"));
        let prerequisites = at(recipe, &["prerequisites"]).as_items().unwrap();
        assert!(prerequisites
            .iter()
            .any(|item| item.as_text().map(|s| s.as_str())
                == Some("synth-optimizers-cispo service --db … --bind 127.0.0.1:8880")));
        assert!(prerequisites
            .iter()
            .any(|item| item.as_text().map(|s| s.as_str()) == Some("SYNTH_OPTIMIZERS_CISPO_SERVICE_TOKEN")));
    }
    assert_eq!(as_text(at(&recipes[1], &["title"])), "Banking77 Tinker CISPO");
    assert_eq!(as_text(at(&recipes[2], &["title"])), "Hosted CISPO · Tinker");
}

#[test]
fn a_fully_configured_hosted_recipe_is_available() {
    let availability = hosted_cispo_availability(true, true, true, Some("tok".into()), None);
    let recipe = hosted_cispo_recipe("cispo.tinker.v1", "Hosted CISPO · Tinker", "training.cispo.hosted", availability);
    assert_eq!(as_text(at(&recipe, &["availability"])), "available");
    assert!(is_null(at(&recipe, &["availabilityReason"])));
    assert_eq!(at(&recipe, &["limits", "maxSteps"]).as_u64(), Some(50));
    assert_eq!(at(&recipe, &["limits", "estimatedRollouts"]).as_u64(), Some(9600));
    assert!(synth_desktop::json::json_equal(at(&recipe, &["limits", "costCeilingUsd"]), &decimal("35.0")));
}

#[test]
fn the_local_recipe_publishes_its_worst_case_rollout_bound() {
    let recipe = local_mlx_recipe("cispo.mlx.v1", "training.cispo.local", true);
    assert_eq!(at(&recipe, &["limits", "maxTotalEnvironmentRollouts"]).as_u64(), Some(128));
    assert_eq!(at(&recipe, &["limits", "maxSteps"]).as_u64(), Some(1));
    assert!(is_null(at(&recipe, &["availabilityReason"])));
    let unavailable = local_mlx_recipe("cispo.mlx.v1", "training.cispo.local", false);
    assert_eq!(as_text(at(&unavailable, &["availability"])), "unavailable");
    assert!(as_text(at(&unavailable, &["availabilityReason"])).starts_with("Local CISPO requires Apple Silicon"));
}

#[test]
fn the_parent_checkpoint_comes_from_the_sft_receipt() {
    let receipt = object(vec![("state_checkpoint", text("tinker://state/7")), ("updates", number(80))]);
    let parent = banking77_cispo_parent(&receipt).unwrap();
    assert_eq!(as_text(at(&parent, &["provider_reference"])), "tinker://state/7");
    assert_eq!(as_text(at(&parent, &["resume_token"])), "tinker://state/7");
    assert_eq!(at(&parent, &["step"]).as_u64(), Some(80));
    assert_eq!(as_text(at(&parent, &["kind"])), "training");
    let defaulted = banking77_cispo_parent(&object(vec![("state_checkpoint", text("s"))])).unwrap();
    assert_eq!(at(&defaulted, &["step"]).as_u64(), Some(100));
    assert_eq!(
        banking77_cispo_parent(&object(vec![("updates", number(3))])).unwrap_err(),
        "CISPO parent receipt omitted state_checkpoint"
    );
}

#[test]
fn the_hosted_request_is_cispo_request_v1() {
    let parent = banking77_cispo_parent(&object(vec![("state_checkpoint", text("s"))])).unwrap();
    let request = hosted_cispo_config_json("/data/train.csv", "/data/heldout.csv", None, parent);
    assert_eq!(as_text(at(&request, &["schema_version"])), "cispo.request.v1");
    assert_eq!(as_text(at(&request, &["algorithm_id"])), "cispo");
    assert_eq!(as_text(at(&request, &["implementation"])), "slime-reference");
    assert_eq!(as_text(at(&request, &["implementation_version"])), "cispo.slime.v1");
    assert_eq!(as_text(at(&request, &["provider"])), "tinker");
    assert_eq!(as_text(at(&request, &["model_id"])), "openai/gpt-oss-20b");
    assert_eq!(as_text(at(&request, &["mode"])), "canonical");
    assert_eq!(as_text(at(&request, &["renderer_version"])), "renderers.gpt-oss.low.v1");
    assert_eq!(as_text(at(&request, &["dataset", "recipe_id"])), "banking77.cispo.nanoclassify.v1");
    assert_eq!(as_text(at(&request, &["dataset", "split_strategy"])), "banking77.nanoclassify.v1");
    assert!(matches!(at(&request, &["dataset", "heldout_locked"]), JsonValue::Bool(true)));
    assert_eq!(at(&request, &["dataset", "label_taxonomy"]).as_items().unwrap().len(), 77);
    assert!(as_text(at(&request, &["dataset", "system_prompt"])).contains("card_arrival"));
    assert!(is_null(at(&request, &["dataset", "heldout_indices_json"])));
    assert_eq!(as_text(at(&request, &["dataset", "train_csv"])), "/data/train.csv");
    assert_eq!(at(&request, &["training", "updates"]).as_u64(), Some(50));
    assert_eq!(at(&request, &["training", "group_size"]).as_u64(), Some(64));
    assert_eq!(at(&request, &["training", "prompts_per_update"]).as_u64(), Some(3));
    assert!(synth_desktop::json::json_equal(at(&request, &["training", "eps_clip"]), &decimal("1.0")));
    assert!(synth_desktop::json::json_equal(at(&request, &["training", "eps_clip_high"]), &decimal("4.0")));
    assert_eq!(at(&request, &["training", "checkpoint_every_updates"]).as_u64(), Some(10));
    assert_eq!(as_text(at(&request, &["reward", "version"])), "banking77.exact_label.v1");
    assert_eq!(as_text(at(&request, &["parent_checkpoint", "provider_reference"])), "s");
}

#[test]
fn the_system_prompt_lists_every_label_once_in_order() {
    let labels = banking77_label_taxonomy();
    assert_eq!(labels.len(), 77);
    let request = hosted_cispo_config_json("a", "b", Some("c"), JsonValue::Null);
    let prompt = as_text(at(&request, &["dataset", "system_prompt"]));
    let (head, list) = prompt.split_once('\n').unwrap();
    assert!(head.ends_with("with no explanation or punctuation:"));
    let listed: Vec<&str> = list.split(", ").collect();
    assert_eq!(listed, labels.iter().map(String::as_str).collect::<Vec<_>>());
    assert_eq!(as_text(at(&request, &["dataset", "heldout_indices_json"])), "c");
}

#[test]
fn the_service_needs_a_token_and_a_url() {
    assert_eq!(
        cispo_service_settings(None, None).unwrap_err(),
        "CISPO service requires SYNTH_OPTIMIZERS_CISPO_SERVICE_TOKEN"
    );
    let defaulted = cispo_service_settings(Some(" tok ".into()), None).unwrap();
    assert_eq!(defaulted.base_url, "http://127.0.0.1:8880");
    assert_eq!(defaulted.token, "tok");
    let trimmed = cispo_service_settings(Some("tok".into()), Some(" https://cispo.example/// ".into())).unwrap();
    assert_eq!(trimmed.base_url, "https://cispo.example");
    assert_eq!(
        cispo_service_settings(Some("  ".into()), None).unwrap_err(),
        "public CISPO service URL/token must be non-empty"
    );
    assert_eq!(
        cispo_service_settings(Some("tok".into()), Some("".into())).unwrap_err(),
        "public CISPO service URL/token must be non-empty"
    );
}

#[test]
fn service_requests_are_addressed_and_bodies_read() {
    assert_eq!(cispo_events_path("run-1", 7, 0), "/v1/runs/run-1/optimizer-events?after_sequence=7&limit=1");
    assert_eq!(cispo_events_path("run-1", 0, 9_000), "/v1/runs/run-1/optimizer-events?after_sequence=0&limit=5000");
    assert_eq!(cispo_events_path("r", 3, 250), "/v1/runs/r/optimizer-events?after_sequence=3&limit=250");
    let body = cispo_submit_body("run-9", object(vec![("a", number(1))]));
    assert_eq!(as_text(at(&body, &["algorithm"])), "cispo");
    assert_eq!(as_text(at(&body, &["idempotency_key"])), "run-9");
    assert_eq!(as_text(at(&body, &["run_id"])), "run-9");
    assert_eq!(at(&body, &["config_json", "a"]).as_u64(), Some(1));
    assert_eq!(
        cispo_reply("GET public CISPO service", false, "404 Not Found", "nope").unwrap_err(),
        "GET public CISPO service failed (404 Not Found): nope"
    );
    assert_eq!(cispo_reply("GET", true, "200 OK", "  \n"), Ok(true));
    assert_eq!(cispo_reply("GET", true, "200 OK", "{}"), Ok(false));
}

fn binding() -> LocalCispoBinding {
    LocalCispoBinding {
        task_id: "support-intents".to_string(),
        base_url: "https://container.example/svc".to_string(),
        implementation: text("trl-cispo"),
        bearer_token: text("SECRET-REDACTED"),
        reward_url: text("https://container.example/svc/reward"),
        train_world_ref: text("world:train"),
        heldout_world_ref: text("world:heldout"),
    }
}

fn input(kind: &str, role: Option<&str>, digest: Option<&str>) -> OptimizerResourceRef {
    OptimizerResourceRef {
        kind: kind.to_string(),
        id: format!("{kind}-input"),
        digest: digest.map(str::to_string),
        role: role.map(str::to_string),
        title: None,
        metadata: JsonValue::Null,
    }
}

#[test]
fn production_source_does_not_name_mlx_or_tinker_urls() {
    let config = local_cispo_config(
        binding(),
        "/data/optimizers/mlx-cispo/cispo_mlx_0123456789ab",
        object(vec![("phases", JsonValue::Array(vec![]))]),
        2048,
        Some("/adapters/sft-1"),
    );
    // The rollout is the container's registered service base, never a fixed
    // local endpoint or a recipe's own task.
    assert_eq!(as_text(at(&config, &["rollout", "url"])), "https://container.example/svc");
    assert_eq!(as_text(at(&config, &["task"])), "support-intents");
    assert_eq!(at(&config, &["signal_attempts"]), &number(24));
    assert_eq!(at(&config, &["group_size"]), &number(16));
    assert_eq!(at(&config, &["rollout", "max_tokens"]), &number(256));
    assert_eq!(at(&config, &["learning_rate"]), &decimal("0.00005"));
    assert_eq!(at(&config, &["checkpoint_every"]), &number(1));
    assert_eq!(at(&config, &["max_steps"]), &number(1));
    assert_eq!(at(&config, &["lora_rank"]), &number(8));
    assert_eq!(at(&config, &["lora_alpha"]), &decimal("16.0"));
    assert_eq!(at(&config, &["max_seq_length"]), &number(2048));
    assert_eq!(at(&config, &["enable_thinking"]), &JsonValue::Bool(false));
    assert_eq!(as_text(at(&config, &["warm_start"])), "/adapters/sft-1");
    let rendered = CanonicalJson::new(config).to_canonical_string();
    assert!(!rendered.contains(&["127.0.0.1:", "8787"].concat()));
    assert!(!rendered.contains("banking77"));
    assert!(!rendered.contains("alfworld"));
    assert!(!rendered.contains("cookbooks/optimizers/cispo/rollout.json"));

    let cold = local_cispo_config(binding(), "/out", JsonValue::Null, 2048, None);
    assert!(is_null(at(&cold, &["warm_start"])));
}

#[test]
fn a_local_run_is_named_and_placed_from_a_fresh_identifier() {
    let run_id = local_cispo_run_id("0123456789abcdef0123456789abcdef");
    assert_eq!(run_id, "cispo_mlx_0123456789ab");
    assert_eq!(
        local_cispo_output_dir("/data", &run_id),
        "/data/optimizers/mlx-cispo/cispo_mlx_0123456789ab"
    );
}

#[test]
fn a_local_run_records_its_workload_and_warm_start() {
    let refs = local_cispo_input_refs(
        "support-intents",
        "container-7",
        Some("sha256:workload".to_string()),
        Some(("sft-1".to_string(), Some("sha256:adapter".to_string()), object(vec![("id", text("sft-1"))]))),
    );
    assert_eq!(refs.len(), 2);
    assert_eq!(refs[0].kind, "dataset");
    assert_eq!(refs[0].id, "support-intents:workload");
    assert_eq!(refs[0].role.as_deref(), Some("rollout_workload"));
    assert_eq!(as_text(at(&refs[0].metadata, &["source"])), "workshop_container");
    assert_eq!(as_text(at(&refs[0].metadata, &["containerId"])), "container-7");
    assert_eq!(refs[1].kind, "checkpoint");
    assert_eq!(refs[1].id, "sft-1");
    assert_eq!(refs[1].digest.as_deref(), Some("sha256:adapter"));
    assert_eq!(refs[1].role.as_deref(), Some("warm_start"));
    assert_eq!(as_text(at(&refs[1].metadata, &["trainingArtifact", "id"])), "sft-1");

    assert!(local_cispo_input_refs("t", "c", None, None).is_empty());
}

#[test]
fn a_warm_start_falls_back_on_its_producing_run() {
    let inputs = vec![
        input("dataset", Some("eval"), Some("sha256:eval")),
        input("dataset", Some("train"), Some("sha256:train")),
        input("training_configuration", None, Some("sha256:config")),
        input("dataset", Some("train"), Some("sha256:later")),
    ];
    let (dataset, config) = warm_start_digests(None, None, &inputs);
    assert_eq!(dataset.as_deref(), Some("sha256:train"));
    assert_eq!(config.as_deref(), Some("sha256:config"));
    let (dataset, config) =
        warm_start_digests(Some("sha256:own".to_string()), None, &inputs);
    assert_eq!(dataset.as_deref(), Some("sha256:own"));
    assert_eq!(config.as_deref(), Some("sha256:config"));
    let (dataset, config) = warm_start_digests(None, None, &Vec::new());
    assert!(dataset.is_none() && config.is_none());
}

#[test]
fn a_local_run_summary_starts_its_training_cursor_at_zero() {
    let summary = local_cispo_summary("local-mlx-cispo", "training.cispo.local", "container-7");
    assert_eq!(as_text(at(&summary, &["recipeId"])), "local-mlx-cispo");
    assert_eq!(as_text(at(&summary, &["backend"])), "cispo");
    assert_eq!(at(&summary, &["trainingCursor"]), &number(0));
    assert_eq!(at(&summary, &["evaluationPlan", "checkpointEvery"]), &number(1));
    assert_eq!(as_text(at(&summary, &["evaluationPlan", "transport"])), "tunnel");
}
