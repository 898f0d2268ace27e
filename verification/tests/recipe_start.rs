use synth_desktop::json::{JsonNumber, JsonValue};
use synth_desktop::recipe_start::{
    approval_session, calls_per_rollout, credential_purpose, declared_rollout_cap, is_free_local_recipe,
    optimizer_recipe_credentials, optimizer_recipe_credentials_from_catalog, paid_start_parameters,
    recipe_lease_policy, recipe_models, recipe_traits, requesting_agent, sidecar_action, total_calls,
    visual_show_event, RecipeTraits,
};

fn text(s: &str) -> JsonValue {
    JsonValue::String(s.to_string())
}

fn number(n: u64) -> JsonValue {
    JsonValue::Number(JsonNumber::Unsigned(n))
}

fn object(entries: Vec<(&str, JsonValue)>) -> JsonValue {
    JsonValue::Object(entries.into_iter().map(|(k, v)| (k.to_string(), v)).collect())
}

#[test]
fn workspace_recipe_catalog_overrides_legacy_prefix_default() {
    let recipe = object(vec![
        ("id", text("gepa.openrouter.smoke.v1")),
        ("credentialInputs", JsonValue::Array(vec![text("OPENROUTER_API_KEY")])),
    ]);
    assert_eq!(
        optimizer_recipe_credentials_from_catalog(&recipe, "gepa.openrouter.smoke.v1"),
        vec!["OPENROUTER_API_KEY"]
    );
}

#[test]
fn recipes_without_declared_credentials_fall_back_to_their_id() {
    assert_eq!(optimizer_recipe_credentials("sft.craftax.gpt-oss.smoke.v1"), vec!["GROQ_API_KEY", "TINKER_API_KEY"]);
    assert_eq!(optimizer_recipe_credentials("gelo.craftax.hosted.v1"), vec!["OPTIMIZERS_BETA_SERVICE_TOKEN"]);
    assert_eq!(optimizer_recipe_credentials("sft.banking77.nemotron-lightning.tinker.v1"), vec!["SYNTH_OPTIMIZERS_SFT_SERVICE_TOKEN"]);
    assert_eq!(optimizer_recipe_credentials("eval.anything"), vec!["OPENAI_API_KEY"]);
    assert!(optimizer_recipe_credentials("cispo.mlx.v1").is_empty());
    let recipe = object(vec![("id", text("gepa.x"))]);
    assert_eq!(optimizer_recipe_credentials_from_catalog(&recipe, "gepa.x"), vec!["OPENAI_API_KEY"]);
    let declared_empty = object(vec![("credentialInputs", JsonValue::Array(vec![text("A"), number(3), text("B")]))]);
    assert_eq!(optimizer_recipe_credentials_from_catalog(&declared_empty, "gepa.x"), vec!["A", "B"]);
}

#[test]
fn local_recipes_need_no_paid_approval() {
    assert!(is_free_local_recipe("sft.qwen35-2b.mlx.v1"));
    assert!(is_free_local_recipe("cispo.mlx.v1"));
    assert!(is_free_local_recipe("eval.fixture.policy-smoke.v1"));
    assert!(!is_free_local_recipe("gepa.craftax.v1"));
}

#[test]
fn the_requesting_agent_is_the_session_or_the_operator() {
    assert_eq!(requesting_agent(Some("  s-1 ")), (Some("s-1".to_string()), "Agent session s-1".to_string()));
    assert_eq!(requesting_agent(Some("  ")), (None, "Workshop operator".to_string()));
    assert_eq!(requesting_agent(None), (None, "Workshop operator".to_string()));
    assert_eq!(approval_session(Some(" s-2 ")), Ok("s-2".to_string()));
    assert_eq!(approval_session(None), Err("this mutation requires an agent session for approval".to_string()));
}

#[test]
fn recipe_traits_come_from_the_catalog_entry() {
    let baseline = object(vec![("algorithmId", text("eval")), ("source", text("workspace")), ("semantics", text("baseline_eval"))]);
    assert_eq!(
        recipe_traits(&baseline, "eval.x"),
        RecipeTraits { is_local_eval: true, is_container_baseline_eval: true, is_hosted_sft: false }
    );
    let sft = object(vec![("algorithmId", text("sft"))]);
    assert!(recipe_traits(&sft, "sft.hosted.v1").is_hosted_sft);
    assert!(!recipe_traits(&sft, "sft.craftax.gpt-oss.smoke.v1").is_hosted_sft);
}

#[test]
fn caps_are_read_from_the_declared_limits() {
    let limits = object(vec![("maxSearchRollouts", number(40)), ("maxTotalEnvironmentRollouts", number(12))]);
    assert_eq!(declared_rollout_cap(&limits, false), Some(12));
    assert_eq!(declared_rollout_cap(&limits, true), None);
    let calls = object(vec![("maximumModelCallsPerRollout", text("ten")), ("maxCallsPerRollout", number(4))]);
    assert_eq!(calls_per_rollout(&calls), None);
    let calls = object(vec![("maxCallsPerRollout", number(4))]);
    assert_eq!(calls_per_rollout(&calls), Some(4));
    let zero = object(vec![("maxCallsPerRollout", number(0))]);
    assert_eq!(calls_per_rollout(&zero), None);
    assert_eq!(total_calls(5, 10), 50);
    assert_eq!(total_calls(u64::MAX, 2), u32::MAX);
    assert_eq!(total_calls(70_000, 70_000), u32::MAX);
}

#[test]
fn a_provider_lease_needs_every_bound() {
    assert_eq!(
        recipe_lease_policy("gepa.x", vec![], None, Some(5), Some(1)).err().unwrap(),
        "optimizer recipe `gepa.x` has a provider credential but no admitted maximumModelCallsPerRollout"
    );
    assert_eq!(
        recipe_lease_policy("gepa.x", vec![], Some(2), Some(0), Some(1)).err().unwrap(),
        "optimizer recipe `gepa.x` has a provider credential but no admitted rollout cap"
    );
    assert_eq!(
        recipe_lease_policy("gepa.x", vec![], Some(2), Some(5), None).err().unwrap(),
        "optimizer recipe `gepa.x` has a provider credential but no admitted cost cap"
    );
    let policy = recipe_lease_policy("gepa.x", vec!["gpt-5".into()], Some(2), Some(5), Some(3_000_000)).unwrap();
    assert_eq!(policy.max_calls, 10);
    assert_eq!(policy.max_cost_usd_micros, 3_000_000);
    assert_eq!(policy.operations, vec!["chat.completions.create".to_string()]);
    assert_eq!(policy.models, vec!["gpt-5".to_string()]);
    assert_eq!(policy.lifetime_seconds, 1_800);
}

#[test]
fn recipe_models_accept_ids_and_plain_names() {
    let recipe = object(vec![(
        "models",
        JsonValue::Array(vec![object(vec![("id", text("gpt-5"))]), text("gpt-4.1"), number(3)]),
    )]);
    assert_eq!(recipe_models(&recipe), vec!["gpt-5".to_string(), "gpt-4.1".to_string()]);
    assert!(recipe_models(&object(vec![])).is_empty());
}

#[test]
fn the_sidecar_is_started_only_where_the_recipe_needs_it() {
    let remote = RecipeTraits { is_local_eval: false, is_container_baseline_eval: false, is_hosted_sft: false };
    assert_eq!(sidecar_action(remote, "ready"), None);
    assert_eq!(sidecar_action(remote, "not_installed"), Some("install_and_start".to_string()));
    assert_eq!(sidecar_action(remote, "stopped"), Some("start".to_string()));
    let local = RecipeTraits { is_local_eval: true, is_container_baseline_eval: false, is_hosted_sft: false };
    assert_eq!(sidecar_action(local, "not_installed"), None);
}

#[test]
fn approvals_disclose_the_recipe_and_its_limits() {
    let recipe = object(vec![("algorithmId", text("gepa")), ("limits", object(vec![("maxTotalRollouts", number(8))]))]);
    assert_eq!(
        paid_start_parameters("gepa.x", &recipe),
        object(vec![
            ("recipeId", text("gepa.x")),
            ("algorithmId", text("gepa")),
            ("task", JsonValue::Null),
            ("limits", object(vec![("maxTotalRollouts", number(8))])),
        ])
    );
    assert_eq!(credential_purpose("gepa.x"), "run bounded optimizer recipe gepa.x");
    assert_eq!(
        visual_show_event("v-1"),
        object(vec![("kind", text("visual.show")), ("payload", object(vec![("visualId", text("v-1"))]))])
    );
}
