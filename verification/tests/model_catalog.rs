use synth_desktop::model_catalog::{
    builtin_candidates, candidates, config_location, narrow_reasoning_capability, observe_models,
    parse_timestamp, project_catalog, project_entry, Candidate, ConfiguredModel, ConfiguredModelUi,
    ConfiguredModels, ConfiguredReasoningControl, MetadataCache, ModelCatalogAvailability,
    ModelCatalogCapabilities, ModelCatalogReasoningControl, ModelCatalogSource, ObservedModel,
    OpenRouterApiModel, OpenRouterArchitecture, OpenRouterTopProvider, RoutingPolicy,
};

fn configured(id: &str, model: &str) -> ConfiguredModel {
    ConfiguredModel {
        id: id.to_string(),
        model: model.to_string(),
        display_name: None,
        enabled: true,
        routing: None,
        ui: None,
    }
}

fn api_model(id: &str, params: &[&str]) -> OpenRouterApiModel {
    OpenRouterApiModel {
        id: id.to_string(),
        name: None,
        context_length: Some(131_072),
        top_provider: Some(OpenRouterTopProvider { max_completion_tokens: Some(8_192) }),
        architecture: Some(OpenRouterArchitecture { input_modalities: vec![], output_modalities: vec!["text".into()] }),
        supported_parameters: params.iter().map(|p| p.to_string()).collect(),
        expires_at: None,
    }
}

fn observed(display: &str, expires_at: Option<&str>) -> ObservedModel {
    ObservedModel {
        display_name: display.to_string(),
        capabilities: ModelCatalogCapabilities::default(),
        observed_at: "2026-01-01T00:00:00Z".to_string(),
        source: "openrouter.models.v1".to_string(),
        expires_at: expires_at.map(str::to_string),
    }
}

fn cache(models: Vec<(&str, ObservedModel)>, missing: Vec<(&str, &str)>) -> MetadataCache {
    MetadataCache {
        version: 1,
        observed_at: None,
        etag: None,
        models: models.into_iter().map(|(k, v)| (k.to_string(), v)).collect(),
        missing_models: missing.into_iter().map(|(k, v)| (k.to_string(), v.to_string())).collect(),
    }
}

const NOW: (i64, u32) = (1_767_225_600, 0); // 2026-01-01T00:00:00Z

#[test]
fn the_builtin_catalog_lists_four_models_in_order() {
    let builtins = builtin_candidates();
    let ids: Vec<&str> = builtins.iter().map(|c| c.target_id.as_str()).collect();
    assert_eq!(ids, vec!["openrouter-luna", "openrouter-laguna-s", "openrouter-muse-spark", "openrouter-gemini-flash"]);
    let laguna = &builtins[1];
    assert_eq!(laguna.model_id, "poolside/laguna-s-2.1");
    let caps = laguna.builtin_capabilities.as_ref().unwrap();
    assert_eq!(caps.reasoning_control, ModelCatalogReasoningControl::Binary);
    assert_eq!(caps.default_reasoning.as_deref(), Some("max"));
    assert_eq!(caps.input_modalities, vec!["text".to_string()]);
    assert_eq!(caps.max_context_tokens, Some(262_144));
    assert_eq!(builtins[0].builtin_capabilities.as_ref().unwrap().input_modalities, vec!["text".to_string(), "image".to_string()]);
}

#[test]
fn configured_models_follow_the_builtins_with_their_routing_flag() {
    let mut routed = configured("mine", "acme/model-1");
    routed.routing = Some(RoutingPolicy { allow_fallbacks: None, require_parameters: Some(true), data_collection: None });
    let mut unrouted = configured("plain", "acme/model-2");
    unrouted.routing = Some(RoutingPolicy { allow_fallbacks: None, require_parameters: None, data_collection: None });
    let all = candidates(&[routed, unrouted]);
    assert_eq!(all.len(), 6);
    assert_eq!(all[4].target_id, "openrouter:mine");
    assert_eq!(all[4].source, ModelCatalogSource::UserConfig);
    assert!(all[4].routing_configured);
    assert!(!all[5].routing_configured);
    assert!(all[5].builtin_capabilities.is_none());
}

#[test]
fn a_configuration_can_only_narrow_reasoning_control() {
    let mut caps = ModelCatalogCapabilities::default();
    caps.reasoning_control = ModelCatalogReasoningControl::Effort;
    caps.default_reasoning = Some("medium".into());
    let ui = ConfiguredModelUi { reasoning_control: Some(ConfiguredReasoningControl::Binary), default_reasoning: Some("high".into()) };
    narrow_reasoning_capability(&mut caps, Some(&ui));
    assert_eq!(caps.reasoning_control, ModelCatalogReasoningControl::Binary);
    assert_eq!(caps.default_reasoning.as_deref(), Some("high"));

    let mut caps = ModelCatalogCapabilities::default();
    caps.reasoning_control = ModelCatalogReasoningControl::Binary;
    caps.default_reasoning = Some("max".into());
    let ui = ConfiguredModelUi { reasoning_control: Some(ConfiguredReasoningControl::Effort), default_reasoning: None };
    narrow_reasoning_capability(&mut caps, Some(&ui));
    assert_eq!(caps.reasoning_control, ModelCatalogReasoningControl::NoControl);
    assert_eq!(caps.default_reasoning, None);

    let mut caps = ModelCatalogCapabilities::default();
    caps.reasoning_control = ModelCatalogReasoningControl::Effort;
    caps.default_reasoning = Some("xhigh".into());
    let ui = ConfiguredModelUi { reasoning_control: None, default_reasoning: None };
    narrow_reasoning_capability(&mut caps, Some(&ui));
    assert_eq!(caps.reasoning_control, ModelCatalogReasoningControl::Effort);
    assert_eq!(caps.default_reasoning.as_deref(), Some("xhigh"));
}

fn entry_for_candidate(c: &Candidate, meta: Option<&ObservedModel>, missing: Option<&String>, expired: bool, credential: bool)
    -> synth_desktop::model_catalog::ModelCatalogEntry {
    project_entry(c, meta, missing, expired, credential)
}

#[test]
fn availability_follows_the_order_of_blocking_reasons() {
    let luna = &builtin_candidates()[0];
    let ready = entry_for_candidate(luna, None, None, false, true);
    assert_eq!(ready.availability, ModelCatalogAvailability::Ready);
    assert_eq!(ready.diagnostic, None);
    assert_eq!(ready.metadata_source.as_deref(), Some("builtin"));
    assert_eq!(ready.display_name, "GPT 5.6 Luna");
    assert_eq!(ready.provider, "openrouter");

    let no_key = entry_for_candidate(luna, None, None, false, false);
    assert_eq!(no_key.availability, ModelCatalogAvailability::CredentialRequired);
    assert_eq!(no_key.diagnostic.as_deref(), Some("OpenRouter API key required for new turns."));

    let missing = "2026-01-01T00:00:00Z".to_string();
    let unlisted = entry_for_candidate(luna, None, Some(&missing), false, true);
    assert_eq!(unlisted.availability, ModelCatalogAvailability::Unavailable);
    assert_eq!(
        unlisted.diagnostic.as_deref(),
        Some("OpenRouter did not list this slug when metadata was checked 2026-01-01T00:00:00Z; new turns are blocked.")
    );

    let expired = entry_for_candidate(luna, None, Some(&missing), true, true);
    assert_eq!(expired.availability, ModelCatalogAvailability::Expired);

    let user = &candidates(&[configured("x", "acme/unknown")])[4];
    let unverified = entry_for_candidate(user, None, None, false, true);
    assert_eq!(unverified.availability, ModelCatalogAvailability::Unverified);
    assert_eq!(unverified.display_name, "acme/unknown");
    assert_eq!(unverified.capabilities.input_modalities, vec!["text".to_string()]);
    assert_eq!(
        unverified.diagnostic.as_deref(),
        Some("OpenRouter metadata has not been verified. Only text input is admitted until refresh succeeds.")
    );
    let unverified_no_key = entry_for_candidate(user, None, None, false, false);
    assert_eq!(unverified_no_key.availability, ModelCatalogAvailability::CredentialRequired);

    let meta = observed("Acme Unknown", None);
    let listed = entry_for_candidate(user, Some(&meta), None, false, true);
    assert_eq!(listed.availability, ModelCatalogAvailability::Ready);
    assert_eq!(listed.display_name, "Acme Unknown");
    assert_eq!(listed.metadata_source.as_deref(), Some("openrouter.models.v1"));

    let mut disabled_model = configured("off", "acme/off");
    disabled_model.enabled = false;
    let disabled = &candidates(&[disabled_model])[4];
    let entry = entry_for_candidate(disabled, Some(&meta), None, true, true);
    assert_eq!(entry.availability, ModelCatalogAvailability::Unavailable);
    assert_eq!(entry.diagnostic.as_deref(), Some("Disabled in config.toml; existing sessions retain their pinned target."));
}

#[test]
fn a_routing_policy_blocks_new_turns_rather_than_being_dropped() {
    let mut routed = configured("r", "acme/routed");
    routed.routing = Some(RoutingPolicy { allow_fallbacks: Some(false), require_parameters: None, data_collection: None });
    let c = &candidates(&[routed])[4];
    let entry = entry_for_candidate(c, None, None, false, true);
    assert_eq!(entry.availability, ModelCatalogAvailability::Unavailable);
    assert!(entry.diagnostic.unwrap().starts_with("This routing policy is not admitted"));
}

#[test]
fn diagnostics_point_at_their_configuration_location() {
    assert_eq!(config_location("config.toml:12: [[models.openrouter]] entry 2 has no model"), "config.toml:12");
    assert_eq!(config_location("no marker here"), "no marker here");
}

#[test]
fn timestamps_read_rfc3339_then_bare_dates() {
    assert_eq!(parse_timestamp("2026-01-01T00:00:00Z"), Some((1_767_225_600, 0)));
    assert_eq!(parse_timestamp("2026-01-01T00:00:00.5+01:00"), Some((1_767_222_000, 500_000_000)));
    assert_eq!(parse_timestamp("2026-01-02"), Some((1_767_312_000, 0)));
    assert_eq!(parse_timestamp("soon"), None);
}

#[test]
fn the_projected_catalog_reports_expiry_and_configuration_diagnostics() {
    let config = ConfiguredModels {
        models: vec![configured("a", "acme/a"), configured("b", "acme/b")],
        diagnostics: vec!["config.toml:4: [[models.openrouter]] entry has no id".to_string()],
    };
    let snapshot = cache(
        vec![("acme/a", observed("A", Some("2025-12-31"))), ("acme/b", observed("B", Some("2999-01-01T00:00:00Z")))],
        vec![],
    );
    let catalog = project_catalog(config, Some(&snapshot), vec!["refresh failed".to_string()], true, NOW, "now".to_string());
    assert_eq!(catalog.entries.len(), 6);
    assert_eq!(catalog.entries[4].availability, ModelCatalogAvailability::Expired);
    assert_eq!(catalog.entries[5].availability, ModelCatalogAvailability::Ready);
    assert_eq!(catalog.diagnostics.len(), 2);
    assert_eq!(catalog.diagnostics[0].location, "config.toml:4");
    assert_eq!(catalog.diagnostics[1].location, "OpenRouter metadata");
    assert_eq!(catalog.diagnostics[1].message, "refresh failed");
    assert_eq!(catalog.generated_at, "now");
}

#[test]
fn public_list_entries_become_observed_capabilities() {
    let model = api_model("acme/a", &["Reasoning_Effort", "TOOL_CHOICE"]);
    let seen = ObservedModel::from_api(&model, "2026-01-01T00:00:00Z");
    assert_eq!(seen.display_name, "acme/a");
    assert_eq!(seen.capabilities.reasoning_control, ModelCatalogReasoningControl::Effort);
    assert!(seen.capabilities.tools);
    assert_eq!(seen.capabilities.input_modalities, vec!["text".to_string()]);
    assert_eq!(seen.capabilities.max_context_tokens, Some(131_072));
    assert_eq!(seen.capabilities.max_completion_tokens, Some(8_192));
    assert_eq!(seen.source, "openrouter.models.v1");

    let binary = ObservedModel::from_api(&api_model("acme/b", &["include_reasoning"]), "t");
    assert_eq!(binary.capabilities.reasoning_control, ModelCatalogReasoningControl::Binary);
    assert!(!binary.capabilities.tools);
    let plain = ObservedModel::from_api(&api_model("acme/c", &["temperature"]), "t");
    assert_eq!(plain.capabilities.reasoning_control, ModelCatalogReasoningControl::NoControl);
}

#[test]
fn a_refresh_records_found_and_missing_models_and_skips_presets() {
    let mut first = api_model("acme/a", &[]);
    first.name = Some("Old name".into());
    let mut second = api_model("acme/a", &[]);
    second.name = Some("New name".into());
    let api = vec![first, second];
    let cands = candidates(&[configured("a", "acme/a"), configured("gone", "acme/gone"), configured("p", "@preset/mine")]);
    let snapshot = observe_models(&api, &cands, "2026-01-01T00:00:00Z", Some("etag-1".into()));
    assert_eq!(snapshot.version, 1);
    assert_eq!(snapshot.etag.as_deref(), Some("etag-1"));
    let found = snapshot.models.iter().find(|(k, _)| k == "acme/a").unwrap();
    assert_eq!(found.1.display_name, "New name");
    assert!(snapshot.missing_models.iter().any(|(k, v)| k == "acme/gone" && v == "2026-01-01T00:00:00Z"));
    assert!(!snapshot.models.iter().any(|(k, _)| k.starts_with("@preset/")));
    assert!(!snapshot.missing_models.iter().any(|(k, _)| k.starts_with("@preset/")));
    assert!(snapshot.missing_models.iter().any(|(k, _)| k == "openai/gpt-5.6-luna"));
}
