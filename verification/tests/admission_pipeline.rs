//! Admission pipeline behaviour, driven by one acceptance request: container
//! `nanohorizon-craftax` speaking `synth.container.live-eval.v1`, model
//! `z-ai/glm-5.3-flash` through OpenRouter, policy `nanohorizon/glm-5.3-flash`,
//! seeds 780000–780004, five rollouts, ten model calls and two thousand steps
//! per rollout, and a $2.45 ceiling through the secrets proxy. Each test
//! removes one fact and checks the specific refusal.

use synth_desktop::admission::canonical::{digest_bytes, CanonicalJson};
use synth_desktop::admission::error::{AdmissionError, AdmissionErrorCode};
use synth_desktop::admission::ids::{
    non_zero_u32, ApprovalReceiptId, ContainerId, ContainerRegistrationId, CostMicros,
    DeclarationDigest, EvaluatorId, ModelId, PolicyRevision, PositiveU64, ProviderId, RecipeDigest,
    RecipeId, RolloutCount, RolloutId, Seed, SourceRevision,
};
use synth_desktop::admission::pipeline::{
    draft_inline, materialize, AdmissibleExecutionSpec, CatalogEntry, ContainerCandidate,
    DeclaredEvaluator, DiscoveryContext, DriftCode, EvalDeclaration, InlineRequest,
    PolicyResolution,
};
use synth_desktop::admission::spec::{
    ApprovalBinding, CatalogRecipeRef, CredentialCapabilityScope, CredentialRoute, ModelPin,
    LiveEvalProtocol, PolicyMaterialRef, RecipeSource, RecipeSourceKind, LIVE_EVAL_PROTOCOL_V1,
};
use synth_desktop::admission::persistence::{admitted_record, approved_record, check_admitted_record, AdmittedRecordError};
use synth_desktop::admission::request::tool_arguments_body;
use synth_desktop::recipe_start::inline_start_approval;
use synth_desktop::admission::state::{
    EvidenceGap, EvidenceRequirements, RolloutRecord, RolloutState, RolloutStateHolder, RunProgress,
    RunState,
};
use synth_desktop::json::{json_equal, JsonNumber, JsonValue};

// ---------------------------------------------------------------------------
// JSON helpers
// ---------------------------------------------------------------------------

fn text(s: &str) -> JsonValue {
    JsonValue::String(s.to_string())
}

fn number(n: u64) -> JsonValue {
    JsonValue::Number(JsonNumber::Unsigned(n))
}

fn texts(items: &[&str]) -> JsonValue {
    JsonValue::Array(items.iter().map(|item| text(item)).collect())
}

fn object(entries: Vec<(&str, JsonValue)>) -> JsonValue {
    JsonValue::Object(entries.into_iter().map(|(k, v)| (k.to_string(), v)).collect())
}

fn at<'a>(value: &'a JsonValue, key: &str) -> &'a JsonValue {
    value.get(key).unwrap_or_else(|| panic!("missing key {key}"))
}

// ---------------------------------------------------------------------------
// Fixtures
// ---------------------------------------------------------------------------

fn container_id() -> ContainerId {
    ContainerId::new("nanohorizon-craftax").unwrap()
}

fn provider() -> ProviderId {
    ProviderId::new("openrouter").unwrap()
}

fn model_id() -> ModelId {
    ModelId::new("z-ai/glm-5.3-flash").unwrap()
}

fn nanohorizon_seeds() -> Vec<Seed> {
    (780_000..780_005).map(Seed).collect()
}

/// The dollar text a host shows for a ceiling, in the `{:.2}` form.
fn usd(micros: u64) -> String {
    format!("${:.2}", micros as f64 / 1_000_000.0)
}

fn cost(micros: u64) -> CostMicros {
    CostMicros(PositiveU64::new(micros).unwrap())
}

fn declaration() -> EvalDeclaration {
    EvalDeclaration {
        protocol: Some(LIVE_EVAL_PROTOCOL_V1.to_string()),
        declaration_digest: Some(DeclarationDigest::new("sha256:declaration-v1").unwrap()),
        evaluator: Some(DeclaredEvaluator {
            evaluator_id: EvaluatorId::new("craftax.achievements").unwrap(),
            evaluator_version: "1.4.2".into(),
            scoring_digest: digest_bytes(b"craftax-scoring-v1"),
        }),
        supported_models: vec![ModelPin { provider: provider(), model_id: model_id() }],
        supports_seed_control: Some(true),
        maximum_rollouts: Some(64),
        maximum_model_calls_per_rollout: Some(32),
        maximum_steps_per_rollout: Some(4_000),
        operations: [
            "rollouts.prepare",
            "rollouts.start_prepared",
            "rollouts.get",
            "rollouts.poll",
            "reward.get",
            "trace_v5.capture",
            "usage.get",
        ]
        .into_iter()
        .map(str::to_string)
        .collect(),
    }
}

fn candidate() -> ContainerCandidate {
    ContainerCandidate {
        container_id: container_id(),
        registration_id: ContainerRegistrationId::new("registration-7").unwrap(),
        source_revision: SourceRevision::new("sha256:image-91af").unwrap(),
        health: "ready".into(),
        family: Some("craftax".into()),
        declaration: declaration(),
    }
}

fn policy_resolution() -> PolicyResolution {
    PolicyResolution {
        namespace: "nanohorizon".into(),
        name: "glm-5.3-flash".into(),
        revision: Some(PolicyRevision::new("rev-2026-08-26-a1").unwrap()),
        declared_configuration: CanonicalJson::new(object(vec![
            ("api", text("chat_completions")),
            ("effort", text("medium")),
            ("max_calls", number(10)),
            ("max_steps", number(2000)),
            ("thinking_budget", number(2048)),
        ])),
        source_code: None,
        material: None,
    }
}

fn context() -> DiscoveryContext {
    DiscoveryContext {
        containers: vec![candidate()],
        policy: Some(policy_resolution()),
        credential_route_available: true,
        credential_route_detail: None,
        credential_capability_scope: Some(CredentialCapabilityScope::new(
            vec!["chat.completions".to_string()],
            900,
        )),
        catalog: Vec::new(),
    }
}

/// The acceptance request.
fn request() -> InlineRequest {
    InlineRequest {
        container_id: Some(container_id()),
        family: Some("craftax".into()),
        policy_namespace: Some("nanohorizon".into()),
        policy_name: Some("glm-5.3-flash".into()),
        policy_source_path: None,
        policy_overrides: None,
        provider: Some(provider()),
        model_id: Some(model_id()),
        seeds: nanohorizon_seeds(),
        maximum_rollouts: Some(5),
        maximum_model_calls_per_rollout: Some(10),
        maximum_steps_per_rollout: Some(2_000),
        hard_total_cost: Some(Ok(cost(2_450_000))),
        evaluator: None,
    }
}

fn admissible_for(
    request: &InlineRequest,
    context: &DiscoveryContext,
) -> Result<AdmissibleExecutionSpec, AdmissionError> {
    let recipe = draft_inline(request, context)?;
    materialize(RecipeSource::Inline(recipe), context)?.validate()?.into_admissible()
}

fn binding_for(admissible: &AdmissibleExecutionSpec) -> ApprovalBinding {
    let recipe = admissible.spec().recipe.clone();
    ApprovalBinding {
        receipt_id: ApprovalReceiptId::new("receipt-1").unwrap(),
        execution_spec_digest: admissible.digest().clone(),
        container_declaration_digest: recipe.container.declaration_digest,
        policy_revision: recipe.policy.revision.clone(),
        policy_configuration_digest: recipe.policy.configuration_digest,
        approved_cost_micros: recipe.resource_limits.hard_total_cost_micros,
        approved_rollouts: recipe.rollout_plan.maximum_rollouts,
    }
}

// ---------------------------------------------------------------------------
// The acceptance path
// ---------------------------------------------------------------------------

#[test]
fn nanohorizon_completes_the_admission_path_without_a_catalog_recipe() {
    let context = context();
    assert!(context.catalog.is_empty(), "the acceptance request must succeed with an empty catalog");

    let admissible = admissible_for(&request(), &context).expect("NanoHorizon must be admissible inline");
    let disclosure = admissible.approval_disclosure(&usd(2_450_000));

    assert_eq!(at(&disclosure, "sourceKind"), &text("inline"));
    assert_eq!(at(&disclosure, "catalogRecipeId"), &JsonValue::Null);

    let container = at(&disclosure, "container");
    assert_eq!(at(container, "containerId"), &text("nanohorizon-craftax"));
    assert_eq!(at(container, "declarationDigest"), &text("sha256:declaration-v1"));
    assert_eq!(at(&disclosure, "protocol"), &text(LIVE_EVAL_PROTOCOL_V1));
    let evaluator = at(&disclosure, "evaluator");
    assert_eq!(at(evaluator, "kind"), &text("container_declared"));
    assert_eq!(at(evaluator, "evaluatorId"), &text("craftax.achievements"));
    assert_eq!(at(at(&disclosure, "policy"), "revision"), &text("rev-2026-08-26-a1"));
    assert_eq!(at(at(&disclosure, "model"), "modelId"), &text("z-ai/glm-5.3-flash"));
    assert_eq!(
        at(&disclosure, "seeds"),
        &JsonValue::Array((780_000..780_005).map(number).collect())
    );
    assert_eq!(at(&disclosure, "rolloutCount"), &number(5));
    assert_eq!(at(&disclosure, "maximumModelCallsPerRollout"), &number(10));
    assert_eq!(at(&disclosure, "maximumStepsPerRollout"), &number(2_000));
    assert_eq!(at(&disclosure, "hardTotalCostMicros"), &number(2_450_000));
    assert_eq!(at(&disclosure, "hardTotalCostDisplay"), &text("$2.45"));
    assert_eq!(at(at(&disclosure, "credentialRoute"), "kind"), &text("workshop_secrets_proxy"));
    assert!(at(&disclosure, "executionSpecDigest")
        .as_text()
        .is_some_and(|digest| digest.starts_with("sha256:")));

    let approved = admissible
        .clone()
        .approve(binding_for(&admissible))
        .expect("a receipt describing this specification must be accepted");
    assert_eq!(approved.digest(), admissible.digest());
    assert_eq!(approved.recipe().rollout_plan.declared_rollouts(), 5);
}

#[test]
fn the_acceptance_run_starts_exactly_five_rollouts_and_settles_truthfully() {
    let admissible = admissible_for(&request(), &context()).unwrap();
    let approved = admissible.clone().approve(binding_for(&admissible)).unwrap();

    let mut progress = RunProgress::plan(approved.recipe().rollout_plan.declared_rollouts());
    assert_eq!(progress.declared_rollouts(), 5);
    for next in [
        RunState::Validating,
        RunState::ReadyForApproval,
        RunState::AwaitingApproval,
        RunState::Admitted,
        RunState::Starting,
        RunState::Running,
    ] {
        progress.transition_run(next).unwrap();
    }

    let requirements = EvidenceRequirements {
        requires_reward: true,
        requires_trace: true,
        requires_usage: true,
    };
    for index in 0..5u32 {
        for next in [
            RolloutState::Queued,
            RolloutState::Starting,
            RolloutState::Running,
            RolloutState::Completed,
        ] {
            progress.transition_rollout(index, next).unwrap();
        }
        progress.record_evidence(
            index,
            RolloutRecord {
                rollout_id: Some(RolloutId::new(&format!("rollout-{index}")).unwrap()),
                reward: Some(0.4f64.to_bits()),
                trace_ref: Some(format!("trace-{index}")),
                cost_micros: Some(120_000),
                total_tokens: Some(4_096),
                ..RolloutRecord::default()
            },
        );
    }
    progress.credential_revocation_confirmed = true;
    assert_eq!(progress.settle(requirements).unwrap(), RunState::Completed);

    let projected = progress.project(requirements);
    assert_eq!(at(at(&projected, "rolloutStateCounts"), "completed"), &number(5));
    assert_eq!(at(&projected, "totalCostMicros"), &number(600_000));
    assert!(
        at(&projected, "totalCostMicros").as_u64().unwrap()
            <= approved.recipe().resource_limits.hard_total_cost_micros.as_micros()
    );
}

// ---------------------------------------------------------------------------
// Source selection
// ---------------------------------------------------------------------------

#[test]
fn inline_is_the_default_source_and_never_consults_the_catalog() {
    let context = context();
    let recipe = draft_inline(&request(), &context).unwrap();
    let draft = materialize(RecipeSource::Inline(recipe), &context).unwrap();
    assert_eq!(draft.source_kind(), RecipeSourceKind::Inline);
    assert!(draft.spec().catalog_recipe_id.is_none());
}

#[test]
fn a_missing_catalog_entry_does_not_block_inline_execution() {
    let context = context();
    assert!(context.catalog.is_empty());
    let admissible = admissible_for(&request(), &context);
    assert!(admissible.is_ok(), "inline admission must not depend on a catalog entry existing");
}

#[test]
fn an_explicit_catalog_request_stays_fail_closed() {
    let context = context();
    let missing = RecipeId::new("nanohorizon.craftax.glm-5.3-flash.eval.v1").unwrap();
    let error = materialize(
        RecipeSource::Catalog(CatalogRecipeRef { recipe_id: missing.clone(), expected_digest: None }),
        &context,
    )
    .unwrap_err();
    assert_eq!(error.code, AdmissionErrorCode::CatalogRecipeNotFound);
    assert_eq!(at(&error.context, "recipeId"), &text(missing.as_str()));
    assert!(error.remediation.contains("inline"));
}

#[test]
fn catalog_and_inline_sources_produce_the_same_execution_model() {
    let mut context = context();
    let recipe = draft_inline(&request(), &context).unwrap();
    let entry_digest = digest_bytes(b"catalog-entry-1");
    let recipe_id = RecipeId::new("nanohorizon.craftax.v1").unwrap();
    context.catalog.push(CatalogEntry {
        recipe_id: recipe_id.clone(),
        digest: entry_digest.clone(),
        recipe: recipe.clone(),
    });

    let inline = materialize(RecipeSource::Inline(recipe.clone()), &context)
        .unwrap()
        .validate()
        .unwrap()
        .into_admissible()
        .unwrap();
    let catalog = materialize(
        RecipeSource::Catalog(CatalogRecipeRef {
            recipe_id: recipe_id.clone(),
            expected_digest: Some(RecipeDigest::new(entry_digest.as_str()).unwrap()),
        }),
        &context,
    )
    .unwrap()
    .validate()
    .unwrap()
    .into_admissible()
    .unwrap();

    assert_eq!(inline.spec().recipe, catalog.spec().recipe);
    assert_eq!(catalog.spec().source_kind, RecipeSourceKind::Catalog);
    assert_eq!(catalog.spec().catalog_recipe_id.as_ref(), Some(&recipe_id));
    assert_ne!(inline.digest(), catalog.digest());
}

#[test]
fn a_catalog_recipe_pinned_to_a_stale_digest_is_refused() {
    let mut context = context();
    let recipe = draft_inline(&request(), &context).unwrap();
    let recipe_id = RecipeId::new("nanohorizon.craftax.v1").unwrap();
    context.catalog.push(CatalogEntry { recipe_id: recipe_id.clone(), digest: digest_bytes(b"current"), recipe });
    let error = materialize(
        RecipeSource::Catalog(CatalogRecipeRef {
            recipe_id,
            expected_digest: Some(RecipeDigest::new(digest_bytes(b"stale").as_str()).unwrap()),
        }),
        &context,
    )
    .unwrap_err();
    assert_eq!(error.code, AdmissionErrorCode::ExecutionSpecDigestMismatch);
}

// ---------------------------------------------------------------------------
// Construction rules
// ---------------------------------------------------------------------------

#[test]
fn an_undeclared_evaluator_returns_the_precise_error() {
    let mut context = context();
    context.containers[0].declaration.evaluator = None;
    let error = draft_inline(&request(), &context).unwrap_err();
    assert_eq!(error.code, AdmissionErrorCode::EvaluatorNotDeclared);
    assert_eq!(at(&error.context, "containerId"), &text("nanohorizon-craftax"));
}

#[test]
fn a_declared_evaluator_without_a_version_is_a_scoring_contract_failure() {
    let mut context = context();
    if let Some(evaluator) = context.containers[0].declaration.evaluator.as_mut() {
        evaluator.evaluator_version = "  ".into();
    }
    let error = draft_inline(&request(), &context).unwrap_err();
    assert_eq!(error.code, AdmissionErrorCode::ScoringContractInvalid);
}

#[test]
fn ambiguous_container_discovery_refuses_rather_than_taking_the_first() {
    let mut context = context();
    let mut second = candidate();
    second.container_id = ContainerId::new("nanohorizon-craftax-b").unwrap();
    second.registration_id = ContainerRegistrationId::new("registration-8").unwrap();
    context.containers.push(second);

    let mut ambiguous = request();
    ambiguous.container_id = None;
    let error = draft_inline(&ambiguous, &context).unwrap_err();
    assert_eq!(error.code, AdmissionErrorCode::ContainerSelectionAmbiguous);
    assert_eq!(
        at(&error.context, "candidates"),
        &texts(&["nanohorizon-craftax", "nanohorizon-craftax-b"])
    );
}

#[test]
fn naming_the_exact_container_resolves_an_otherwise_ambiguous_discovery() {
    let mut context = context();
    let mut second = candidate();
    second.container_id = ContainerId::new("nanohorizon-craftax-b").unwrap();
    context.containers.push(second);
    assert!(draft_inline(&request(), &context).is_ok());
}

#[test]
fn an_unhealthy_container_is_refused_before_any_spend() {
    let mut context = context();
    context.containers[0].health = "unhealthy".into();
    let error = draft_inline(&request(), &context).unwrap_err();
    assert_eq!(error.code, AdmissionErrorCode::ContainerUnhealthy);
    assert_eq!(at(&error.context, "observedHealth"), &text("unhealthy"));
}

#[test]
fn an_unknown_health_string_fails_closed_rather_than_reading_as_ready() {
    let mut context = context();
    context.containers[0].health = "degraded-but-probably-fine".into();
    let error = draft_inline(&request(), &context).unwrap_err();
    assert_eq!(error.code, AdmissionErrorCode::ContainerUnhealthy);
}

#[test]
fn a_container_on_another_protocol_is_not_adapted() {
    let mut context = context();
    context.containers[0].declaration.protocol = Some("synth.container.live-eval.v2".into());
    let error = draft_inline(&request(), &context).unwrap_err();
    assert_eq!(error.code, AdmissionErrorCode::ContainerProtocolUnsupported);
    assert_eq!(at(&error.context, "advertisedProtocol"), &text("synth.container.live-eval.v2"));
}

#[test]
fn a_policy_without_a_resolved_revision_cannot_be_pinned() {
    let mut context = context();
    if let Some(policy) = context.policy.as_mut() {
        policy.revision = None;
    }
    let error = draft_inline(&request(), &context).unwrap_err();
    assert_eq!(error.code, AdmissionErrorCode::PolicyRevisionUnresolved);
}

#[test]
fn a_policy_the_session_cannot_resolve_is_not_found() {
    let mut context = context();
    context.policy = None;
    let error = draft_inline(&request(), &context).unwrap_err();
    assert_eq!(error.code, AdmissionErrorCode::PolicyNotFound);
}

#[test]
fn an_override_of_a_key_the_policy_does_not_declare_is_refused() {
    let context = context();
    let mut with_override = request();
    with_override.policy_overrides = Some(CanonicalJson::new(object(vec![(
        "temperature",
        JsonValue::Number(JsonNumber::Decimal("0.9".into())),
    )])));
    let error = draft_inline(&with_override, &context).unwrap_err();
    assert_eq!(error.code, AdmissionErrorCode::PolicyConfigurationInvalid);
    assert!(at(&error.context, "detail").as_text().unwrap().contains("temperature"));
    let mut legal = request();
    legal.policy_overrides = Some(CanonicalJson::new(object(vec![("effort", text("high"))])));
    let overridden = draft_inline(&legal, &context).unwrap();
    let baseline = draft_inline(&request(), &context).unwrap();
    assert_ne!(overridden.policy.configuration_digest, baseline.policy.configuration_digest);
}

#[test]
fn a_model_the_container_does_not_advertise_is_never_substituted() {
    let mut context = context();
    let mut other = request();
    other.model_id = Some(ModelId::new("z-ai/glm-5.3-pro").unwrap());
    let error = draft_inline(&other, &context).unwrap_err();
    assert_eq!(error.code, AdmissionErrorCode::ModelUnsupported);
    assert_eq!(at(&error.context, "modelId"), &text("z-ai/glm-5.3-pro"));

    context.containers[0].declaration.supported_models.clear();
    let error = draft_inline(&request(), &context).unwrap_err();
    assert_eq!(error.code, AdmissionErrorCode::ModelUnsupported);
}

#[test]
fn a_container_that_cannot_take_seeds_refuses_rather_than_choosing_its_own() {
    let mut context = context();
    context.containers[0].declaration.supports_seed_control = Some(false);
    let error = draft_inline(&request(), &context).unwrap_err();
    assert_eq!(error.code, AdmissionErrorCode::SeedControlUnsupported);

    context.containers[0].declaration.supports_seed_control = None;
    let error = draft_inline(&request(), &context).unwrap_err();
    assert_eq!(error.code, AdmissionErrorCode::SeedControlUnsupported);
}

#[test]
fn unsupported_limits_fail_rather_than_clamp() {
    let context = context();
    let cases: Vec<(Box<dyn Fn(&mut InlineRequest)>, &str, u64, u64)> = vec![
        (
            Box::new(|request: &mut InlineRequest| request.maximum_model_calls_per_rollout = Some(64)),
            "maximum_model_calls_per_rollout",
            64,
            32,
        ),
        (
            Box::new(|request: &mut InlineRequest| request.maximum_steps_per_rollout = Some(9_000)),
            "maximum_steps_per_rollout",
            9_000,
            4_000,
        ),
        (
            Box::new(|request: &mut InlineRequest| request.maximum_rollouts = Some(128)),
            "maximum_rollouts",
            128,
            64,
        ),
    ];
    for (mutate, limit, requested, ceiling) in cases {
        let mut over = request();
        mutate(&mut over);
        let error = draft_inline(&over, &context).unwrap_err();
        assert_eq!(
            error.code,
            AdmissionErrorCode::RequestedLimitUnsupported,
            "{limit} above the declared ceiling must fail"
        );
        assert_eq!(at(&error.context, "limit"), &text(limit));
        assert_eq!(at(&error.context, "requested"), &number(requested));
        assert_eq!(at(&error.context, "maximumSupported"), &number(ceiling));
    }
}

#[test]
fn a_rollout_cap_below_the_seed_count_is_refused_not_silently_truncated() {
    let context = context();
    let mut narrowed = request();
    narrowed.maximum_rollouts = Some(3);
    let error = draft_inline(&narrowed, &context).unwrap_err();
    assert_eq!(error.code, AdmissionErrorCode::RequestedLimitUnsupported);
}

#[test]
fn paid_execution_without_a_cost_ceiling_is_refused() {
    let context = context();
    let mut unbounded = request();
    unbounded.hard_total_cost = None;
    let error = draft_inline(&unbounded, &context).unwrap_err();
    assert_eq!(error.code, AdmissionErrorCode::CostCeilingRequired);

    // A zero ceiling is not a ceiling either: its conversion refuses it.
    let mut free = request();
    free.hard_total_cost = Some(Err("cost ceiling must be greater than zero, found 0".into()));
    let error = draft_inline(&free, &context).unwrap_err();
    assert_eq!(error.code, AdmissionErrorCode::CostCeilingRequired);
}

#[test]
fn an_unavailable_credential_route_is_refused_before_admission() {
    let mut context = context();
    context.credential_route_available = false;
    context.credential_route_detail = Some("the secrets proxy is not running".into());
    let error = draft_inline(&request(), &context).unwrap_err();
    assert_eq!(error.code, AdmissionErrorCode::CredentialRouteUnavailable);
    assert_eq!(at(&error.context, "providerId"), &text("openrouter"));
}

#[test]
fn a_container_missing_a_required_evidence_operation_is_refused() {
    let mut context = context();
    context.containers[0].declaration.operations.retain(|operation| operation != "reward.get");
    let error = draft_inline(&request(), &context).unwrap_err();
    assert_eq!(error.code, AdmissionErrorCode::OutputContractUnsupported);
    assert_eq!(at(&error.context, "missingOperations"), &texts(&["reward.get"]));
}

// ---------------------------------------------------------------------------
// Validation
// ---------------------------------------------------------------------------

#[test]
fn a_repeated_seed_is_refused_rather_than_deduplicated() {
    let context = context();
    let mut recipe = draft_inline(&request(), &context).unwrap();
    recipe.rollout_plan.seeds[4] = recipe.rollout_plan.seeds[0];
    let error = materialize(RecipeSource::Inline(recipe), &context).unwrap().validate().unwrap_err();
    assert_eq!(error.code, AdmissionErrorCode::ExecutionSpecInvalid);
    assert!(at(&error.context, "detail").as_text().unwrap().contains("seed"));
}

#[test]
fn a_policy_configuration_rewritten_after_pinning_fails_validation() {
    let context = context();
    let mut recipe = draft_inline(&request(), &context).unwrap();
    recipe.policy.configuration = CanonicalJson::new(object(vec![("max_calls", number(99))]));
    let error = materialize(RecipeSource::Inline(recipe), &context).unwrap().validate().unwrap_err();
    assert_eq!(error.code, AdmissionErrorCode::PolicyConfigurationInvalid);
}

#[test]
fn a_credential_route_for_another_provider_fails_validation() {
    let context = context();
    let mut recipe = draft_inline(&request(), &context).unwrap();
    recipe.credential_route = CredentialRoute::WorkshopSecretsProxy {
        provider: ProviderId::new("openai").unwrap(),
        capability_scope: CredentialCapabilityScope::new(vec!["chat.completions".to_string()], 900),
    };
    let error = materialize(RecipeSource::Inline(recipe), &context).unwrap().validate().unwrap_err();
    assert_eq!(error.code, AdmissionErrorCode::CredentialRouteUnavailable);
}

// ---------------------------------------------------------------------------
// Approval binding and drift
// ---------------------------------------------------------------------------

#[test]
fn an_approval_receipt_rejects_a_changed_specification() {
    let context = context();
    let admissible = admissible_for(&request(), &context).unwrap();
    let binding = binding_for(&admissible);
    let mut altered = request();
    altered.seeds = (790_000..790_005).map(Seed).collect();
    let other = admissible_for(&altered, &context).unwrap();
    let error = other.approve(binding).unwrap_err();
    assert_eq!(error.code, DriftCode::ApprovedSpecDigestMismatch);
}

#[test]
fn an_approval_receipt_rejects_a_looser_cost_ceiling() {
    let context = context();
    let admissible = admissible_for(&request(), &context).unwrap();
    let mut binding = binding_for(&admissible);
    binding.approved_cost_micros = cost(1_000_000);
    binding.execution_spec_digest = admissible.digest().clone();
    let error = admissible.approve(binding).unwrap_err();
    assert_eq!(error.code, DriftCode::ApprovalBoundsExceeded);
    assert_eq!(at(&error.context, "bound"), &text("hard_total_cost_micros"));
}

#[test]
fn an_approval_receipt_rejects_more_rollouts_than_were_approved() {
    let context = context();
    let admissible = admissible_for(&request(), &context).unwrap();
    let mut binding = binding_for(&admissible);
    binding.approved_rollouts = RolloutCount(non_zero_u32(2, "maximum_rollouts").unwrap());
    let error = admissible.approve(binding).unwrap_err();
    assert_eq!(error.code, DriftCode::ApprovalBoundsExceeded);
    assert_eq!(at(&error.context, "bound"), &text("maximum_rollouts"));
}

#[test]
fn an_approval_receipt_rejects_a_changed_container_declaration() {
    let context = context();
    let admissible = admissible_for(&request(), &context).unwrap();
    let mut binding = binding_for(&admissible);
    binding.container_declaration_digest = DeclarationDigest::new("sha256:declaration-v2").unwrap();
    let error = admissible.approve(binding).unwrap_err();
    assert_eq!(error.code, DriftCode::ContainerDeclarationChanged);
}

#[test]
fn an_approval_receipt_rejects_a_changed_policy_revision() {
    let context = context();
    let admissible = admissible_for(&request(), &context).unwrap();
    let mut binding = binding_for(&admissible);
    binding.policy_revision = PolicyRevision::new("rev-2026-08-27-b2").unwrap();
    let error = admissible.approve(binding).unwrap_err();
    assert_eq!(error.code, DriftCode::PolicyRevisionChanged);
}

#[test]
fn drift_detected_at_dispatch_demands_a_new_approval_rather_than_a_patch() {
    let context = context();
    let admissible = admissible_for(&request(), &context).unwrap();
    let approved = admissible.clone().approve(binding_for(&admissible)).unwrap();

    let source_error = approved
        .reverify(
            &SourceRevision::new("harbor-runtime-v2").unwrap(),
            &approved.recipe().container.declaration_digest,
            &approved.recipe().policy.revision,
        )
        .unwrap_err();
    assert_eq!(source_error.code, DriftCode::ContainerSourceChanged);

    let error = approved
        .reverify(
            &approved.recipe().container.source_revision,
            &DeclarationDigest::new("sha256:declaration-v2").unwrap(),
            &approved.recipe().policy.revision,
        )
        .unwrap_err();
    assert_eq!(error.code, DriftCode::ContainerDeclarationChanged);
    let rendered = error.to_json();
    assert!(at(&rendered, "remediation").as_text().unwrap().contains("new paid-compute approval"));

    approved
        .reverify(
            &approved.recipe().container.source_revision.clone(),
            &approved.recipe().container.declaration_digest.clone(),
            &approved.recipe().policy.revision.clone(),
        )
        .expect("unchanged inputs must still dispatch");
}

#[test]
fn a_receipt_is_never_reusable_across_two_admissions_of_the_same_request() {
    let context = context();
    let first = admissible_for(&request(), &context).unwrap();
    let second = admissible_for(&request(), &context).unwrap();
    assert_eq!(first.digest(), second.digest());
    let binding = binding_for(&first);
    let approved = second.approve(binding.clone()).unwrap();
    assert_eq!(approved.receipt_id(), &binding.receipt_id);
}

#[test]
fn policy_source_bytes_do_not_fork_the_canonical_digest() {
    let bytes = "fn act(): pass";
    let material = PolicyMaterialRef {
        source_root: "/GitHub/nanohorizon".into(),
        repository_relative_path: "src/challenge/policy.py".into(),
        tracked_revision: "rev-2026-08-26-a1".into(),
        content_digest: digest_bytes(bytes.as_bytes()),
    };
    let mut with_bytes = context();
    with_bytes.policy.as_mut().unwrap().source_code = Some(bytes.into());
    with_bytes.policy.as_mut().unwrap().material = Some(material.clone());
    let mut without_bytes = context();
    without_bytes.policy.as_mut().unwrap().material = Some(material);
    let without = admissible_for(&request(), &without_bytes).unwrap();
    let with = admissible_for(&request(), &with_bytes).unwrap();
    assert_eq!(without.digest(), with.digest(), "in-memory policy bytes must not change the approved digest");
    assert_eq!(
        with.spec().recipe.policy.material.as_ref().unwrap().content_digest,
        digest_bytes(bytes.as_bytes())
    );
}

#[test]
fn approved_limits_remain_non_null_through_admission() {
    let admissible = admissible_for(&request(), &context()).unwrap();
    let limits = &admissible.spec().recipe.resource_limits;
    assert_eq!(limits.maximum_model_calls_per_rollout.0.get(), 10);
    assert_eq!(limits.maximum_steps_per_rollout.0.get(), 2_000);
    assert_eq!(limits.hard_total_cost_micros.as_micros(), 2_450_000);
    let approved = admissible.clone().approve(binding_for(&admissible)).unwrap();
    assert_eq!(approved.recipe().resource_limits.maximum_model_calls_per_rollout.0.get(), 10);
    assert_eq!(approved.digest(), admissible.digest());
}

// ---------------------------------------------------------------------------
// Durable records
// ---------------------------------------------------------------------------

#[test]
fn an_admitted_record_reopens_and_readmits_to_the_same_digest() {
    let context = context();
    let admissible = admissible_for(&request(), &context).unwrap();
    let (spec_json, digest) = admitted_record(&admissible);
    assert_eq!(digest, admissible.digest().as_str());
    assert!(json_equal(&spec_json, &admissible.spec().to_json()));

    let reopened = check_admitted_record("run-1", &spec_json, &digest).expect("a fresh record reopens");
    assert_eq!(&reopened, admissible.digest());
    // Padding round the recorded digest does not matter.
    let padded = format!("  {digest}\n");
    assert!(check_admitted_record("run-1", &spec_json, &padded).is_ok());

    // Reuse re-enters admission from the top and lands on the same digest.
    let readmitted = materialize(RecipeSource::Inline(admissible.spec().recipe.clone()), &context)
        .unwrap()
        .validate()
        .unwrap()
        .into_admissible()
        .unwrap();
    assert_eq!(readmitted.digest(), admissible.digest());
}

#[test]
fn an_approved_record_carries_its_receipt_and_reopens() {
    let context = context();
    let admissible = admissible_for(&request(), &context).unwrap();
    let binding = binding_for(&admissible);
    let approved = admissible.approve(binding).unwrap();
    let (spec_json, digest, receipt) = approved_record(&approved);
    assert_eq!(receipt, "receipt-1");
    assert_eq!(digest, approved.digest().as_str());
    assert!(check_admitted_record("run-1", &spec_json, &digest).is_ok());
}

#[test]
fn a_record_whose_specification_changed_is_refused() {
    let context = context();
    let admissible = admissible_for(&request(), &context).unwrap();
    let (spec_json, digest) = admitted_record(&admissible);
    let mut entries = match spec_json {
        JsonValue::Object(entries) => entries,
        _ => panic!("a specification is an object"),
    };
    entries[0].1 = text("catalog");
    let tampered = JsonValue::Object(entries);
    match check_admitted_record("run-7", &tampered, &digest) {
        Err(AdmittedRecordError::DigestMismatch { optimizer_run_id }) => assert_eq!(optimizer_run_id, "run-7"),
        other => panic!("expected a digest mismatch, got {other:?}"),
    }
}

#[test]
fn a_record_with_an_unreadable_digest_is_refused() {
    let context = context();
    let admissible = admissible_for(&request(), &context).unwrap();
    let (spec_json, _) = admitted_record(&admissible);
    assert!(matches!(
        check_admitted_record("run-1", &spec_json, "md5:abc"),
        Err(AdmittedRecordError::UnreadableDigest(_))
    ));
    let short = format!("sha256:{}", "a".repeat(12));
    assert!(matches!(
        check_admitted_record("run-1", &spec_json, &short),
        Err(AdmittedRecordError::UnreadableDigest(_))
    ));
}

#[test]
fn host_fields_are_removed_from_a_tool_body() {
    let body = object(vec![
        ("policyNamespace", text("nanohorizon")),
        ("seeds", JsonValue::Array(vec![number(780005)])),
        ("sessionRef", text("330175fd-not-a-spec-field")),
        ("openVisual", JsonValue::Bool(true)),
        ("idempotency_key", text("k-1")),
    ]);
    let request = tool_arguments_body(body);
    assert!(json_equal(
        &request,
        &object(vec![
            ("policyNamespace", text("nanohorizon")),
            ("seeds", JsonValue::Array(vec![number(780005)])),
        ])
    ));
}

#[test]
fn a_wrapped_request_is_unwrapped_before_host_fields_are_removed() {
    let body = object(vec![
        ("sessionRef", text("outer")),
        (
            "request",
            object(vec![
                ("policyName", text("glm-5.3-flash")),
                ("session_ref", text("inner")),
                ("request", text("nested")),
            ]),
        ),
    ]);
    assert!(json_equal(&tool_arguments_body(body), &object(vec![("policyName", text("glm-5.3-flash"))])));
    // A body that is not an object passes through unchanged.
    assert!(json_equal(&tool_arguments_body(texts(&["a"])), &texts(&["a"])));
}

#[test]
fn an_admitted_execution_starts_with_every_rollout_queued() {
    let progress = RunProgress::for_admitted_execution(3);
    assert_eq!(progress.state, RunState::Starting);
    assert_eq!(progress.rollouts.len(), 3);
    assert!(progress
        .rollouts
        .iter()
        .enumerate()
        .all(|(i, (index, record))| *index == i as u32
            && matches!(record.state, Some(RolloutStateHolder(RolloutState::Queued)))));
    assert_eq!(progress.in_flight(), 3);
    assert!(!progress.credential_revocation_confirmed);
}

#[test]
fn a_pre_dispatch_abort_leaves_no_rollout_in_flight() {
    let mut progress = RunProgress::for_admitted_execution(2);
    progress.transition_run(RunState::Running).unwrap();
    progress.transition_rollout(0, RolloutState::Starting).unwrap();
    progress.fail_pre_dispatch().unwrap();
    assert_eq!(progress.state, RunState::Failed);
    assert_eq!(progress.in_flight(), 0);
    assert_eq!(progress.rollouts.len(), 2);
}

#[test]
fn the_inline_start_approval_is_capped_by_the_specification() {
    let admissible = admissible_for(&request(), &context()).unwrap();
    let approval = inline_start_approval(&admissible, "sess-42", &usd(2_450_000));
    assert_eq!(approval.operation, "optimizer.evaluation.inline.start");
    assert_eq!(approval.requesting_agent, "Agent session sess-42");
    assert_eq!(approval.cap.max_cost_usd_micros, Some(2_450_000));
    assert_eq!(approval.cap.max_rollouts, Some(5));
    assert_eq!(approval.proposer_model, "z-ai/glm-5.3-flash");
    assert_eq!(approval.credential_names, vec!["openrouter:workshop_secrets_proxy".to_string()]);
    assert_eq!(approval.preparation_digest, admissible.digest().as_str());
    assert!(json_equal(&approval.parameters, &admissible.approval_disclosure(&usd(2_450_000))));
}

#[test]
fn the_provider_use_policy_follows_the_specification() {
    let admissible = admissible_for(&request(), &context()).unwrap();
    let policy = admissible.spec().provider_use_policy();
    assert_eq!(policy.operations, vec!["chat.completions".to_string()]);
    assert_eq!(policy.models, vec!["z-ai/glm-5.3-flash".to_string()]);
    assert_eq!(policy.max_cost_usd_micros, 2_450_000);
    assert_eq!(policy.lifetime_seconds, 900);
    assert_eq!(policy.max_calls, 50);
}

#[test]
fn completed_is_reached_only_through_settle() {
    let mut progress = RunProgress::for_admitted_execution(1);
    progress.transition_run(RunState::Running).unwrap();
    assert!(progress.transition_run(RunState::Completed).is_err());
    assert_eq!(progress.state, RunState::Running);
    // The other ways out of a running run stay open.
    progress.transition_run(RunState::Degraded).unwrap();
    assert_eq!(progress.state, RunState::Degraded);
}

#[test]
fn canonical_text_sorts_keys_and_folds_negative_zero() {
    let value = object(vec![
        ("b", number(1)),
        ("a", JsonValue::Array(vec![number(2), number(1)])),
        ("c", object(vec![("z", JsonValue::Null), ("y", JsonValue::Bool(true))])),
        ("f", JsonValue::Number(JsonNumber::Decimal("2.0".to_string()))),
        ("g", JsonValue::Number(JsonNumber::Decimal("-0.0".to_string()))),
    ]);
    assert_eq!(
        CanonicalJson::new(value).to_canonical_string(),
        r#"{"a":[2,1],"b":1,"c":{"y":true,"z":null},"f":2.0,"g":0}"#
    );
    let zero = object(vec![("g", JsonValue::Number(JsonNumber::Decimal("0.0".to_string())))]);
    let negative_zero = object(vec![("g", JsonValue::Number(JsonNumber::Decimal("-0.0".to_string())))]);
    assert_eq!(CanonicalJson::new(zero).digest(), CanonicalJson::new(negative_zero).digest());
}

#[test]
fn a_protocol_parses_from_its_own_text_and_nothing_else() {
    let protocol = LiveEvalProtocol::SynthContainerLiveEvalV1;
    assert_eq!(LiveEvalProtocol::parse(protocol.as_str()), Some(protocol));
    assert_eq!(
        LiveEvalProtocol::parse("  synth.container.live-eval.v1\n"),
        Some(protocol)
    );
    assert_eq!(LiveEvalProtocol::parse("synth.container.live-eval.v2"), None);
}

#[test]
fn usage_evidence_is_token_and_cost_reporting() {
    let record = RolloutRecord {
        state: Some(RolloutStateHolder(RolloutState::Completed)),
        rollout_id: Some(RolloutId::new("rollout-0").unwrap()),
        reward: Some(0.4f64.to_bits()),
        trace_ref: Some("trace-0".to_string()),
        cost_micros: None,
        total_tokens: Some(4_096),
        ..RolloutRecord::default()
    };
    let requirements = EvidenceRequirements {
        requires_reward: true,
        requires_trace: true,
        requires_usage: true,
    };
    assert_eq!(record.evidence_gaps(requirements), vec![EvidenceGap::CostMissing]);
    assert_eq!(EvidenceGap::CostMissing.as_str(), "cost_missing");
    let no_usage = EvidenceRequirements { requires_usage: false, ..requirements };
    assert!(record.evidence_gaps(no_usage).is_empty());
    let bare = RolloutRecord {
        state: Some(RolloutStateHolder(RolloutState::Completed)),
        rollout_id: Some(RolloutId::new("rollout-1").unwrap()),
        reward: Some(0.4f64.to_bits()),
        trace_ref: Some("trace-1".to_string()),
        ..RolloutRecord::default()
    };
    assert_eq!(
        bare.evidence_gaps(requirements),
        vec![EvidenceGap::UsageMissing, EvidenceGap::CostMissing]
    );
}
