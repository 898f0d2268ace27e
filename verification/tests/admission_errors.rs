use synth_desktop::admission::error::{AdmissionError, AdmissionErrorCode, AdmissionSubject};
use synth_desktop::admission::ids::{ContainerId, ModelId, ProviderId};
use synth_desktop::json::{JsonNumber, JsonValue};

fn text(s: &str) -> JsonValue {
    JsonValue::String(s.to_string())
}

fn at<'a>(value: &'a JsonValue, key: &str) -> &'a JsonValue {
    value.get(key).unwrap_or_else(|| panic!("missing key {key}"))
}

const CODES: [AdmissionErrorCode; 18] = [
    AdmissionErrorCode::CatalogRecipeNotFound,
    AdmissionErrorCode::ContainerNotFound,
    AdmissionErrorCode::ContainerSelectionAmbiguous,
    AdmissionErrorCode::ContainerUnhealthy,
    AdmissionErrorCode::ContainerProtocolUnsupported,
    AdmissionErrorCode::EvaluatorNotDeclared,
    AdmissionErrorCode::ScoringContractInvalid,
    AdmissionErrorCode::PolicyNotFound,
    AdmissionErrorCode::PolicyRevisionUnresolved,
    AdmissionErrorCode::PolicyConfigurationInvalid,
    AdmissionErrorCode::ModelUnsupported,
    AdmissionErrorCode::SeedControlUnsupported,
    AdmissionErrorCode::RequestedLimitUnsupported,
    AdmissionErrorCode::CostCeilingRequired,
    AdmissionErrorCode::CredentialRouteUnavailable,
    AdmissionErrorCode::OutputContractUnsupported,
    AdmissionErrorCode::ExecutionSpecInvalid,
    AdmissionErrorCode::ExecutionSpecDigestMismatch,
];

#[test]
fn every_code_has_a_distinct_stable_spelling() {
    let mut spellings: Vec<&str> = CODES.iter().map(|code| code.as_str()).collect();
    spellings.sort_unstable();
    let count = spellings.len();
    spellings.dedup();
    assert_eq!(spellings.len(), count, "codes must be distinct");
    // The wire spelling is the code as serialized.
    for code in CODES {
        let encoded = AdmissionError::new(code, "m".into(), "r".into()).to_json();
        assert_eq!(at(&encoded, "code"), &text(code.as_str()));
        assert!(code.as_str().chars().all(|c| c.is_ascii_lowercase() || c == '_'));
    }
}

#[test]
fn a_missing_evaluator_never_reports_a_missing_recipe() {
    let container = ContainerId::new("nanohorizon-craftax").unwrap();
    let error = AdmissionError::evaluator_not_declared(&container);
    assert_eq!(error.code, AdmissionErrorCode::EvaluatorNotDeclared);
    assert_eq!(error.subject, AdmissionSubject::Evaluator);
    assert!(!error.remediation.to_lowercase().contains("recipe"));
    assert!(error.remediation.contains("declare"));
}

#[test]
fn no_remediation_tells_the_caller_to_try_another_recipe() {
    let container = ContainerId::new("c").unwrap();
    let provider = ProviderId::new("openrouter").unwrap();
    let model = ModelId::new("z-ai/glm-5.3-flash").unwrap();
    let errors = vec![
        AdmissionError::container_not_found("c"),
        AdmissionError::container_unhealthy(&container, "unhealthy"),
        AdmissionError::evaluator_not_declared(&container),
        AdmissionError::model_unsupported(&provider, &model, &container),
        AdmissionError::seed_control_unsupported(&container),
        AdmissionError::requested_limit_unsupported("maximum_rollouts", 5, Some(2)),
        AdmissionError::cost_ceiling_required(),
    ];
    for error in errors {
        let remediation = error.remediation.to_lowercase();
        assert!(
            !remediation.contains("try another recipe"),
            "generic fallback advice leaked into {}",
            error.code.as_str()
        );
    }
}

#[test]
fn ambiguity_carries_the_candidates_as_data() {
    let candidates = vec![
        ContainerId::new("craftax-a").unwrap(),
        ContainerId::new("craftax-b").unwrap(),
    ];
    let error = AdmissionError::container_selection_ambiguous(&candidates);
    assert_eq!(error.code, AdmissionErrorCode::ContainerSelectionAmbiguous);
    assert_eq!(
        at(&error.context, "candidates"),
        &JsonValue::Array(vec![text("craftax-a"), text("craftax-b")])
    );
    assert_eq!(error.message, "2 registered containers match this request; admission will not choose one");
}

#[test]
fn an_unsupported_limit_reports_the_ceiling_rather_than_clamping() {
    let error =
        AdmissionError::requested_limit_unsupported("maximum_model_calls_per_rollout", 10, Some(4));
    assert_eq!(at(&error.context, "requested"), &JsonValue::Number(JsonNumber::Unsigned(10)));
    assert_eq!(at(&error.context, "maximumSupported"), &JsonValue::Number(JsonNumber::Unsigned(4)));
    assert!(error.remediation.contains("will not clamp"));
    assert_eq!(
        error.message,
        "requested maximum_model_calls_per_rollout of 10 exceeds the supported maximum of 4"
    );
}

#[test]
fn an_error_without_facts_serializes_without_context() {
    let error = AdmissionError::cost_ceiling_required();
    let encoded = error.to_json();
    assert!(encoded.get("context").is_none());
    assert_eq!(at(&encoded, "subject"), &text("limits"));
    assert_eq!(
        error.to_text(),
        "cost_ceiling_required: this specification spends provider credit and declares no cost ceiling"
    );
}

#[test]
fn every_code_names_its_subject() {
    assert_eq!(AdmissionErrorCode::ContainerUnhealthy.subject(), AdmissionSubject::Container);
    assert_eq!(AdmissionErrorCode::PolicyRevisionUnresolved.subject(), AdmissionSubject::Policy);
    assert_eq!(AdmissionErrorCode::ExecutionSpecDigestMismatch.subject().as_str(), "specification");
    assert_eq!(AdmissionErrorCode::CostCeilingRequired.subject(), AdmissionSubject::Limits);
}

#[test]
fn a_protocol_refusal_names_both_protocols() {
    let container = ContainerId::new("c").unwrap();
    let error = AdmissionError::container_protocol_unsupported(&container, "v1", Some("v2"));
    assert_eq!(error.message, "container `c` advertises protocol `v2`, not `v1`");
    let silent = AdmissionError::container_protocol_unsupported(&container, "v1", None);
    assert_eq!(silent.message, "container `c` advertises no live-eval protocol");
    assert_eq!(at(&silent.context, "advertisedProtocol"), &JsonValue::Null);
}

#[test]
fn every_subject_has_a_distinct_spelling() {
    let subjects = [
        AdmissionSubject::CatalogRecipe,
        AdmissionSubject::Container,
        AdmissionSubject::Evaluator,
        AdmissionSubject::Policy,
        AdmissionSubject::Model,
        AdmissionSubject::Seeds,
        AdmissionSubject::Limits,
        AdmissionSubject::Credentials,
        AdmissionSubject::OutputContract,
        AdmissionSubject::Specification,
    ];
    let mut spellings: Vec<&str> = subjects.iter().map(|s| s.as_str()).collect();
    assert_eq!(spellings[0], "catalog_recipe");
    assert_eq!(spellings[8], "output_contract");
    spellings.sort_unstable();
    spellings.dedup();
    assert_eq!(spellings.len(), subjects.len());
}
