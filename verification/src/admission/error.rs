//! Typed admission errors with stable public codes.
//!
//! The code is the signal: a caller branches on it without parsing prose. Each
//! error names the component that is actually missing and carries exactly one
//! remediation for that component, plus the structured facts a caller needs.

use crate::admission::ids::{ContainerId, EvaluatorId, ModelId, ProviderId, RecipeId};
use crate::json::{
    copy_json, entries_of, lemma_entries_of, object1, object2, object3, object_of, optional_text,
    text_array, text_value, text_view, count_view, unsigned_value, JsonValue, JsonView, NumberView,
};
use crate::text::{concat, concat3, decimal, u64_to_string};
use vstd::prelude::*;

verus! {

/// The stable public vocabulary of admission failures.
#[derive(Clone, Copy, Debug, PartialEq, Eq, Structural, Hash, PartialOrd, Ord)]
pub enum AdmissionErrorCode {
    CatalogRecipeNotFound,
    ContainerNotFound,
    ContainerSelectionAmbiguous,
    ContainerUnhealthy,
    ContainerProtocolUnsupported,
    EvaluatorNotDeclared,
    ScoringContractInvalid,
    PolicyNotFound,
    PolicyRevisionUnresolved,
    PolicyConfigurationInvalid,
    ModelUnsupported,
    SeedControlUnsupported,
    RequestedLimitUnsupported,
    CostCeilingRequired,
    CredentialRouteUnavailable,
    OutputContractUnsupported,
    ExecutionSpecInvalid,
    ExecutionSpecDigestMismatch,
}

/// The part of a specification a caller has to change.
#[derive(Clone, Copy, Debug, PartialEq, Eq, Structural)]
pub enum AdmissionSubject {
    CatalogRecipe,
    Container,
    Evaluator,
    Policy,
    Model,
    Seeds,
    Limits,
    Credentials,
    OutputContract,
    Specification,
}

/// The wire spelling of a code.
pub open spec fn code_text(code: AdmissionErrorCode) -> Seq<char> {
    match code {
        AdmissionErrorCode::CatalogRecipeNotFound => "catalog_recipe_not_found"@,
        AdmissionErrorCode::ContainerNotFound => "container_not_found"@,
        AdmissionErrorCode::ContainerSelectionAmbiguous => "container_selection_ambiguous"@,
        AdmissionErrorCode::ContainerUnhealthy => "container_unhealthy"@,
        AdmissionErrorCode::ContainerProtocolUnsupported => "container_protocol_unsupported"@,
        AdmissionErrorCode::EvaluatorNotDeclared => "evaluator_not_declared"@,
        AdmissionErrorCode::ScoringContractInvalid => "scoring_contract_invalid"@,
        AdmissionErrorCode::PolicyNotFound => "policy_not_found"@,
        AdmissionErrorCode::PolicyRevisionUnresolved => "policy_revision_unresolved"@,
        AdmissionErrorCode::PolicyConfigurationInvalid => "policy_configuration_invalid"@,
        AdmissionErrorCode::ModelUnsupported => "model_unsupported"@,
        AdmissionErrorCode::SeedControlUnsupported => "seed_control_unsupported"@,
        AdmissionErrorCode::RequestedLimitUnsupported => "requested_limit_unsupported"@,
        AdmissionErrorCode::CostCeilingRequired => "cost_ceiling_required"@,
        AdmissionErrorCode::CredentialRouteUnavailable => "credential_route_unavailable"@,
        AdmissionErrorCode::OutputContractUnsupported => "output_contract_unsupported"@,
        AdmissionErrorCode::ExecutionSpecInvalid => "execution_spec_invalid"@,
        AdmissionErrorCode::ExecutionSpecDigestMismatch => "execution_spec_digest_mismatch"@,
    }
}

/// Which subject a code belongs to.
pub open spec fn subject_of(code: AdmissionErrorCode) -> AdmissionSubject {
    match code {
        AdmissionErrorCode::CatalogRecipeNotFound => AdmissionSubject::CatalogRecipe,
        AdmissionErrorCode::ContainerNotFound | AdmissionErrorCode::ContainerSelectionAmbiguous
        | AdmissionErrorCode::ContainerUnhealthy
        | AdmissionErrorCode::ContainerProtocolUnsupported => AdmissionSubject::Container,
        AdmissionErrorCode::EvaluatorNotDeclared | AdmissionErrorCode::ScoringContractInvalid => {
            AdmissionSubject::Evaluator
        },
        AdmissionErrorCode::PolicyNotFound | AdmissionErrorCode::PolicyRevisionUnresolved
        | AdmissionErrorCode::PolicyConfigurationInvalid => AdmissionSubject::Policy,
        AdmissionErrorCode::ModelUnsupported => AdmissionSubject::Model,
        AdmissionErrorCode::SeedControlUnsupported => AdmissionSubject::Seeds,
        AdmissionErrorCode::RequestedLimitUnsupported | AdmissionErrorCode::CostCeilingRequired => {
            AdmissionSubject::Limits
        },
        AdmissionErrorCode::CredentialRouteUnavailable => AdmissionSubject::Credentials,
        AdmissionErrorCode::OutputContractUnsupported => AdmissionSubject::OutputContract,
        AdmissionErrorCode::ExecutionSpecInvalid
        | AdmissionErrorCode::ExecutionSpecDigestMismatch => AdmissionSubject::Specification,
    }
}

/// The wire spelling of a subject.
pub open spec fn subject_text(subject: AdmissionSubject) -> Seq<char> {
    match subject {
        AdmissionSubject::CatalogRecipe => "catalog_recipe"@,
        AdmissionSubject::Container => "container"@,
        AdmissionSubject::Evaluator => "evaluator"@,
        AdmissionSubject::Policy => "policy"@,
        AdmissionSubject::Model => "model"@,
        AdmissionSubject::Seeds => "seeds"@,
        AdmissionSubject::Limits => "limits"@,
        AdmissionSubject::Credentials => "credentials"@,
        AdmissionSubject::OutputContract => "output_contract"@,
        AdmissionSubject::Specification => "specification"@,
    }
}

/// No two error codes share a spelling.
pub proof fn law_error_codes_have_distinct_spellings(a: AdmissionErrorCode, b: AdmissionErrorCode)
    requires
        a != b,
    ensures
        code_text(a) != code_text(b),
{
    reveal_strlit("catalog_recipe_not_found");
    reveal_strlit("container_not_found");
    reveal_strlit("container_selection_ambiguous");
    reveal_strlit("container_unhealthy");
    reveal_strlit("container_protocol_unsupported");
    reveal_strlit("evaluator_not_declared");
    reveal_strlit("scoring_contract_invalid");
    reveal_strlit("policy_not_found");
    reveal_strlit("policy_revision_unresolved");
    reveal_strlit("policy_configuration_invalid");
    reveal_strlit("model_unsupported");
    reveal_strlit("seed_control_unsupported");
    reveal_strlit("requested_limit_unsupported");
    reveal_strlit("cost_ceiling_required");
    reveal_strlit("credential_route_unavailable");
    reveal_strlit("output_contract_unsupported");
    reveal_strlit("execution_spec_invalid");
    reveal_strlit("execution_spec_digest_mismatch");
    let (x, y) = (code_text(a), code_text(b));
    assert(x.len() != y.len() || x[0] != y[0] || x[1] != y[1] || x[10] != y[10]);
}

/// No two subjects share a spelling.
pub proof fn law_subjects_have_distinct_spellings(a: AdmissionSubject, b: AdmissionSubject)
    requires
        a != b,
    ensures
        subject_text(a) != subject_text(b),
{
    reveal_strlit("catalog_recipe");
    reveal_strlit("container");
    reveal_strlit("evaluator");
    reveal_strlit("policy");
    reveal_strlit("model");
    reveal_strlit("seeds");
    reveal_strlit("limits");
    reveal_strlit("credentials");
    reveal_strlit("output_contract");
    reveal_strlit("specification");
    let (x, y) = (subject_text(a), subject_text(b));
    assert(x.len() != y.len() || x[0] != y[0]);
}

impl AdmissionErrorCode {
    pub fn as_str(self) -> (r: &'static str)
        ensures
            r@ == code_text(self),
    {
        match self {
            AdmissionErrorCode::CatalogRecipeNotFound => "catalog_recipe_not_found",
            AdmissionErrorCode::ContainerNotFound => "container_not_found",
            AdmissionErrorCode::ContainerSelectionAmbiguous => "container_selection_ambiguous",
            AdmissionErrorCode::ContainerUnhealthy => "container_unhealthy",
            AdmissionErrorCode::ContainerProtocolUnsupported => "container_protocol_unsupported",
            AdmissionErrorCode::EvaluatorNotDeclared => "evaluator_not_declared",
            AdmissionErrorCode::ScoringContractInvalid => "scoring_contract_invalid",
            AdmissionErrorCode::PolicyNotFound => "policy_not_found",
            AdmissionErrorCode::PolicyRevisionUnresolved => "policy_revision_unresolved",
            AdmissionErrorCode::PolicyConfigurationInvalid => "policy_configuration_invalid",
            AdmissionErrorCode::ModelUnsupported => "model_unsupported",
            AdmissionErrorCode::SeedControlUnsupported => "seed_control_unsupported",
            AdmissionErrorCode::RequestedLimitUnsupported => "requested_limit_unsupported",
            AdmissionErrorCode::CostCeilingRequired => "cost_ceiling_required",
            AdmissionErrorCode::CredentialRouteUnavailable => "credential_route_unavailable",
            AdmissionErrorCode::OutputContractUnsupported => "output_contract_unsupported",
            AdmissionErrorCode::ExecutionSpecInvalid => "execution_spec_invalid",
            AdmissionErrorCode::ExecutionSpecDigestMismatch => "execution_spec_digest_mismatch",
        }
    }

    /// Which part of the specification the caller has to change.
    pub fn subject(self) -> (r: AdmissionSubject)
        ensures
            r == subject_of(self),
    {
        match self {
            AdmissionErrorCode::CatalogRecipeNotFound => AdmissionSubject::CatalogRecipe,
            AdmissionErrorCode::ContainerNotFound
            | AdmissionErrorCode::ContainerSelectionAmbiguous
            | AdmissionErrorCode::ContainerUnhealthy
            | AdmissionErrorCode::ContainerProtocolUnsupported => AdmissionSubject::Container,
            AdmissionErrorCode::EvaluatorNotDeclared
            | AdmissionErrorCode::ScoringContractInvalid => AdmissionSubject::Evaluator,
            AdmissionErrorCode::PolicyNotFound | AdmissionErrorCode::PolicyRevisionUnresolved
            | AdmissionErrorCode::PolicyConfigurationInvalid => AdmissionSubject::Policy,
            AdmissionErrorCode::ModelUnsupported => AdmissionSubject::Model,
            AdmissionErrorCode::SeedControlUnsupported => AdmissionSubject::Seeds,
            AdmissionErrorCode::RequestedLimitUnsupported
            | AdmissionErrorCode::CostCeilingRequired => AdmissionSubject::Limits,
            AdmissionErrorCode::CredentialRouteUnavailable => AdmissionSubject::Credentials,
            AdmissionErrorCode::OutputContractUnsupported => AdmissionSubject::OutputContract,
            AdmissionErrorCode::ExecutionSpecInvalid
            | AdmissionErrorCode::ExecutionSpecDigestMismatch => AdmissionSubject::Specification,
        }
    }
}

impl AdmissionSubject {
    pub fn as_str(self) -> (r: &'static str)
        ensures
            r@ == subject_text(self),
    {
        match self {
            AdmissionSubject::CatalogRecipe => "catalog_recipe",
            AdmissionSubject::Container => "container",
            AdmissionSubject::Evaluator => "evaluator",
            AdmissionSubject::Policy => "policy",
            AdmissionSubject::Model => "model",
            AdmissionSubject::Seeds => "seeds",
            AdmissionSubject::Limits => "limits",
            AdmissionSubject::Credentials => "credentials",
            AdmissionSubject::OutputContract => "output_contract",
            AdmissionSubject::Specification => "specification",
        }
    }
}


/// A refusal: the code a caller branches on, the subject to change, a
/// human-readable statement, exactly one remediation, and the structured facts
/// behind it (`Null` when there are none).
#[derive(Clone, Debug, PartialEq)]
pub struct AdmissionError {
    pub code: AdmissionErrorCode,
    pub subject: AdmissionSubject,
    pub message: String,
    pub remediation: String,
    pub context: JsonValue,
}

/// An error with this code, its own subject, and these texts and facts.
pub open spec fn error_is(
    e: AdmissionError,
    code: AdmissionErrorCode,
    message: Seq<char>,
    remediation: Seq<char>,
    context: JsonView,
) -> bool {
    &&& e.code == code
    &&& e.subject == subject_of(code)
    &&& e.message@ == message
    &&& e.remediation@ == remediation
    &&& e.context@ == context
}

/// An optional unsigned number in a context object: `null` when absent.
pub open spec fn optional_count_view(n: Option<u64>) -> JsonView {
    match n {
        Some(k) => JsonView::Number(NumberView::Unsigned(k)),
        None => JsonView::Null,
    }
}

/// The serialized form of an error: its code, subject, message and remediation,
/// then its context unless that is `null`.
pub open spec fn error_json(
    code: AdmissionErrorCode,
    subject: AdmissionSubject,
    message: Seq<char>,
    remediation: Seq<char>,
    context: JsonView,
) -> JsonView {
    let head = seq![
        ("code"@, text_view(code_text(code))),
        ("subject"@, text_view(subject_text(subject))),
        ("message"@, text_view(message)),
        ("remediation"@, text_view(remediation)),
    ];
    if context == JsonView::Null {
        JsonView::Object(head)
    } else {
        JsonView::Object(head.push(("context"@, context)))
    }
}

impl AdmissionError {
    /// An error whose subject follows from its code, with no context.
    pub fn new(code: AdmissionErrorCode, message: String, remediation: String) -> (r: Self)
        ensures
            error_is(r, code, message@, remediation@, JsonView::Null),
    {
        AdmissionError {
            code,
            subject: code.subject(),
            message,
            remediation,
            context: JsonValue::Null,
        }
    }

    /// The same error carrying `context` as its structured facts.
    pub fn with_context(self, context: JsonValue) -> (r: Self)
        ensures
            r.code == self.code,
            r.subject == self.subject,
            r.message@ == self.message@,
            r.remediation@ == self.remediation@,
            r.context@ == context@,
    {
        let mut out = self;
        out.context = context;
        out
    }

    /// The error as a JSON object.
    pub fn to_json(&self) -> (r: JsonValue)
        ensures
            r@ == error_json(self.code, self.subject, self.message@, self.remediation@, self.context@),
    {
        let mut entries: Vec<(String, JsonValue)> = Vec::new();
        entries.push((String::from_str("code"), text_value(self.code.as_str())));
        entries.push((String::from_str("subject"), text_value(self.subject.as_str())));
        entries.push((String::from_str("message"), text_value(self.message.as_str())));
        entries.push((String::from_str("remediation"), text_value(self.remediation.as_str())));
        let is_null = match &self.context {
            JsonValue::Null => true,
            _ => false,
        };
        if !is_null {
            entries.push((String::from_str("context"), copy_json(&self.context)));
        }
        proof {
            lemma_entries_of(entries@);
        }
        let r = object_of(entries);
        proof {
            let head = seq![
                ("code"@, text_view(code_text(self.code))),
                ("subject"@, text_view(subject_text(self.subject))),
                ("message"@, text_view(self.message@)),
                ("remediation"@, text_view(self.remediation@)),
            ];
            if is_null {
                assert(entries_of(entries@) =~= head);
            } else {
                assert(entries_of(entries@) =~= head.push(("context"@, self.context@)));
            }
        }
        r
    }
}


/// What an error says: its code, texts and facts.
pub struct ErrorView {
    pub code: AdmissionErrorCode,
    pub message: Seq<char>,
    pub remediation: Seq<char>,
    pub context: JsonView,
}

pub open spec fn view_of(e: AdmissionError) -> ErrorView {
    ErrorView { code: e.code, message: e.message@, remediation: e.remediation@, context: e.context@ }
}

/// An optional text as JSON: `null` when absent.
pub open spec fn optional_text_json(s: Option<Seq<char>>) -> JsonView {
    match s {
        Some(t) => JsonView::Text(t),
        None => JsonView::Null,
    }
}

pub open spec fn optional_text_of_str(s: Option<&str>) -> Option<Seq<char>> {
    match s {
        Some(t) => Some(t@),
        None => None,
    }
}

pub open spec fn optional_id_text(id: Option<&EvaluatorId>) -> Option<Seq<char>> {
    match id {
        Some(t) => Some(t@),
        None => None,
    }
}

pub open spec fn catalog_recipe_not_found_view(recipe_id: Seq<char>, searched: u64) -> ErrorView {
    ErrorView {
        code: AdmissionErrorCode::CatalogRecipeNotFound,
        message: "no catalog recipe is registered under `"@ + recipe_id + "`"@,
        remediation: "Correct the recipe id, or drop the catalog reference and submit an inline specification instead \u{2014} inline admission does not require a catalog entry."@,
        context: JsonView::Object(
                    seq![("recipeId"@, text_view(recipe_id)), ("recipesSearched"@, count_view(searched))],
                ),
    }
}

pub open spec fn container_not_found_view(requested: Seq<char>) -> ErrorView {
    ErrorView {
        code: AdmissionErrorCode::ContainerNotFound,
        message: "no registered container matches `"@ + requested + "`"@,
        remediation: "Register the container, or name one that container discovery already returns."@,
        context: JsonView::Object(seq![("requested"@, text_view(requested))]),
    }
}

pub open spec fn container_selection_ambiguous_view(candidates: Seq<Seq<char>>) -> ErrorView {
    ErrorView {
        code: AdmissionErrorCode::ContainerSelectionAmbiguous,
        message: decimal(candidates.len())
                    + " registered containers match this request; admission will not choose one"@,
        remediation: "Name the exact container id in the request."@,
        context: JsonView::Object(
                    seq![("candidates"@, JsonView::Array(Seq::new(candidates.len(), |k: int| text_view(candidates[k]))))],
                ),
    }
}

pub open spec fn container_unhealthy_view(container: Seq<char>, observed: Seq<char>) -> ErrorView {
    ErrorView {
        code: AdmissionErrorCode::ContainerUnhealthy,
        message: "container `"@ + container + "` reported health `"@ + observed + "`"@,
        remediation: "Bring the container back to a ready state, then re-run discovery so the specification pins a healthy registration."@,
        context: JsonView::Object(
                    seq![("containerId"@, text_view(container)), ("observedHealth"@, text_view(observed))],
                ),
    }
}

pub open spec fn container_protocol_unsupported_view(container: Seq<char>, required: Seq<char>, advertised: Option<Seq<char>>) -> ErrorView {
    ErrorView {
        code: AdmissionErrorCode::ContainerProtocolUnsupported,
        message: match advertised {
                    Some(a) => "container `"@ + container + "` advertises protocol `"@ + a
                        + "`, not `"@ + required + "`"@,
                    None => "container `"@ + container + "` advertises no live-eval protocol"@,
                },
        remediation: "Have the container advertise `"@ + required
                    + "` in its capability block, or select a container that already does."@,
        context: JsonView::Object(
                    seq![
                        ("containerId"@, text_view(container)),
                        ("requiredProtocol"@, text_view(required)),
                        ("advertisedProtocol"@, optional_text_json(advertised)),
                    ],
                ),
    }
}

pub open spec fn evaluator_not_declared_view(container: Seq<char>) -> ErrorView {
    ErrorView {
        code: AdmissionErrorCode::EvaluatorNotDeclared,
        message: "container `"@ + container
                    + "` declares no evaluator, so admission has no scoring semantics to pin"@,
        remediation: "Have the container declare its evaluator id, version, and scoring digest in its live-eval capability block, or supply an explicit evaluator in the request."@,
        context: JsonView::Object(seq![("containerId"@, text_view(container))]),
    }
}

pub open spec fn scoring_contract_invalid_view(container: Seq<char>, evaluator: Option<Seq<char>>, detail: Seq<char>) -> ErrorView {
    ErrorView {
        code: AdmissionErrorCode::ScoringContractInvalid,
        message: "container `"@ + container + "` declared an unusable scoring contract: "@ + detail,
        remediation: "Correct the container's scoring declaration so it carries a well-formed evaluator id, version, and scoring digest."@,
        context: JsonView::Object(
                    seq![
                        ("containerId"@, text_view(container)),
                        ("evaluatorId"@, optional_text_json(evaluator)),
                        ("detail"@, text_view(detail)),
                    ],
                ),
    }
}

pub open spec fn policy_not_found_view(namespace: Seq<char>, name: Seq<char>) -> ErrorView {
    ErrorView {
        code: AdmissionErrorCode::PolicyNotFound,
        message: "no policy `"@ + namespace + "/"@ + name + "` is available to this session"@,
        remediation: "Correct the policy namespace and name, or declare the policy in the session workspace before requesting it."@,
        context: JsonView::Object(
                    seq![("namespace"@, text_view(namespace)), ("name"@, text_view(name))],
                ),
    }
}

pub open spec fn policy_revision_unresolved_view(namespace: Seq<char>, name: Seq<char>) -> ErrorView {
    ErrorView {
        code: AdmissionErrorCode::PolicyRevisionUnresolved,
        message: "policy `"@ + namespace + "/"@ + name
                    + "` resolved to no immutable revision, so it cannot be pinned"@,
        remediation: "Resolve the policy to an immutable revision \u{2014} commit or version the policy source \u{2014} before requesting execution."@,
        context: JsonView::Object(
                    seq![("namespace"@, text_view(namespace)), ("name"@, text_view(name))],
                ),
    }
}

pub open spec fn policy_configuration_invalid_view(namespace: Seq<char>, name: Seq<char>, detail: Seq<char>) -> ErrorView {
    ErrorView {
        code: AdmissionErrorCode::PolicyConfigurationInvalid,
        message: "policy `"@ + namespace + "/"@ + name + "` configuration is invalid: "@ + detail,
        remediation: "Correct the offending configuration key, or remove the override so the policy declaration's own value is used."@,
        context: JsonView::Object(
                    seq![
                        ("namespace"@, text_view(namespace)),
                        ("name"@, text_view(name)),
                        ("detail"@, text_view(detail)),
                    ],
                ),
    }
}

pub open spec fn model_unsupported_view(provider: Seq<char>, model: Seq<char>, container: Seq<char>) -> ErrorView {
    ErrorView {
        code: AdmissionErrorCode::ModelUnsupported,
        message: "container `"@ + container + "` does not advertise support for `"@ + provider
                    + "` model `"@ + model + "`"@,
        remediation: "Request a model the container advertises, or have the container advertise this one. Admission will not substitute a different model."@,
        context: JsonView::Object(
                    seq![
                        ("providerId"@, text_view(provider)),
                        ("modelId"@, text_view(model)),
                        ("containerId"@, text_view(container)),
                    ],
                ),
    }
}

pub open spec fn seed_control_unsupported_view(container: Seq<char>) -> ErrorView {
    ErrorView {
        code: AdmissionErrorCode::SeedControlUnsupported,
        message: "container `"@ + container + "` does not accept caller-supplied seeds"@,
        remediation: "Drop the explicit seeds only if the request genuinely does not need them; otherwise select a container that advertises seed control. Admission will not silently substitute its own seeds."@,
        context: JsonView::Object(seq![("containerId"@, text_view(container))]),
    }
}

pub open spec fn requested_limit_unsupported_view(limit: Seq<char>, requested: u64, maximum_supported: Option<u64>) -> ErrorView {
    ErrorView {
        code: AdmissionErrorCode::RequestedLimitUnsupported,
        message: match maximum_supported {
                    Some(m) => "requested "@ + limit + " of "@ + decimal(requested as nat)
                        + " exceeds the supported maximum of "@ + decimal(m as nat),
                    None => "requested "@ + limit + " of "@ + decimal(requested as nat)
                        + " is not supported"@,
                },
        remediation: "Lower "@ + limit
                    + " in the request to a supported value. Admission will not clamp it for you."@,
        context: JsonView::Object(
                    seq![
                        ("limit"@, text_view(limit)),
                        ("requested"@, count_view(requested)),
                        ("maximumSupported"@, optional_count_view(maximum_supported)),
                    ],
                ),
    }
}

pub open spec fn cost_ceiling_required_view() -> ErrorView {
    ErrorView {
        code: AdmissionErrorCode::CostCeilingRequired,
        message: "this specification spends provider credit and declares no cost ceiling"@,
        remediation: "Supply an explicit hard total cost ceiling in the request."@,
        context: JsonView::Null,
    }
}

pub open spec fn credential_route_unavailable_view(provider: Seq<char>, detail: Seq<char>) -> ErrorView {
    ErrorView {
        code: AdmissionErrorCode::CredentialRouteUnavailable,
        message: "the credential route for `"@ + provider + "` is unavailable: "@ + detail,
        remediation: "Start the Workshop secrets proxy and configure this provider's credential, then re-admit the specification."@,
        context: JsonView::Object(
                    seq![("providerId"@, text_view(provider)), ("detail"@, text_view(detail))],
                ),
    }
}

pub open spec fn output_contract_unsupported_view(container: Seq<char>, missing: Seq<Seq<char>>) -> ErrorView {
    ErrorView {
        code: AdmissionErrorCode::OutputContractUnsupported,
        message: "container `"@ + container
                    + "` does not advertise the evidence operations this specification requires"@,
        remediation: "Require only the evidence operations the container advertises, or select a container that advertises the missing ones."@,
        context: JsonView::Object(
                    seq![
                        ("containerId"@, text_view(container)),
                        ("missingOperations"@, JsonView::Array(Seq::new(missing.len(), |k: int| text_view(missing[k])))),
                    ],
                ),
    }
}

pub open spec fn execution_spec_invalid_view(detail: Seq<char>) -> ErrorView {
    ErrorView {
        code: AdmissionErrorCode::ExecutionSpecInvalid,
        message: "the execution specification is not admissible: "@ + detail,
        remediation: "Correct the named field and re-validate the draft."@,
        context: JsonView::Object(seq![("detail"@, text_view(detail))]),
    }
}

pub open spec fn execution_spec_digest_mismatch_view(expected: Seq<char>, actual: Seq<char>) -> ErrorView {
    ErrorView {
        code: AdmissionErrorCode::ExecutionSpecDigestMismatch,
        message: "the execution specification changed after it was admitted"@,
        remediation: "Re-admit the specification and obtain a new approval. An existing receipt is not transferable to a changed specification."@,
        context: JsonView::Object(
                    seq![("expectedDigest"@, text_view(expected)), ("actualDigest"@, text_view(actual))],
                ),
    }
}


/// `a`, `b`, `c`, `d` and `e` in order.
fn concat5(a: &str, b: &str, c: &str, d: &str, e: &str) -> (out: String)
    ensures
        out@ == a@ + b@ + c@ + d@ + e@,
{
    let mut out = String::from_str(a);
    out.append(b);
    out.append(c);
    out.append(d);
    out.append(e);
    out
}

/// `a` to `g` in order.
fn concat7(a: &str, b: &str, c: &str, d: &str, e: &str, f: &str, g: &str) -> (out: String)
    ensures
        out@ == a@ + b@ + c@ + d@ + e@ + f@ + g@,
{
    let mut out = String::from_str(a);
    out.append(b);
    out.append(c);
    out.append(d);
    out.append(e);
    out.append(f);
    out.append(g);
    out
}

/// The identifiers' texts, as a JSON array.
fn container_texts(ids: &[ContainerId]) -> (r: JsonValue)
    ensures
        r@ == JsonView::Array(Seq::new(ids@.len(), |k: int| text_view(ids@[k]@))),
{
    let mut texts: Vec<String> = Vec::new();
    let mut i: usize = 0;
    while i < ids.len()
        invariant
            i <= ids.len(),
            texts.len() == i,
            forall|k: int| 0 <= k < i ==> #[trigger] texts@[k]@ == ids@[k]@,
        decreases ids.len() - i,
    {
        texts.push(ids[i].to_text());
        i = i + 1;
    }
    let r = text_array(texts.as_slice());
    assert(Seq::new(texts@.len(), |k: int| JsonView::Text(texts@[k]@)) =~= Seq::new(
        ids@.len(),
        |k: int| text_view(ids@[k]@),
    ));
    r
}

impl AdmissionError {
    pub fn catalog_recipe_not_found(recipe_id: &RecipeId, searched: usize) -> (r: Self)
        ensures
            r.subject == subject_of(r.code),
            view_of(r) == catalog_recipe_not_found_view(recipe_id@, searched as u64),
    {
        let message = concat3("no catalog recipe is registered under `", recipe_id.as_str(), "`");
        let remediation = String::from_str(
            "Correct the recipe id, or drop the catalog reference and submit an inline specification instead \u{2014} inline admission does not require a catalog entry.",
        );
        let context = object2(
            "recipeId",
            text_value(recipe_id.as_str()),
            "recipesSearched",
            unsigned_value(searched as u64),
        );
        Self::new(AdmissionErrorCode::CatalogRecipeNotFound, message, remediation).with_context(
            context,
        )
    }

    pub fn container_not_found(requested: &str) -> (r: Self)
        ensures
            r.subject == subject_of(r.code),
            view_of(r) == container_not_found_view(requested@),
    {
        let message = concat3("no registered container matches `", requested, "`");
        let remediation = String::from_str(
            "Register the container, or name one that container discovery already returns.",
        );
        Self::new(AdmissionErrorCode::ContainerNotFound, message, remediation).with_context(
            object1("requested", text_value(requested)),
        )
    }

    /// Ambiguity is a refusal, never a reason to take the first result.
    pub fn container_selection_ambiguous(candidates: &[ContainerId]) -> (r: Self)
        ensures
            r.subject == subject_of(r.code),
            view_of(r) == container_selection_ambiguous_view(Seq::new(candidates@.len(), |k: int| candidates@[k]@)),
    {
        let count = u64_to_string(candidates.len() as u64);
        let message = concat(
            count.as_str(),
            " registered containers match this request; admission will not choose one",
        );
        let remediation = String::from_str("Name the exact container id in the request.");
        let r = Self::new(AdmissionErrorCode::ContainerSelectionAmbiguous, message, remediation).with_context(
            object1("candidates", container_texts(candidates)),
        );
        proof {
            let names = Seq::new(candidates@.len(), |k: int| candidates@[k]@);
            assert(Seq::new(names.len(), |k: int| text_view(names[k])) =~= Seq::new(
                candidates@.len(),
                |k: int| text_view(candidates@[k]@),
            ));
        }
        r
    }

    pub fn container_unhealthy(container: &ContainerId, observed: &str) -> (r: Self)
        ensures
            r.subject == subject_of(r.code),
            view_of(r) == container_unhealthy_view(container@, observed@),
    {
        let message = concat5("container `", container.as_str(), "` reported health `", observed, "`");
        let remediation = String::from_str(
            "Bring the container back to a ready state, then re-run discovery so the specification pins a healthy registration.",
        );
        Self::new(AdmissionErrorCode::ContainerUnhealthy, message, remediation).with_context(
            object2(
                "containerId",
                text_value(container.as_str()),
                "observedHealth",
                text_value(observed),
            ),
        )
    }

    pub fn container_protocol_unsupported(
        container: &ContainerId,
        required: &str,
        advertised: Option<&str>,
    ) -> (r: Self)
        ensures
            r.subject == subject_of(r.code),
            view_of(r) == container_protocol_unsupported_view(container@, required@, optional_text_of_str(advertised)),
    {
        let message = match advertised {
            Some(a) => concat7(
                "container `",
                container.as_str(),
                "` advertises protocol `",
                a,
                "`, not `",
                required,
                "`",
            ),
            None => concat3("container `", container.as_str(), "` advertises no live-eval protocol"),
        };
        let remediation = concat3(
            "Have the container advertise `",
            required,
            "` in its capability block, or select a container that already does.",
        );
        let advertised_value = optional_text(advertised);
        let container_value = text_value(container.as_str());
        let required_value = text_value(required);
        let context = object3(
            "containerId",
            container_value,
            "requiredProtocol",
            required_value,
            "advertisedProtocol",
            advertised_value,
        );


        Self::new(AdmissionErrorCode::ContainerProtocolUnsupported, message, remediation).with_context(
            context,
        )
    }

    /// A missing evaluator names the evaluator, never a recipe: authoring a
    /// recipe would not supply the missing declaration.
    pub fn evaluator_not_declared(container: &ContainerId) -> (r: Self)
        ensures
            r.subject == subject_of(r.code),
            view_of(r) == evaluator_not_declared_view(container@),
    {
        let message = concat3(
            "container `",
            container.as_str(),
            "` declares no evaluator, so admission has no scoring semantics to pin",
        );
        let remediation = String::from_str(
            "Have the container declare its evaluator id, version, and scoring digest in its live-eval capability block, or supply an explicit evaluator in the request.",
        );
        Self::new(AdmissionErrorCode::EvaluatorNotDeclared, message, remediation).with_context(
            object1("containerId", text_value(container.as_str())),
        )
    }

    pub fn scoring_contract_invalid(
        container: &ContainerId,
        evaluator: Option<&EvaluatorId>,
        detail: String,
    ) -> (r: Self)
        ensures
            r.subject == subject_of(r.code),
            view_of(r) == scoring_contract_invalid_view(container@, optional_id_text(evaluator), detail@),
    {
        let message = concat3(
            "container `",
            container.as_str(),
            "` declared an unusable scoring contract: ",
        );
        let message = concat(message.as_str(), detail.as_str());
        let remediation = String::from_str(
            "Correct the container's scoring declaration so it carries a well-formed evaluator id, version, and scoring digest.",
        );
        let evaluator_value = match evaluator {
            Some(id) => text_value(id.as_str()),
            None => JsonValue::Null,
        };
        let context = object3(
            "containerId",
            text_value(container.as_str()),
            "evaluatorId",
            evaluator_value,
            "detail",
            text_value(detail.as_str()),
        );
        Self::new(AdmissionErrorCode::ScoringContractInvalid, message, remediation).with_context(
            context,
        )
    }

    pub fn policy_not_found(namespace: &str, name: &str) -> (r: Self)
        ensures
            r.subject == subject_of(r.code),
            view_of(r) == policy_not_found_view(namespace@, name@),
    {
        let message = concat5("no policy `", namespace, "/", name, "` is available to this session");
        let remediation = String::from_str(
            "Correct the policy namespace and name, or declare the policy in the session workspace before requesting it.",
        );
        Self::new(AdmissionErrorCode::PolicyNotFound, message, remediation).with_context(
            object2("namespace", text_value(namespace), "name", text_value(name)),
        )
    }

    /// A policy that can still change underneath the run is not pinnable.
    pub fn policy_revision_unresolved(namespace: &str, name: &str) -> (r: Self)
        ensures
            r.subject == subject_of(r.code),
            view_of(r) == policy_revision_unresolved_view(namespace@, name@),
    {
        let message = concat5(
            "policy `",
            namespace,
            "/",
            name,
            "` resolved to no immutable revision, so it cannot be pinned",
        );
        let remediation = String::from_str(
            "Resolve the policy to an immutable revision \u{2014} commit or version the policy source \u{2014} before requesting execution.",
        );
        Self::new(AdmissionErrorCode::PolicyRevisionUnresolved, message, remediation).with_context(
            object2("namespace", text_value(namespace), "name", text_value(name)),
        )
    }

    pub fn policy_configuration_invalid(namespace: &str, name: &str, detail: String) -> (r: Self)
        ensures
            r.subject == subject_of(r.code),
            view_of(r) == policy_configuration_invalid_view(namespace@, name@, detail@),
    {
        let message = concat5(
            "policy `",
            namespace,
            "/",
            name,
            "` configuration is invalid: ",
        );
        let message = concat(message.as_str(), detail.as_str());
        let remediation = String::from_str(
            "Correct the offending configuration key, or remove the override so the policy declaration's own value is used.",
        );
        Self::new(AdmissionErrorCode::PolicyConfigurationInvalid, message, remediation).with_context(
            object3(
                "namespace",
                text_value(namespace),
                "name",
                text_value(name),
                "detail",
                text_value(detail.as_str()),
            ),
        )
    }

    pub fn model_unsupported(provider: &ProviderId, model: &ModelId, container: &ContainerId) -> (r:
        Self)
        ensures
            r.subject == subject_of(r.code),
            view_of(r) == model_unsupported_view(provider@, model@, container@),
    {
        let message = concat7(
            "container `",
            container.as_str(),
            "` does not advertise support for `",
            provider.as_str(),
            "` model `",
            model.as_str(),
            "`",
        );
        let remediation = String::from_str(
            "Request a model the container advertises, or have the container advertise this one. Admission will not substitute a different model.",
        );
        Self::new(AdmissionErrorCode::ModelUnsupported, message, remediation).with_context(
            object3(
                "providerId",
                text_value(provider.as_str()),
                "modelId",
                text_value(model.as_str()),
                "containerId",
                text_value(container.as_str()),
            ),
        )
    }

    pub fn seed_control_unsupported(container: &ContainerId) -> (r: Self)
        ensures
            r.subject == subject_of(r.code),
            view_of(r) == seed_control_unsupported_view(container@),
    {
        let message = concat3(
            "container `",
            container.as_str(),
            "` does not accept caller-supplied seeds",
        );
        let remediation = String::from_str(
            "Drop the explicit seeds only if the request genuinely does not need them; otherwise select a container that advertises seed control. Admission will not silently substitute its own seeds.",
        );
        Self::new(AdmissionErrorCode::SeedControlUnsupported, message, remediation).with_context(
            object1("containerId", text_value(container.as_str())),
        )
    }

    /// A requested limit above capability fails; it is never quietly reduced.
    pub fn requested_limit_unsupported(
        limit: &'static str,
        requested: u64,
        maximum_supported: Option<u64>,
    ) -> (r: Self)
        ensures
            r.subject == subject_of(r.code),
            view_of(r) == requested_limit_unsupported_view(limit@, requested, maximum_supported),
    {
        let requested_text = u64_to_string(requested);
        let message = match maximum_supported {
            Some(m) => {
                let maximum_text = u64_to_string(m);
                let message_head = concat5(
                    "requested ",
                    limit,
                    " of ",
                    requested_text.as_str(),
                    " exceeds the supported maximum of ",
                );
                concat(message_head.as_str(), maximum_text.as_str())
            },
            None => concat5("requested ", limit, " of ", requested_text.as_str(), " is not supported"),
        };
        let remediation = concat3(
            "Lower ",
            limit,
            " in the request to a supported value. Admission will not clamp it for you.",
        );
        let maximum_value = match maximum_supported {
            Some(m) => unsigned_value(m),
            None => JsonValue::Null,
        };
        Self::new(AdmissionErrorCode::RequestedLimitUnsupported, message, remediation).with_context(
            object3(
                "limit",
                text_value(limit),
                "requested",
                unsigned_value(requested),
                "maximumSupported",
                maximum_value,
            ),
        )
    }

    pub fn cost_ceiling_required() -> (r: Self)
        ensures
            r.subject == subject_of(r.code),
            view_of(r) == cost_ceiling_required_view(),
    {
        Self::new(
            AdmissionErrorCode::CostCeilingRequired,
            String::from_str("this specification spends provider credit and declares no cost ceiling"),
            String::from_str("Supply an explicit hard total cost ceiling in the request."),
        )
    }

    pub fn credential_route_unavailable(provider: &ProviderId, detail: String) -> (r: Self)
        ensures
            r.subject == subject_of(r.code),
            view_of(r) == credential_route_unavailable_view(provider@, detail@),
    {
        let message = concat3("the credential route for `", provider.as_str(), "` is unavailable: ");
        let message = concat(message.as_str(), detail.as_str());
        let remediation = String::from_str(
            "Start the Workshop secrets proxy and configure this provider's credential, then re-admit the specification.",
        );
        Self::new(AdmissionErrorCode::CredentialRouteUnavailable, message, remediation).with_context(
            object2(
                "providerId",
                text_value(provider.as_str()),
                "detail",
                text_value(detail.as_str()),
            ),
        )
    }

    pub fn output_contract_unsupported(container: &ContainerId, missing: &[String]) -> (r: Self)
        ensures
            r.subject == subject_of(r.code),
            view_of(r) == output_contract_unsupported_view(container@, Seq::new(missing@.len(), |k: int| missing@[k]@)),
    {
        let message = concat3(
            "container `",
            container.as_str(),
            "` does not advertise the evidence operations this specification requires",
        );
        let remediation = String::from_str(
            "Require only the evidence operations the container advertises, or select a container that advertises the missing ones.",
        );
        let missing_value = text_array(missing);
        assert(Seq::new(missing@.len(), |k: int| JsonView::Text(missing@[k]@)) =~= Seq::new(
            missing@.len(),
            |k: int| text_view(missing@[k]@),
        ));
        let r = Self::new(AdmissionErrorCode::OutputContractUnsupported, message, remediation).with_context(
            object2("containerId", text_value(container.as_str()), "missingOperations", missing_value),
        );
        proof {
            let names = Seq::new(missing@.len(), |k: int| missing@[k]@);
            assert(Seq::new(names.len(), |k: int| text_view(names[k])) =~= Seq::new(
                missing@.len(),
                |k: int| text_view(missing@[k]@),
            ));
        }
        r
    }

    pub fn execution_spec_invalid(detail: String) -> (r: Self)
        ensures
            r.subject == subject_of(r.code),
            view_of(r) == execution_spec_invalid_view(detail@),
    {
        let message = concat("the execution specification is not admissible: ", detail.as_str());
        let remediation = String::from_str("Correct the named field and re-validate the draft.");
        Self::new(AdmissionErrorCode::ExecutionSpecInvalid, message, remediation).with_context(
            object1("detail", text_value(detail.as_str())),
        )
    }

    pub fn execution_spec_digest_mismatch(expected: &str, actual: &str) -> (r: Self)
        ensures
            r.subject == subject_of(r.code),
            view_of(r) == execution_spec_digest_mismatch_view(expected@, actual@),
    {
        Self::new(
            AdmissionErrorCode::ExecutionSpecDigestMismatch,
            String::from_str("the execution specification changed after it was admitted"),
            String::from_str(
                "Re-admit the specification and obtain a new approval. An existing receipt is not transferable to a changed specification.",
            ),
        ).with_context(
            object2("expectedDigest", text_value(expected), "actualDigest", text_value(actual)),
        )
    }

    /// `code: message`, as the error displays.
    pub fn to_text(&self) -> (r: String)
        ensures
            r@ == code_text(self.code) + ": "@ + self.message@,
    {
        concat3(self.code.as_str(), ": ", self.message.as_str())
    }
}

} // verus!
