//! Whether the hosted CISPO recipe may be offered, and what it needs. Hosted
//! CISPO is fail-closed: it is available only once a paid validation receipt
//! admits the placement and the public service and references are configured.
//! Also what starting the on-device recipe records and hands its trainer: the
//! run id and directory, the inputs (with a warm start's digests falling back
//! on its producing run), the run summary and the trainer configuration.

use crate::cloud::{cloud_base_url, opt_view, without_trailing_slashes};
use crate::migration::{join_path, joined_path};
use crate::json::{entries_of, field, lemma_entries_of, member, object_of, optional_text, text_array, text_value, unsigned_value, JsonNumber, JsonValue, JsonView, NumberView};
use crate::text::{concat, concat3, decimal, same_text, texts_of, trim, trim_str, u64_to_string};
use vstd::prelude::*;

verus! {

/// What a hosted CISPO run needs, as the recipe lists it.
pub open spec fn cispo_prerequisites() -> Seq<Seq<char>> {
    seq![
        "synth-optimizers-cispo service --db … --bind 127.0.0.1:8880"@,
        "SYNTH_OPTIMIZERS_CISPO_SERVICE_TOKEN"@,
        "SYNTH_OPTIMIZERS_CISPO_SERVICE_URL (default http://127.0.0.1:8880)"@,
        "TINKER_CISPO_VALIDATION_RECEIPT"@,
        "SYNTH_BANKING77_TRAIN_CSV + SYNTH_BANKING77_HELDOUT_CSV"@,
        "SYNTH_BANKING77_CISPO_PARENT_JSON (Tinker SFT state + sampler receipt)"@,
        "SYNTH_OPTIMIZERS_CISPO_FIXTURE=1 for unpaid"@,
    ]
}

pub fn hosted_cispo_prerequisites() -> (r: Vec<String>)
    ensures
        texts_of(r@) == cispo_prerequisites(),
{
    let r = vec![
        String::from_str("synth-optimizers-cispo service --db … --bind 127.0.0.1:8880"),
        String::from_str("SYNTH_OPTIMIZERS_CISPO_SERVICE_TOKEN"),
        String::from_str("SYNTH_OPTIMIZERS_CISPO_SERVICE_URL (default http://127.0.0.1:8880)"),
        String::from_str("TINKER_CISPO_VALIDATION_RECEIPT"),
        String::from_str("SYNTH_BANKING77_TRAIN_CSV + SYNTH_BANKING77_HELDOUT_CSV"),
        String::from_str("SYNTH_BANKING77_CISPO_PARENT_JSON (Tinker SFT state + sampler receipt)"),
        String::from_str("SYNTH_OPTIMIZERS_CISPO_FIXTURE=1 for unpaid"),
    ];
    assert(texts_of(r@) =~= cispo_prerequisites());
    r
}

/// Why hosted CISPO is not offered, in order of precedence, or nothing where
/// it is: the placement must be admitted, the service token set and not
/// blank, the service URL not set blank, the references readable, and the
/// client configured.
pub open spec fn cispo_unavailability(
    admitted: bool,
    client_ok: bool,
    reference_ok: bool,
    service_token: Option<Seq<char>>,
    service_url: Option<Seq<char>>,
) -> Option<Seq<char>> {
    if admitted && client_ok && reference_ok {
        None
    } else if !admitted {
        Some("Hosted CISPO stays fail-closed until TINKER_CISPO_VALIDATION_RECEIPT points at a paid slime-canary receipt (validated=true, paid_update=true)."@)
    } else if !(service_token matches Some(t) && trim(t).len() > 0) {
        Some("SYNTH_OPTIMIZERS_CISPO_SERVICE_TOKEN is required to reach the public CISPO service."@)
    } else if service_url matches Some(u) && trim(u).len() == 0 {
        Some("SYNTH_OPTIMIZERS_CISPO_SERVICE_URL is empty; default is http://127.0.0.1:8880."@)
    } else if !reference_ok {
        Some("Hosted Banking77 CISPO requires the NanoClassify train/heldout CSVs and SYNTH_BANKING77_CISPO_PARENT_JSON."@)
    } else {
        Some("Public CISPO service client is not configured."@)
    }
}

fn blank(s: &Option<String>) -> (r: bool)
    ensures
        r == (s matches Some(t) && trim(t@).len() == 0),
{
    match s {
        Some(t) => trim_str(t.as_str()).as_str().is_empty(),
        None => false,
    }
}

/// Whether hosted CISPO is available, and if not, why.
pub fn hosted_cispo_availability(
    admitted: bool,
    client_ok: bool,
    reference_ok: bool,
    service_token: Option<String>,
    service_url: Option<String>,
) -> (r: (bool, Option<String>))
    ensures
        r.0 == (cispo_unavailability(
            admitted,
            client_ok,
            reference_ok,
            match service_token { Some(t) => Some(t@), None => None },
            match service_url { Some(u) => Some(u@), None => None },
        ) is None),
        match r.1 {
            Some(m) => cispo_unavailability(
                admitted,
                client_ok,
                reference_ok,
                match service_token { Some(t) => Some(t@), None => None },
                match service_url { Some(u) => Some(u@), None => None },
            ) == Some(m@),
            None => r.0,
        },
{
    if admitted && client_ok && reference_ok {
        return (true, None);
    }
    if !admitted {
        return (false, Some(String::from_str("Hosted CISPO stays fail-closed until TINKER_CISPO_VALIDATION_RECEIPT points at a paid slime-canary receipt (validated=true, paid_update=true).")));
    }
    let token_present = match &service_token {
        Some(t) => !trim_str(t.as_str()).as_str().is_empty(),
        None => false,
    };
    if !token_present {
        return (false, Some(String::from_str("SYNTH_OPTIMIZERS_CISPO_SERVICE_TOKEN is required to reach the public CISPO service.")));
    }
    if blank(&service_url) {
        return (false, Some(String::from_str("SYNTH_OPTIMIZERS_CISPO_SERVICE_URL is empty; default is http://127.0.0.1:8880.")));
    }
    if !reference_ok {
        return (false, Some(String::from_str("Hosted Banking77 CISPO requires the NanoClassify train/heldout CSVs and SYNTH_BANKING77_CISPO_PARENT_JSON.")));
    }
    (false, Some(String::from_str("Public CISPO service client is not configured.")))
}


// ---------------------------------------------------------------------------
// The public CISPO service
// ---------------------------------------------------------------------------

/// Where and as whom the public CISPO service is reached.
#[derive(Debug)]
pub struct CispoServiceSettings {
    pub base_url: String,
    pub token: String,
}

pub open spec fn default_cispo_service_url() -> Seq<char> {
    "http://127.0.0.1:8880"@
}

/// The service settings from the token and URL the environment gives: a
/// token is required, the URL defaults to the local service, neither may be
/// blank, and both are trimmed, the URL also of trailing slashes.
pub fn cispo_service_settings(token: Option<String>, url: Option<String>) -> (r: Result<
    CispoServiceSettings,
    String,
>)
    ensures
        match token {
            None => r matches Err(m) && m@ == "CISPO service requires SYNTH_OPTIMIZERS_CISPO_SERVICE_TOKEN"@,
            Some(t) => {
                let u = match url {
                    Some(u) => u@,
                    None => default_cispo_service_url(),
                };
                if trim(u).len() == 0 || trim(t@).len() == 0 {
                    r matches Err(m) && m@ == "public CISPO service URL/token must be non-empty"@
                } else {
                    r matches Ok(s) && s.base_url@ == without_trailing_slashes(trim(u)) && s.token@
                        == trim(t@)
                }
            },
        },
{
    let token = match token {
        Some(t) => t,
        None => return Err(String::from_str("CISPO service requires SYNTH_OPTIMIZERS_CISPO_SERVICE_TOKEN")),
    };
    let url = match url {
        Some(u) => u,
        None => String::from_str("http://127.0.0.1:8880"),
    };
    let trimmed_url = trim_str(url.as_str());
    let trimmed_token = trim_str(token.as_str());
    if trimmed_url.as_str().is_empty() || trimmed_token.as_str().is_empty() {
        return Err(String::from_str("public CISPO service URL/token must be non-empty"));
    }
    Ok(CispoServiceSettings { base_url: cloud_base_url(trimmed_url.as_str()), token: trimmed_token })
}

/// The path that pages a run's optimizer events, the page held between 1
/// and 5000 events.
pub fn cispo_events_path(run_id: &str, after_sequence: u64, limit: usize) -> (r: String)
    ensures
        r@ == "/v1/runs/"@ + run_id@ + "/optimizer-events?after_sequence="@ + decimal(
            after_sequence as nat,
        ) + "&limit="@ + decimal(
            (if limit < 1 {
                1
            } else if limit > 5000 {
                5000
            } else {
                limit as nat
            }) as nat,
        ),
{
    let bounded: u64 = if limit < 1 {
        1
    } else if limit > 5000 {
        5000
    } else {
        limit as u64
    };
    let head = concat3("/v1/runs/", run_id, "/optimizer-events?after_sequence=");
    let after = u64_to_string(after_sequence);
    let with_after = concat3(head.as_str(), after.as_str(), "&limit=");
    let count = u64_to_string(bounded);
    concat(with_after.as_str(), count.as_str())
}

/// The submission of a run to the service.
pub open spec fn cispo_submission(run_id: Seq<char>, config: JsonView) -> JsonView {
    JsonView::Object(
        seq![
            ("algorithm"@, JsonView::Text("cispo"@)),
            ("idempotency_key"@, JsonView::Text(run_id)),
            ("run_id"@, JsonView::Text(run_id)),
            ("config_json"@, config),
        ],
    )
}

/// The body that submits a run; the run id is also its idempotency key.
pub fn cispo_submit_body(run_id: &str, config_json: JsonValue) -> (r: JsonValue)
    ensures
        r@ == cispo_submission(run_id@, config_json@),
{
    let ghost config = config_json@;
    let entries = vec![
        field("algorithm", text_value("cispo")),
        field("idempotency_key", text_value(run_id)),
        field("run_id", text_value(run_id)),
        field("config_json", config_json),
    ];
    let ghost es = entries@;
    let r = object_of(entries);
    proof {
        crate::json::lemma_entries_of(es);
        if let JsonView::Object(want) = cispo_submission(run_id@, config) {
            assert(crate::json::entries_of(es) =~= want);
        }
    }
    r
}

/// How a service reply is read: a failed status is an error carrying the
/// body, a blank body reads as an empty object (`Ok(true)`), and any other
/// body is parsed (`Ok(false)`).
pub fn cispo_reply(operation: &str, success: bool, status: &str, text: &str) -> (r: Result<bool, String>)
    ensures
        !success ==> (r matches Err(m) && m@ == operation@ + " failed ("@ + status@ + "): "@ + text@),
        success ==> r == Ok::<bool, String>(trim(text@).len() == 0),
{
    if !success {
        let head = concat3(operation, " failed (", status);
        return Err(concat3(head.as_str(), "): ", text));
    }
    Ok(trim_str(text).as_str().is_empty())
}


// ---------------------------------------------------------------------------
// Recipes
// ---------------------------------------------------------------------------

pub open spec fn decimal_view(t: Seq<char>) -> JsonView {
    JsonView::Number(NumberView::Decimal(t))
}

fn decimal_value(t: &str) -> (r: JsonValue)
    ensures
        r@ == decimal_view(t@),
{
    JsonValue::Number(JsonNumber::Decimal(String::from_str(t)))
}

pub open spec fn availability_text(available: bool) -> Seq<char> {
    if available {
        "available"@
    } else {
        "unavailable"@
    }
}

pub open spec fn local_limits_view() -> JsonView {
    JsonView::Object(
        seq![
            ("backend"@, JsonView::Text("cispo"@)),
            ("maxSteps"@, JsonView::Number(NumberView::Unsigned(1))),
            ("costCeilingUsd"@, decimal_view("0.0"@)),
            ("maxTotalEnvironmentRollouts"@, JsonView::Number(NumberView::Unsigned(128))),
            ("costNotice"@, JsonView::Text("Local Apple Silicon MLX compute. Warm-start from a selected SFT artifact id; otherwise the visual reports cispo_no_learning_signal."@)),
            ("resolvedConfig"@, JsonView::Object(
                seq![
                    ("baseModel"@, JsonView::Text("Qwen/Qwen3.5-2B"@)),
                    ("task"@, JsonView::Text("container"@)),
                    ("loraDropout"@, decimal_view("0.0"@)),
                    ("warmStart"@, JsonView::Text("training_artifact_id"@)),
                ],
            )),
        ],
    )
}

/// The on-device CISPO recipe; it is available only on a machine that can
/// train locally.
pub open spec fn local_recipe_view(id: Seq<char>, placement: Seq<char>, available: bool) -> JsonView {
    JsonView::Object(
        seq![
            ("id"@, JsonView::Text(id)),
            ("title"@, JsonView::Text("This Mac · CISPO (MLX)"@)),
            ("algorithmId"@, JsonView::Text("cispo"@)),
            ("task"@, JsonView::Null),
            ("placement"@, JsonView::Text(placement)),
            ("availability"@, JsonView::Text(availability_text(available))),
            ("availabilityReason"@, if available {
                JsonView::Null
            } else {
                JsonView::Text("Local CISPO requires Apple Silicon and the managed on-device training model. Start binds a ready container's advertised CISPO contract."@)
            }),
            ("limits"@, local_limits_view()),
            ("credentialInputs"@, JsonView::Array(Seq::empty())),
            ("prerequisites"@, JsonView::Array(
                seq![
                    JsonView::Text("Optimizers sidecar"@),
                    JsonView::Text("ready container advertising a CISPO contract"@),
                    JsonView::Text("optional SFT warm-start adapter"@),
                ],
            )),
        ],
    )
}

fn local_limits() -> (r: JsonValue)
    ensures
        r@ == local_limits_view(),
{
    let inner = vec![
        field("baseModel", text_value("Qwen/Qwen3.5-2B")),
        field("task", text_value("container")),
        field("loraDropout", decimal_value("0.0")),
        field("warmStart", text_value("training_artifact_id")),
    ];
    let ghost ies = inner@;
    let resolved = object_of(inner);
    proof {
        lemma_entries_of(ies);
    }
    let entries = vec![
        field("backend", text_value("cispo")),
        field("maxSteps", unsigned_value(1)),
        field("costCeilingUsd", decimal_value("0.0")),
        field("maxTotalEnvironmentRollouts", unsigned_value(128)),
        field("costNotice", text_value("Local Apple Silicon MLX compute. Warm-start from a selected SFT artifact id; otherwise the visual reports cispo_no_learning_signal.")),
        field("resolvedConfig", resolved),
    ];
    let ghost es = entries@;
    let r = object_of(entries);
    proof {
        lemma_entries_of(es);
        if let JsonView::Object(want) = local_limits_view() {
            if let JsonView::Object(inner_want) = want[5].1 {
                assert(entries_of(ies) =~= inner_want);
            }
            assert(entries_of(es) =~= want);
        }
    }
    r
}

fn empty_array() -> (r: JsonValue)
    ensures
        r@ == JsonView::Array(Seq::empty()),
{
    let items: Vec<JsonValue> = Vec::new();
    let r = JsonValue::Array(items);
    assert(r@ =~= JsonView::Array(Seq::empty()));
    r
}

/// The on-device CISPO recipe.
pub fn local_mlx_recipe(id: &str, placement: &str, available: bool) -> (r: JsonValue)
    ensures
        r@ == local_recipe_view(id@, placement@, available),
{
    let prerequisites = vec![
        String::from_str("Optimizers sidecar"),
        String::from_str("ready container advertising a CISPO contract"),
        String::from_str("optional SFT warm-start adapter"),
    ];
    let prereq = text_array(prerequisites.as_slice());
    let reason = if available {
        JsonValue::Null
    } else {
        text_value("Local CISPO requires Apple Silicon and the managed on-device training model. Start binds a ready container's advertised CISPO contract.")
    };
    let entries = vec![
        field("id", text_value(id)),
        field("title", text_value("This Mac · CISPO (MLX)")),
        field("algorithmId", text_value("cispo")),
        field("task", JsonValue::Null),
        field("placement", text_value(placement)),
        field("availability", text_value(if available { "available" } else { "unavailable" })),
        field("availabilityReason", reason),
        field("limits", local_limits()),
        field("credentialInputs", empty_array()),
        field("prerequisites", prereq),
    ];
    let ghost es = entries@;
    let r = object_of(entries);
    proof {
        lemma_entries_of(es);
        let pv = prerequisites@;
        assert(Seq::new(pv.len(), |k: int| JsonView::Text(pv[k]@)) =~= seq![
            JsonView::Text("Optimizers sidecar"@),
            JsonView::Text("ready container advertising a CISPO contract"@),
            JsonView::Text("optional SFT warm-start adapter"@),
        ]);
        if let JsonView::Object(want) = local_recipe_view(id@, placement@, available) {
            assert(entries_of(es) =~= want);
        }
    }
    r
}

pub open spec fn hosted_limits_view() -> JsonView {
    JsonView::Object(
        seq![
            ("backend"@, JsonView::Text("cispo.slime.v1"@)),
            ("implementation"@, JsonView::Text("slime-reference"@)),
            ("implementationVersion"@, JsonView::Text("cispo.slime.v1"@)),
            ("maxSteps"@, JsonView::Number(NumberView::Unsigned(50))),
            ("groupSize"@, JsonView::Number(NumberView::Unsigned(64))),
            ("promptsPerUpdate"@, JsonView::Number(NumberView::Unsigned(3))),
            ("estimatedRollouts"@, JsonView::Number(NumberView::Unsigned(9600))),
            ("selectionExamples"@, JsonView::Number(NumberView::Unsigned(400))),
            ("heldoutExamples"@, JsonView::Number(NumberView::Unsigned(400))),
            ("costCeilingUsd"@, decimal_view("35.0"@)),
            ("costNotice"@, JsonView::Text("Hosted Tinker via the public CISPO service. Receipt-gated; unpaid fixture with SYNTH_OPTIMIZERS_CISPO_FIXTURE=1."@)),
        ],
    )
}

/// A hosted CISPO recipe, offered as available only where hosted CISPO is,
/// with the reason it is not where it is not.
pub open spec fn hosted_recipe_view(
    id: Seq<char>,
    title: Seq<char>,
    placement: Seq<char>,
    available: bool,
    reason: Option<Seq<char>>,
) -> JsonView {
    JsonView::Object(
        seq![
            ("id"@, JsonView::Text(id)),
            ("title"@, JsonView::Text(title)),
            ("algorithmId"@, JsonView::Text("cispo"@)),
            ("task"@, JsonView::Text("banking77"@)),
            ("placement"@, JsonView::Text(placement)),
            ("availability"@, JsonView::Text(availability_text(available))),
            ("availabilityReason"@, match reason {
                Some(t) => JsonView::Text(t),
                None => JsonView::Null,
            }),
            ("limits"@, hosted_limits_view()),
            ("credentialInputs"@, JsonView::Array(Seq::empty())),
            ("prerequisites"@, JsonView::Array(cispo_prerequisites().map_values(|t: Seq<char>| JsonView::Text(t)))),
        ],
    )
}

fn hosted_limits() -> (r: JsonValue)
    ensures
        r@ == hosted_limits_view(),
{
    let entries = vec![
        field("backend", text_value("cispo.slime.v1")),
        field("implementation", text_value("slime-reference")),
        field("implementationVersion", text_value("cispo.slime.v1")),
        field("maxSteps", unsigned_value(50)),
        field("groupSize", unsigned_value(64)),
        field("promptsPerUpdate", unsigned_value(3)),
        field("estimatedRollouts", unsigned_value(9600)),
        field("selectionExamples", unsigned_value(400)),
        field("heldoutExamples", unsigned_value(400)),
        field("costCeilingUsd", decimal_value("35.0")),
        field("costNotice", text_value("Hosted Tinker via the public CISPO service. Receipt-gated; unpaid fixture with SYNTH_OPTIMIZERS_CISPO_FIXTURE=1.")),
    ];
    let ghost es = entries@;
    let r = object_of(entries);
    proof {
        lemma_entries_of(es);
        if let JsonView::Object(want) = hosted_limits_view() {
            assert(entries_of(es) =~= want);
        }
    }
    r
}

/// A hosted CISPO recipe under the given id and title.
pub fn hosted_cispo_recipe(
    id: &str,
    title: &str,
    placement: &str,
    availability: (bool, Option<String>),
) -> (r: JsonValue)
    ensures
        r@ == hosted_recipe_view(
            id@,
            title@,
            placement@,
            availability.0,
            match availability.1 {
                Some(t) => Some(t@),
                None => None,
            },
        ),
{
    let (available, reason) = availability;
    let reason_value = match &reason {
        Some(t) => text_value(t.as_str()),
        None => JsonValue::Null,
    };
    let prerequisites = hosted_cispo_prerequisites();
    let prereq = text_array(prerequisites.as_slice());
    let entries = vec![
        field("id", text_value(id)),
        field("title", text_value(title)),
        field("algorithmId", text_value("cispo")),
        field("task", text_value("banking77")),
        field("placement", text_value(placement)),
        field("availability", text_value(if available { "available" } else { "unavailable" })),
        field("availabilityReason", reason_value),
        field("limits", hosted_limits()),
        field("credentialInputs", empty_array()),
        field("prerequisites", prereq),
    ];
    let ghost es = entries@;
    let r = object_of(entries);
    proof {
        lemma_entries_of(es);
        let want_reason = match reason {
            Some(t) => Some(t@),
            None => None,
        };
        let pv = prerequisites@;
        assert(texts_of(pv) == cispo_prerequisites());
        assert(Seq::new(pv.len(), |k: int| JsonView::Text(pv[k]@)) =~= cispo_prerequisites().map_values(
            |t: Seq<char>| JsonView::Text(t),
        ));
        if let JsonView::Object(want) = hosted_recipe_view(id@, title@, placement@, available, want_reason) {
            assert(entries_of(es) =~= want);
        }
    }
    r
}

/// The parent checkpoint a hosted Banking77 CISPO run resumes from, read
/// from the SFT receipt: its state checkpoint, and its update count (100
/// where it gives none).
pub open spec fn cispo_parent_view(state: Seq<char>, step: u64) -> JsonView {
    JsonView::Object(
        seq![
            ("checkpoint_id"@, JsonView::Text("nanoclassify-sft-parent"@)),
            ("provider_reference"@, JsonView::Text(state)),
            ("resume_token"@, JsonView::Text(state)),
            ("step"@, JsonView::Number(NumberView::Unsigned(step))),
            ("digest"@, JsonView::Text("sha256:0000000000000000000000000000000000000000000000000000000000000000"@)),
            ("kind"@, JsonView::Text("training"@)),
        ],
    )
}

pub fn banking77_cispo_parent(receipt: &JsonValue) -> (r: Result<JsonValue, String>)
    ensures
        match member(receipt@, "state_checkpoint"@) {
            Some(JsonView::Text(state)) => r matches Ok(v) && v@ == cispo_parent_view(
                state,
                match member(receipt@, "updates"@) {
                    Some(JsonView::Number(NumberView::Unsigned(n))) => n,
                    _ => 100,
                },
            ),
            _ => r matches Err(m) && m@ == "CISPO parent receipt omitted state_checkpoint"@,
        },
{
    let state = match receipt.get("state_checkpoint") {
        Some(v) => match v.as_text() {
            Some(s) => s,
            None => return Err(String::from_str("CISPO parent receipt omitted state_checkpoint")),
        },
        None => return Err(String::from_str("CISPO parent receipt omitted state_checkpoint")),
    };
    let step: u64 = match receipt.get("updates") {
        Some(v) => match v.as_u64() {
            Some(n) => n,
            None => 100,
        },
        None => 100,
    };
    let entries = vec![
        field("checkpoint_id", text_value("nanoclassify-sft-parent")),
        field("provider_reference", text_value(state.as_str())),
        field("resume_token", text_value(state.as_str())),
        field("step", unsigned_value(step)),
        field("digest", text_value("sha256:0000000000000000000000000000000000000000000000000000000000000000")),
        field("kind", text_value("training")),
    ];
    let ghost es = entries@;
    let r = object_of(entries);
    proof {
        lemma_entries_of(es);
        if let JsonView::Object(want) = cispo_parent_view(state@, step) {
            assert(entries_of(es) =~= want);
        }
    }
    Ok(r)
}


// ---------------------------------------------------------------------------
// The hosted Banking77 request
// ---------------------------------------------------------------------------

/// The Banking77 intent labels, in the order the classifier is shown them.
pub open spec fn banking77_labels() -> Seq<Seq<char>> {
    seq![
        "Refund_not_showing_up"@,
        "activate_my_card"@,
        "age_limit"@,
        "apple_pay_or_google_pay"@,
        "atm_support"@,
        "automatic_top_up"@,
        "balance_not_updated_after_bank_transfer"@,
        "balance_not_updated_after_cheque_or_cash_deposit"@,
        "beneficiary_not_allowed"@,
        "cancel_transfer"@,
        "card_about_to_expire"@,
        "card_acceptance"@,
        "card_arrival"@,
        "card_delivery_estimate"@,
        "card_linking"@,
        "card_not_working"@,
        "card_payment_fee_charged"@,
        "card_payment_not_recognised"@,
        "card_payment_wrong_exchange_rate"@,
        "card_swallowed"@,
        "cash_withdrawal_charge"@,
        "cash_withdrawal_not_recognised"@,
        "change_pin"@,
        "compromised_card"@,
        "contactless_not_working"@,
        "country_support"@,
        "declined_card_payment"@,
        "declined_cash_withdrawal"@,
        "declined_transfer"@,
        "direct_debit_payment_not_recognised"@,
        "disposable_card_limits"@,
        "edit_personal_details"@,
        "exchange_charge"@,
        "exchange_rate"@,
        "exchange_via_app"@,
        "extra_charge_on_statement"@,
        "failed_transfer"@,
        "fiat_currency_support"@,
        "get_disposable_virtual_card"@,
        "get_physical_card"@,
        "getting_spare_card"@,
        "getting_virtual_card"@,
        "lost_or_stolen_card"@,
        "lost_or_stolen_phone"@,
        "order_physical_card"@,
        "passcode_forgotten"@,
        "pending_card_payment"@,
        "pending_cash_withdrawal"@,
        "pending_top_up"@,
        "pending_transfer"@,
        "pin_blocked"@,
        "receiving_money"@,
        "request_refund"@,
        "reverted_card_payment?"@,
        "supported_cards_and_currencies"@,
        "terminate_account"@,
        "top_up_by_bank_transfer_charge"@,
        "top_up_by_card_charge"@,
        "top_up_by_cash_or_cheque"@,
        "top_up_failed"@,
        "top_up_limits"@,
        "top_up_reverted"@,
        "topping_up_by_card"@,
        "transaction_charged_twice"@,
        "transfer_fee_charged"@,
        "transfer_into_account"@,
        "transfer_not_received_by_recipient"@,
        "transfer_timing"@,
        "unable_to_verify_identity"@,
        "verify_my_identity"@,
        "verify_source_of_funds"@,
        "verify_top_up"@,
        "virtual_card_not_working"@,
        "visa_or_mastercard"@,
        "why_verify_identity"@,
        "wrong_amount_of_cash_received"@,
        "wrong_exchange_rate_for_cash_withdrawal"@,
    ]
}

/// The Banking77 intent labels.
pub fn banking77_label_taxonomy() -> (r: Vec<String>)
    ensures
        texts_of(r@) == banking77_labels(),
{
    let r = vec![
        String::from_str("Refund_not_showing_up"),
        String::from_str("activate_my_card"),
        String::from_str("age_limit"),
        String::from_str("apple_pay_or_google_pay"),
        String::from_str("atm_support"),
        String::from_str("automatic_top_up"),
        String::from_str("balance_not_updated_after_bank_transfer"),
        String::from_str("balance_not_updated_after_cheque_or_cash_deposit"),
        String::from_str("beneficiary_not_allowed"),
        String::from_str("cancel_transfer"),
        String::from_str("card_about_to_expire"),
        String::from_str("card_acceptance"),
        String::from_str("card_arrival"),
        String::from_str("card_delivery_estimate"),
        String::from_str("card_linking"),
        String::from_str("card_not_working"),
        String::from_str("card_payment_fee_charged"),
        String::from_str("card_payment_not_recognised"),
        String::from_str("card_payment_wrong_exchange_rate"),
        String::from_str("card_swallowed"),
        String::from_str("cash_withdrawal_charge"),
        String::from_str("cash_withdrawal_not_recognised"),
        String::from_str("change_pin"),
        String::from_str("compromised_card"),
        String::from_str("contactless_not_working"),
        String::from_str("country_support"),
        String::from_str("declined_card_payment"),
        String::from_str("declined_cash_withdrawal"),
        String::from_str("declined_transfer"),
        String::from_str("direct_debit_payment_not_recognised"),
        String::from_str("disposable_card_limits"),
        String::from_str("edit_personal_details"),
        String::from_str("exchange_charge"),
        String::from_str("exchange_rate"),
        String::from_str("exchange_via_app"),
        String::from_str("extra_charge_on_statement"),
        String::from_str("failed_transfer"),
        String::from_str("fiat_currency_support"),
        String::from_str("get_disposable_virtual_card"),
        String::from_str("get_physical_card"),
        String::from_str("getting_spare_card"),
        String::from_str("getting_virtual_card"),
        String::from_str("lost_or_stolen_card"),
        String::from_str("lost_or_stolen_phone"),
        String::from_str("order_physical_card"),
        String::from_str("passcode_forgotten"),
        String::from_str("pending_card_payment"),
        String::from_str("pending_cash_withdrawal"),
        String::from_str("pending_top_up"),
        String::from_str("pending_transfer"),
        String::from_str("pin_blocked"),
        String::from_str("receiving_money"),
        String::from_str("request_refund"),
        String::from_str("reverted_card_payment?"),
        String::from_str("supported_cards_and_currencies"),
        String::from_str("terminate_account"),
        String::from_str("top_up_by_bank_transfer_charge"),
        String::from_str("top_up_by_card_charge"),
        String::from_str("top_up_by_cash_or_cheque"),
        String::from_str("top_up_failed"),
        String::from_str("top_up_limits"),
        String::from_str("top_up_reverted"),
        String::from_str("topping_up_by_card"),
        String::from_str("transaction_charged_twice"),
        String::from_str("transfer_fee_charged"),
        String::from_str("transfer_into_account"),
        String::from_str("transfer_not_received_by_recipient"),
        String::from_str("transfer_timing"),
        String::from_str("unable_to_verify_identity"),
        String::from_str("verify_my_identity"),
        String::from_str("verify_source_of_funds"),
        String::from_str("verify_top_up"),
        String::from_str("virtual_card_not_working"),
        String::from_str("visa_or_mastercard"),
        String::from_str("why_verify_identity"),
        String::from_str("wrong_amount_of_cash_received"),
        String::from_str("wrong_exchange_rate_for_cash_withdrawal"),
    ];
    assert(texts_of(r@) =~= banking77_labels());
    r
}

/// Texts joined with a separator between each two.
pub open spec fn joined_with(items: Seq<Seq<char>>, sep: Seq<char>) -> Seq<char>
    decreases items.len(),
{
    if items.len() == 0 {
        Seq::empty()
    } else if items.len() == 1 {
        items[0]
    } else {
        joined_with(items.drop_last(), sep) + sep + items.last()
    }
}

fn join_with(items: &Vec<String>, sep: &str) -> (r: String)
    ensures
        r@ == joined_with(texts_of(items@), sep@),
{
    let ghost all = texts_of(items@);
    let mut out = String::from_str("");
    proof {
        reveal_strlit("");
    }
    let mut i: usize = 0;
    assert(all.take(0) =~= Seq::<Seq<char>>::empty());
    while i < items.len()
        invariant
            i <= items@.len(),
            all == texts_of(items@),
            out@ == joined_with(all.take(i as int), sep@),
        decreases items@.len() - i,
    {
        let ghost next = all.take(i as int + 1);
        assert(next.drop_last() =~= all.take(i as int));
        assert(next.last() == items@[i as int]@);
        if i == 0 {
            assert(next.len() == 1);
            out = String::from_str(items[0].as_str());
        } else {
            out = concat3(out.as_str(), sep, items[i].as_str());
        }
        i = i + 1;
    }
    assert(all.take(items@.len() as int) =~= all);
    out
}

/// The instruction the classifier runs under: answer with one label of the
/// taxonomy.
pub open spec fn banking77_system_prompt() -> Seq<char> {
    "Classify the customer banking message. Return exactly one label from this list, with no explanation or punctuation:\n"@ + joined_with(banking77_labels(), ", "@)
}


pub open spec fn cispo_training_view() -> JsonView {
    JsonView::Object(
        seq![
            ("updates"@, JsonView::Number(NumberView::Unsigned(50))),
            ("group_size"@, JsonView::Number(NumberView::Unsigned(64))),
            ("prompts_per_update"@, JsonView::Number(NumberView::Unsigned(3))),
            ("max_sample_tokens"@, JsonView::Number(NumberView::Unsigned(24))),
            ("temperature"@, decimal_view("1.0"@)),
            ("learning_rate"@, decimal_view("1e-6"@)),
            ("eps_clip"@, decimal_view("1.0"@)),
            ("eps_clip_high"@, decimal_view("4.0"@)),
            ("normalize_group_rewards"@, JsonView::Bool(true)),
            ("checkpoint_every_updates"@, JsonView::Number(NumberView::Unsigned(10))),
        ],
    )
}

pub open spec fn cispo_reward_view() -> JsonView {
    JsonView::Object(
        seq![
            ("version"@, JsonView::Text("banking77.exact_label.v1"@)),
            ("task"@, JsonView::Text("banking77"@)),
        ],
    )
}

pub open spec fn cispo_evaluation_view() -> JsonView {
    JsonView::Object(
        seq![
            ("scorer_version"@, JsonView::Text("banking77.exact_label.v1"@)),
            ("heldout_locked"@, JsonView::Bool(true)),
            ("mode"@, JsonView::Text("canonical"@)),
            ("max_tokens"@, JsonView::Number(NumberView::Unsigned(64))),
            ("confidence"@, decimal_view("0.95"@)),
            ("bootstrap_resamples"@, JsonView::Number(NumberView::Unsigned(4000))),
            ("minimum_claim_uplift"@, decimal_view("0.01"@)),
            ("minimum_paired_examples"@, JsonView::Number(NumberView::Unsigned(400))),
        ],
    )
}

pub open spec fn cispo_dataset_view(
    train_csv: Seq<char>,
    heldout_csv: Seq<char>,
    heldout_indices_json: Option<Seq<char>>,
) -> JsonView {
    JsonView::Object(
        seq![
            ("recipe_id"@, JsonView::Text("banking77.cispo.nanoclassify.v1"@)),
            ("split_strategy"@, JsonView::Text("banking77.nanoclassify.v1"@)),
            ("train_csv"@, JsonView::Text(train_csv)),
            ("heldout_csv"@, JsonView::Text(heldout_csv)),
            ("heldout_indices_json"@, match heldout_indices_json { Some(t) => JsonView::Text(t), None => JsonView::Null }),
            ("split_seed"@, JsonView::Number(NumberView::Unsigned(20260907))),
            ("selection_seed"@, JsonView::Number(NumberView::Unsigned(20260908))),
            ("heldout_seed"@, JsonView::Number(NumberView::Unsigned(20260906))),
            ("dev_per_class"@, JsonView::Number(NumberView::Unsigned(10))),
            ("selection_size"@, JsonView::Number(NumberView::Unsigned(400))),
            ("heldout_size"@, JsonView::Number(NumberView::Unsigned(400))),
            ("label_taxonomy"@, JsonView::Array(banking77_labels().map_values(|t: Seq<char>| JsonView::Text(t)))),
            ("system_prompt"@, JsonView::Text(banking77_system_prompt())),
            ("scorer_version"@, JsonView::Text("banking77.exact_label.v1"@)),
            ("heldout_locked"@, JsonView::Bool(true)),
        ],
    )
}

/// The `cispo.request.v1` request of a hosted Banking77 run: the canonical
/// Tinker slime-reference configuration over the NanoClassify split, resuming
/// from the SFT parent.
pub open spec fn cispo_request_view(
    train_csv: Seq<char>,
    heldout_csv: Seq<char>,
    heldout_indices_json: Option<Seq<char>>,
    parent: JsonView,
) -> JsonView {
    JsonView::Object(
        seq![
            ("schema_version"@, JsonView::Text("cispo.request.v1"@)),
            ("algorithm_id"@, JsonView::Text("cispo"@)),
            ("implementation"@, JsonView::Text("slime-reference"@)),
            ("implementation_version"@, JsonView::Text("cispo.slime.v1"@)),
            ("provider"@, JsonView::Text("tinker"@)),
            ("model_id"@, JsonView::Text("openai/gpt-oss-20b"@)),
            ("base_model"@, JsonView::Text("openai/gpt-oss-20b"@)),
            ("renderer_version"@, JsonView::Text("renderers.gpt-oss.low.v1"@)),
            ("runner_version"@, JsonView::Text("synth-optimizers.training.v1"@)),
            ("seed"@, JsonView::Number(NumberView::Unsigned(20260902))),
            ("repeat_index"@, JsonView::Number(NumberView::Unsigned(0))),
            ("mode"@, JsonView::Text("canonical"@)),
            ("rank"@, JsonView::Number(NumberView::Unsigned(16))),
            ("parent_checkpoint"@, parent),
            ("dataset"@, cispo_dataset_view(train_csv, heldout_csv, heldout_indices_json)),
            ("training"@, cispo_training_view()),
            ("reward"@, cispo_reward_view()),
            ("evaluation"@, cispo_evaluation_view()),
        ],
    )
}

fn cispo_training() -> (r: JsonValue)
    ensures
        r@ == cispo_training_view(),
{
    let entries = vec![
        field("updates", unsigned_value(50)),
        field("group_size", unsigned_value(64)),
        field("prompts_per_update", unsigned_value(3)),
        field("max_sample_tokens", unsigned_value(24)),
        field("temperature", decimal_value("1.0")),
        field("learning_rate", decimal_value("1e-6")),
        field("eps_clip", decimal_value("1.0")),
        field("eps_clip_high", decimal_value("4.0")),
        field("normalize_group_rewards", JsonValue::Bool(true)),
        field("checkpoint_every_updates", unsigned_value(10)),
    ];
    let ghost es = entries@;
    let r = object_of(entries);
    proof {
        lemma_entries_of(es);
        if let JsonView::Object(want) = cispo_training_view() {
            assert(entries_of(es) =~= want);
        }
    }
    r
}

fn cispo_reward() -> (r: JsonValue)
    ensures
        r@ == cispo_reward_view(),
{
    let entries = vec![
        field("version", text_value("banking77.exact_label.v1")),
        field("task", text_value("banking77")),
    ];
    let ghost es = entries@;
    let r = object_of(entries);
    proof {
        lemma_entries_of(es);
        if let JsonView::Object(want) = cispo_reward_view() {
            assert(entries_of(es) =~= want);
        }
    }
    r
}

fn cispo_evaluation() -> (r: JsonValue)
    ensures
        r@ == cispo_evaluation_view(),
{
    let entries = vec![
        field("scorer_version", text_value("banking77.exact_label.v1")),
        field("heldout_locked", JsonValue::Bool(true)),
        field("mode", text_value("canonical")),
        field("max_tokens", unsigned_value(64)),
        field("confidence", decimal_value("0.95")),
        field("bootstrap_resamples", unsigned_value(4000)),
        field("minimum_claim_uplift", decimal_value("0.01")),
        field("minimum_paired_examples", unsigned_value(400)),
    ];
    let ghost es = entries@;
    let r = object_of(entries);
    proof {
        lemma_entries_of(es);
        if let JsonView::Object(want) = cispo_evaluation_view() {
            assert(entries_of(es) =~= want);
        }
    }
    r
}

fn cispo_dataset(train_csv: &str, heldout_csv: &str, heldout_indices_json: Option<&str>) -> (r: JsonValue)
    ensures
        r@ == cispo_dataset_view(train_csv@, heldout_csv@, match heldout_indices_json { Some(t) => Some(t@), None => None }),
{
    let labels = banking77_label_taxonomy();
    let labels_value = text_array(labels.as_slice());
    let joined = join_with(&labels, ", ");
    let prompt = concat(
        "Classify the customer banking message. Return exactly one label from this list, with no explanation or punctuation:\n",
        joined.as_str(),
    );
    let entries = vec![
        field("recipe_id", text_value("banking77.cispo.nanoclassify.v1")),
        field("split_strategy", text_value("banking77.nanoclassify.v1")),
        field("train_csv", text_value(train_csv)),
        field("heldout_csv", text_value(heldout_csv)),
        field("heldout_indices_json", crate::json::optional_text(heldout_indices_json)),
        field("split_seed", unsigned_value(20260907)),
        field("selection_seed", unsigned_value(20260908)),
        field("heldout_seed", unsigned_value(20260906)),
        field("dev_per_class", unsigned_value(10)),
        field("selection_size", unsigned_value(400)),
        field("heldout_size", unsigned_value(400)),
        field("label_taxonomy", labels_value),
        field("system_prompt", JsonValue::String(prompt)),
        field("scorer_version", text_value("banking77.exact_label.v1")),
        field("heldout_locked", JsonValue::Bool(true)),
    ];
    let ghost es = entries@;
    let r = object_of(entries);
    proof {
        lemma_entries_of(es);
        let lv = labels@;
        assert(Seq::new(lv.len(), |k: int| JsonView::Text(lv[k]@)) =~= banking77_labels().map_values(
            |t: Seq<char>| JsonView::Text(t),
        ));
        if let JsonView::Object(want) = cispo_dataset_view(train_csv@, heldout_csv@, match heldout_indices_json { Some(t) => Some(t@), None => None }) {
            assert(entries_of(es) =~= want);
        }
    }
    r
}

/// The request that starts a hosted Banking77 CISPO run.
pub fn hosted_cispo_config_json(train_csv: &str, heldout_csv: &str, heldout_indices_json: Option<&str>, parent: JsonValue) -> (r: JsonValue)
    ensures
        r@ == cispo_request_view(train_csv@, heldout_csv@, match heldout_indices_json { Some(t) => Some(t@), None => None }, parent@),
{
    let ghost parent_view = parent@;
    let entries = vec![
        field("schema_version", text_value("cispo.request.v1")),
        field("algorithm_id", text_value("cispo")),
        field("implementation", text_value("slime-reference")),
        field("implementation_version", text_value("cispo.slime.v1")),
        field("provider", text_value("tinker")),
        field("model_id", text_value("openai/gpt-oss-20b")),
        field("base_model", text_value("openai/gpt-oss-20b")),
        field("renderer_version", text_value("renderers.gpt-oss.low.v1")),
        field("runner_version", text_value("synth-optimizers.training.v1")),
        field("seed", unsigned_value(20260902)),
        field("repeat_index", unsigned_value(0)),
        field("mode", text_value("canonical")),
        field("rank", unsigned_value(16)),
        field("parent_checkpoint", parent),
        field("dataset", cispo_dataset(train_csv, heldout_csv, heldout_indices_json)),
        field("training", cispo_training()),
        field("reward", cispo_reward()),
        field("evaluation", cispo_evaluation()),
    ];
    let ghost es = entries@;
    let r = object_of(entries);
    proof {
        lemma_entries_of(es);
        if let JsonView::Object(want) = cispo_request_view(train_csv@, heldout_csv@, match heldout_indices_json { Some(t) => Some(t@), None => None }, parent_view) {
            assert(entries_of(es) =~= want);
        }
    }
    r
}


/// The CISPO recipes this host offers: the on-device one, then the hosted
/// Banking77 and general hosted ones, which share one availability.
pub fn recipe_catalog(
    local_recipe_id: &str,
    local_placement: &str,
    local_available: bool,
    banking77_recipe_id: &str,
    hosted_recipe_id: &str,
    hosted_placement: &str,
    hosted: (bool, Option<String>),
) -> (r: Vec<JsonValue>)
    ensures
        r@.len() == 3,
        r@[0]@ == local_recipe_view(local_recipe_id@, local_placement@, local_available),
        r@[1]@ == hosted_recipe_view(
            banking77_recipe_id@,
            "Banking77 Tinker CISPO"@,
            hosted_placement@,
            hosted.0,
            match hosted.1 {
                Some(t) => Some(t@),
                None => None,
            },
        ),
        r@[2]@ == hosted_recipe_view(
            hosted_recipe_id@,
            "Hosted CISPO · Tinker"@,
            hosted_placement@,
            hosted.0,
            match hosted.1 {
                Some(t) => Some(t@),
                None => None,
            },
        ),
{
    let (available, reason) = hosted;
    let again = match &reason {
        Some(t) => Some(t.clone()),
        None => None,
    };
    vec![
        local_mlx_recipe(local_recipe_id, local_placement, local_available),
        hosted_cispo_recipe(banking77_recipe_id, "Banking77 Tinker CISPO", hosted_placement, (available, reason)),
        hosted_cispo_recipe(hosted_recipe_id, "Hosted CISPO · Tinker", hosted_placement, (available, again)),
    ]
}

// ---------------------------------------------------------------------------
// Starting the on-device recipe
// ---------------------------------------------------------------------------

/// A resource a training run reads or produces, as its record lists it.
#[derive(Debug)]
pub struct OptimizerResourceRef {
    pub kind: String,
    pub id: String,
    pub digest: Option<String>,
    pub role: Option<String>,
    pub title: Option<String>,
    pub metadata: JsonValue,
}

pub struct ResourceRefView {
    pub kind: Seq<char>,
    pub id: Seq<char>,
    pub digest: Option<Seq<char>>,
    pub role: Option<Seq<char>>,
    pub title: Option<Seq<char>>,
    pub metadata: JsonView,
}

impl View for OptimizerResourceRef {
    type V = ResourceRefView;

    open spec fn view(&self) -> ResourceRefView {
        ResourceRefView {
            kind: self.kind@,
            id: self.id@,
            digest: opt_view(self.digest),
            role: opt_view(self.role),
            title: opt_view(self.title),
            metadata: self.metadata@,
        }
    }
}

pub open spec fn refs_view(refs: Seq<OptimizerResourceRef>) -> Seq<ResourceRefView> {
    refs.map_values(|r: OptimizerResourceRef| r@)
}

/// The id of a local run: `cispo_mlx_` and the first twelve characters of a
/// fresh identifier's simple form.
pub fn local_cispo_run_id(suffix: &str) -> (r: String)
    requires
        suffix@.len() >= 12,
        forall|k: int| 0 <= k < 12 ==> (#[trigger] suffix@[k]) as u32 <= 0x7f,
    ensures
        r@ == "cispo_mlx_"@ + suffix@.subrange(0, 12),
{
    let chars = crate::text::chars_of(suffix);
    let mut head: Vec<char> = Vec::new();
    let mut i: usize = 0;
    while i < 12
        invariant
            i <= 12,
            chars@ == suffix@,
            chars@.len() >= 12,
            head@ == chars@.subrange(0, i as int),
        decreases 12 - i,
    {
        head.push(chars[i]);
        assert(chars@.subrange(0, i + 1) =~= chars@.subrange(0, i as int).push(chars@[i as int]));
        i = i + 1;
    }
    let head_text = crate::text::string_of(&head);
    concat("cispo_mlx_", head_text.as_str())
}

/// Where a local run writes: `optimizers/mlx-cispo/<run id>` under the data
/// root.
pub fn local_cispo_output_dir(data_root: &str, run_id: &str) -> (r: String)
    ensures
        r@ == joined_path(joined_path(data_root@, "optimizers/mlx-cispo"@), run_id@),
{
    let parent = join_path(data_root, "optimizers/mlx-cispo");
    join_path(parent.as_str(), run_id)
}

/// Whether a producing run's input is the one a warm start falls back on:
/// of the given kind, and with the `train` role where that is asked.
pub open spec fn is_fallback_input(r: ResourceRefView, kind: Seq<char>, train_only: bool) -> bool {
    r.kind == kind && (train_only ==> r.role == Some("train"@))
}

/// The digest of the first such input, if there is one (and it has one).
pub open spec fn first_input_digest(inputs: Seq<ResourceRefView>, kind: Seq<char>, train_only: bool) -> Option<Seq<char>>
    decreases inputs.len(),
{
    if inputs.len() == 0 {
        None
    } else if is_fallback_input(inputs[0], kind, train_only) {
        inputs[0].digest
    } else {
        first_input_digest(inputs.drop_first(), kind, train_only)
    }
}

fn fallback_digest(inputs: &Vec<OptimizerResourceRef>, kind: &str, train_only: bool) -> (r: Option<String>)
    ensures
        opt_view(r) == first_input_digest(refs_view(inputs@), kind@, train_only),
{
    let ghost all = refs_view(inputs@);
    assert(all.subrange(0, all.len() as int) =~= all);
    let mut i: usize = 0;
    while i < inputs.len()
        invariant
            i <= inputs.len(),
            all == refs_view(inputs@),
            first_input_digest(all, kind@, train_only) == first_input_digest(
                all.subrange(i as int, all.len() as int),
                kind@,
                train_only,
            ),
        decreases inputs.len() - i,
    {
        let item = &inputs[i];
        let ghost rest = all.subrange(i as int, all.len() as int);
        assert(rest[0] == item@);
        assert(rest.drop_first() =~= all.subrange(i + 1, all.len() as int));
        let role_ok = if train_only {
            match &item.role {
                Some(role) => same_text(role.as_str(), "train"),
                None => false,
            }
        } else {
            true
        };
        if same_text(item.kind.as_str(), kind) && role_ok {
            return match &item.digest {
                Some(d) => Some(d.clone()),
                None => None,
            };
        }
        i = i + 1;
    }
    None
}

/// The dataset and configuration digests a warm-start artifact carries,
/// where it lacks one falling back on its producing run: the first input
/// that is a `dataset` in the `train` role, and the first
/// `training_configuration` input.
pub fn warm_start_digests(
    dataset_digest: Option<String>,
    config_digest: Option<String>,
    producing_inputs: &Vec<OptimizerResourceRef>,
) -> (r: (Option<String>, Option<String>))
    ensures
        opt_view(r.0) == match dataset_digest {
            Some(d) => Some(d@),
            None => first_input_digest(refs_view(producing_inputs@), "dataset"@, true),
        },
        opt_view(r.1) == match config_digest {
            Some(d) => Some(d@),
            None => first_input_digest(refs_view(producing_inputs@), "training_configuration"@, false),
        },
{
    let dataset = match dataset_digest {
        Some(d) => Some(d),
        None => fallback_digest(producing_inputs, "dataset", true),
    };
    let config = match config_digest {
        Some(d) => Some(d),
        None => fallback_digest(producing_inputs, "training_configuration", false),
    };
    (dataset, config)
}

/// The container workload a local run trains on.
pub open spec fn workload_ref_view(task_id: Seq<char>, container_id: Seq<char>, digest: Seq<char>) -> ResourceRefView {
    ResourceRefView {
        kind: "dataset"@,
        id: task_id + ":workload"@,
        digest: Some(digest),
        role: Some("rollout_workload"@),
        title: Some("Container rollout workload"@),
        metadata: JsonView::Object(
            seq![
                ("containerId"@, JsonView::Text(container_id)),
                ("taskId"@, JsonView::Text(task_id)),
                ("source"@, JsonView::Text("workshop_container"@)),
            ],
        ),
    }
}

/// The SFT adapter a local run starts from.
pub open spec fn warm_start_ref_view(artifact_id: Seq<char>, digest: Option<Seq<char>>, artifact: JsonView) -> ResourceRefView {
    ResourceRefView {
        kind: "checkpoint"@,
        id: artifact_id,
        digest,
        role: Some("warm_start"@),
        title: Some("SFT warm-start adapter"@),
        metadata: JsonView::Object(seq![("trainingArtifact"@, artifact)]),
    }
}

/// The inputs a local run records: the container workload where the binding
/// has a dataset digest, then the warm-start adapter where one was chosen.
pub fn local_cispo_input_refs(
    task_id: &str,
    container_id: &str,
    dataset_digest: Option<String>,
    warm_start: Option<(String, Option<String>, JsonValue)>,
) -> (r: Vec<OptimizerResourceRef>)
    ensures
        refs_view(r@) == (match dataset_digest {
            Some(d) => seq![workload_ref_view(task_id@, container_id@, d@)],
            None => Seq::empty(),
        }) + (match warm_start {
            Some(w) => seq![warm_start_ref_view(w.0@, opt_view(w.1), w.2@)],
            None => Seq::empty(),
        }),
{
    let mut refs: Vec<OptimizerResourceRef> = Vec::new();
    match dataset_digest {
        Some(d) => {
            let entries = vec![
                field("containerId", text_value(container_id)),
                field("taskId", text_value(task_id)),
                field("source", text_value("workshop_container")),
            ];
            let ghost es = entries@;
            let metadata = object_of(entries);
            proof {
                lemma_entries_of(es);
                if let JsonView::Object(want) = workload_ref_view(task_id@, container_id@, d@).metadata {
                    assert(entries_of(es) =~= want);
                }
            }
            refs.push(OptimizerResourceRef {
                kind: String::from_str("dataset"),
                id: concat(task_id, ":workload"),
                digest: Some(d),
                role: Some(String::from_str("rollout_workload")),
                title: Some(String::from_str("Container rollout workload")),
                metadata,
            });
        },
        None => {},
    }
    let ghost first = refs@;
    match warm_start {
        Some((artifact_id, digest, artifact)) => {
            let entries = vec![field("trainingArtifact", artifact)];
            let ghost es = entries@;
            let metadata = object_of(entries);
            proof {
                lemma_entries_of(es);
                assert(entries_of(es) =~= seq![("trainingArtifact"@, artifact@)]);
            }
            refs.push(OptimizerResourceRef {
                kind: String::from_str("checkpoint"),
                id: artifact_id,
                digest,
                role: Some(String::from_str("warm_start")),
                title: Some(String::from_str("SFT warm-start adapter")),
                metadata,
            });
            assert(refs_view(refs@) =~= refs_view(first).push(refs@.last()@));
        },
        None => {},
    }
    assert(refs_view(refs@) =~= (match dataset_digest {
        Some(d) => seq![workload_ref_view(task_id@, container_id@, d@)],
        None => Seq::empty(),
    }) + (match warm_start {
        Some(w) => seq![warm_start_ref_view(w.0@, opt_view(w.1), w.2@)],
        None => Seq::empty(),
    }));
    refs
}

/// The phases a local run is evaluated in.
pub open spec fn local_evaluation_plan_view() -> JsonView {
    JsonView::Object(
        seq![
            ("phases"@, JsonView::Array(
                seq![JsonView::Text("baseline"@), JsonView::Text("checkpoint"@), JsonView::Text("final"@)],
            )),
            ("checkpointEvery"@, JsonView::Number(NumberView::Unsigned(1))),
            ("transport"@, JsonView::Text("tunnel"@)),
            ("metric"@, JsonView::Text("reward"@)),
        ],
    )
}

/// The summary a local run is created with.
pub open spec fn local_cispo_summary_view(recipe_id: Seq<char>, placement: Seq<char>, container_id: Seq<char>) -> JsonView {
    JsonView::Object(
        seq![
            ("recipeId"@, JsonView::Text(recipe_id)),
            ("backend"@, JsonView::Text("cispo"@)),
            ("placement"@, JsonView::Text(placement)),
            ("containerId"@, JsonView::Text(container_id)),
            ("trainingCursor"@, JsonView::Number(NumberView::Unsigned(0))),
            ("evaluationPlan"@, local_evaluation_plan_view()),
        ],
    )
}

/// The summary a local run is created with: its recipe, placement and
/// container, a training cursor at zero, and the evaluation phases.
pub fn local_cispo_summary(recipe_id: &str, placement: &str, container_id: &str) -> (r: JsonValue)
    ensures
        r@ == local_cispo_summary_view(recipe_id@, placement@, container_id@),
{
    let phases = vec![
        String::from_str("baseline"),
        String::from_str("checkpoint"),
        String::from_str("final"),
    ];
    let phase_array = text_array(phases.as_slice());
    let plan_entries = vec![
        field("phases", phase_array),
        field("checkpointEvery", unsigned_value(1)),
        field("transport", text_value("tunnel")),
        field("metric", text_value("reward")),
    ];
    let ghost pes = plan_entries@;
    let plan = object_of(plan_entries);
    let entries = vec![
        field("recipeId", text_value(recipe_id)),
        field("backend", text_value("cispo")),
        field("placement", text_value(placement)),
        field("containerId", text_value(container_id)),
        field("trainingCursor", unsigned_value(0)),
        field("evaluationPlan", plan),
    ];
    let ghost es = entries@;
    let r = object_of(entries);
    proof {
        lemma_entries_of(pes);
        lemma_entries_of(es);
        let pv = phases@;
        assert(Seq::new(pv.len(), |k: int| JsonView::Text(pv[k]@)) =~= seq![
            JsonView::Text("baseline"@),
            JsonView::Text("checkpoint"@),
            JsonView::Text("final"@),
        ]);
        if let JsonView::Object(want) = local_evaluation_plan_view() {
            assert(entries_of(pes) =~= want);
        }
        if let JsonView::Object(want) = local_cispo_summary_view(recipe_id@, placement@, container_id@) {
            assert(entries_of(es) =~= want);
        }
    }
    r
}

/// What a container's advertised CISPO contract hands a local run: the task
/// and service base, and the values passed through to the trainer as given.
pub struct LocalCispoBinding {
    pub task_id: String,
    /// The registered service base; the trainer appends its own routes.
    pub base_url: String,
    pub implementation: JsonValue,
    pub bearer_token: JsonValue,
    pub reward_url: JsonValue,
    pub train_world_ref: JsonValue,
    pub heldout_world_ref: JsonValue,
}

/// How a local run reaches the container's rollouts.
pub open spec fn local_rollout_view(b: LocalCispoBinding) -> JsonView {
    JsonView::Object(
        seq![
            ("url"@, JsonView::Text(b.base_url@)),
            ("task_id"@, JsonView::Text(b.task_id@)),
            ("max_tokens"@, JsonView::Number(NumberView::Unsigned(256))),
            ("bearer_token"@, b.bearer_token@),
            ("reward_url"@, b.reward_url@),
            ("train_world_ref"@, b.train_world_ref@),
            ("heldout_world_ref"@, b.heldout_world_ref@),
            ("train_instances"@, JsonView::Number(NumberView::Unsigned(16))),
            ("heldout_instances"@, JsonView::Number(NumberView::Unsigned(16))),
        ],
    )
}

/// The trainer configuration of a local run: one step of one 16-member
/// on-policy group from the Qwen 2B base model, a LoRA of rank 8, a 256-token
/// completion budget, and the warm-start adapter where there is one.
pub open spec fn local_cispo_config_view(
    b: LocalCispoBinding,
    output_dir: Seq<char>,
    evaluation: JsonView,
    max_seq_length: u64,
    warm_start: Option<Seq<char>>,
) -> JsonView {
    JsonView::Object(
        seq![
            ("backend"@, JsonView::Text("cispo"@)),
            ("base_model"@, JsonView::Text("Qwen/Qwen3.5-2B"@)),
            ("task"@, JsonView::Text(b.task_id@)),
            ("implementation"@, b.implementation@),
            ("rollout"@, local_rollout_view(b)),
            ("output_dir"@, JsonView::Text(output_dir)),
            ("max_steps"@, JsonView::Number(NumberView::Unsigned(1))),
            ("checkpoint_every"@, JsonView::Number(NumberView::Unsigned(1))),
            ("signal_attempts"@, JsonView::Number(NumberView::Unsigned(24))),
            ("group_size"@, JsonView::Number(NumberView::Unsigned(16))),
            ("learning_rate"@, decimal_view("0.00005"@)),
            ("evaluation"@, evaluation),
            ("lora_rank"@, JsonView::Number(NumberView::Unsigned(8))),
            ("lora_alpha"@, decimal_view("16.0"@)),
            ("lora_dropout"@, decimal_view("0.0"@)),
            ("max_seq_length"@, JsonView::Number(NumberView::Unsigned(max_seq_length))),
            ("enable_thinking"@, JsonView::Bool(false)),
            ("warm_start"@, match warm_start {
                Some(p) => JsonView::Text(p),
                None => JsonView::Null,
            }),
        ],
    )
}

/// The trainer configuration of a local run.
pub fn local_cispo_config(
    binding: LocalCispoBinding,
    output_dir: &str,
    evaluation: JsonValue,
    max_seq_length: u64,
    warm_start: Option<&str>,
) -> (r: JsonValue)
    ensures
        r@ == local_cispo_config_view(
            binding,
            output_dir@,
            evaluation@,
            max_seq_length,
            match warm_start {
                Some(p) => Some(p@),
                None => None,
            },
        ),
{
    let ghost b = binding;
    let LocalCispoBinding {
        task_id,
        base_url,
        implementation,
        bearer_token,
        reward_url,
        train_world_ref,
        heldout_world_ref,
    } = binding;
    let rollout_entries = vec![
        field("url", text_value(base_url.as_str())),
        field("task_id", text_value(task_id.as_str())),
        field("max_tokens", unsigned_value(256)),
        field("bearer_token", bearer_token),
        field("reward_url", reward_url),
        field("train_world_ref", train_world_ref),
        field("heldout_world_ref", heldout_world_ref),
        field("train_instances", unsigned_value(16)),
        field("heldout_instances", unsigned_value(16)),
    ];
    let ghost res = rollout_entries@;
    let rollout = object_of(rollout_entries);
    proof {
        lemma_entries_of(res);
        if let JsonView::Object(want) = local_rollout_view(b) {
            assert(entries_of(res) =~= want);
        }
    }
    let entries = vec![
        field("backend", text_value("cispo")),
        field("base_model", text_value("Qwen/Qwen3.5-2B")),
        field("task", text_value(task_id.as_str())),
        field("implementation", implementation),
        field("rollout", rollout),
        field("output_dir", text_value(output_dir)),
        field("max_steps", unsigned_value(1)),
        field("checkpoint_every", unsigned_value(1)),
        field("signal_attempts", unsigned_value(24)),
        field("group_size", unsigned_value(16)),
        field("learning_rate", decimal_value("0.00005")),
        field("evaluation", evaluation),
        field("lora_rank", unsigned_value(8)),
        field("lora_alpha", decimal_value("16.0")),
        field("lora_dropout", decimal_value("0.0")),
        field("max_seq_length", unsigned_value(max_seq_length)),
        field("enable_thinking", JsonValue::Bool(false)),
        field("warm_start", optional_text(warm_start)),
    ];
    let ghost es = entries@;
    let r = object_of(entries);
    proof {
        lemma_entries_of(es);
        let ws = match warm_start {
            Some(p) => Some(p@),
            None => None,
        };
        if let JsonView::Object(want) = local_cispo_config_view(b, output_dir@, evaluation@, max_seq_length, ws) {
            assert(entries_of(es) =~= want);
        }
    }
    r
}

/// Hosted CISPO is fail-closed: it is offered exactly when the placement is
/// admitted by a paid validation receipt, the service client is configured
/// and the references are readable; whenever it is not, a reason is given.
pub proof fn law_hosted_cispo_is_fail_closed(
    admitted: bool,
    client_ok: bool,
    reference_ok: bool,
    service_token: Option<Seq<char>>,
    service_url: Option<Seq<char>>,
)
    ensures
        cispo_unavailability(admitted, client_ok, reference_ok, service_token, service_url) is None
            <==> admitted && client_ok && reference_ok,
        !admitted ==> cispo_unavailability(admitted, client_ok, reference_ok, service_token, service_url)
            == Some("Hosted CISPO stays fail-closed until TINKER_CISPO_VALIDATION_RECEIPT points at a paid slime-canary receipt (validated=true, paid_update=true)."@),
{
}

} // verus!
