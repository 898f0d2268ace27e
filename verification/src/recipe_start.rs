//! The decisions taken when an operator or agent starts an optimizer recipe:
//! which recipes run without a paid-compute approval, which credentials a
//! recipe needs, what caps bound it, and what a provider credential lease may
//! spend. The approvals themselves, and the start, are carried out by the host.

use crate::admission::pipeline::{disclosure_json, AdmissibleExecutionSpec};
use crate::admission::spec::{provider_use_policy_from_bounds, SecretsUsePolicy};
use crate::json::{
    copy_json, entries_of, field, member, object1, object2, object_of, text_value, text_view, JsonValue,
    JsonView, NumberView,
};
use crate::limits::SECRETS_CAPABILITY_TTL;
use crate::text::{concat, concat3, has_prefix, same_text, starts_with, texts_of, trim, trim_str};
use vstd::prelude::*;

verus! {

/// The credentials a recipe needs when its catalog entry declares none.
pub open spec fn default_credentials(recipe_id: Seq<char>) -> Seq<Seq<char>> {
    if recipe_id == "sft.craftax.gpt-oss.smoke.v1"@ {
        seq!["GROQ_API_KEY"@, "TINKER_API_KEY"@]
    } else if recipe_id == "gelo.craftax.hosted.v1"@ {
        seq!["OPTIMIZERS_BETA_SERVICE_TOKEN"@]
    } else if recipe_id == "sft.craftax.nemotron-nano.tinker.v1"@
        || recipe_id == "sft.banking77.nemotron-lightning.tinker.v1"@ {
        seq!["SYNTH_OPTIMIZERS_SFT_SERVICE_TOKEN"@]
    } else if has_prefix(recipe_id, "gepa."@) || has_prefix(recipe_id, "eval."@) {
        seq!["OPENAI_API_KEY"@]
    } else {
        Seq::empty()
    }
}

fn names(a: &str, b: Option<&str>) -> (r: Vec<String>)
    ensures
        texts_of(r@) == match b {
            Some(b) => seq![a@, b@],
            None => seq![a@],
        },
{
    let mut r: Vec<String> = Vec::new();
    r.push(String::from_str(a));
    if let Some(b) = b {
        r.push(String::from_str(b));
    }
    assert(texts_of(r@) =~= match b {
        Some(b) => seq![a@, b@],
        None => seq![a@],
    });
    r
}

/// The credentials a recipe needs by its id alone.
pub fn optimizer_recipe_credentials(recipe_id: &str) -> (r: Vec<String>)
    ensures
        texts_of(r@) == default_credentials(recipe_id@),
{
    if same_text(recipe_id, "sft.craftax.gpt-oss.smoke.v1") {
        names("GROQ_API_KEY", Some("TINKER_API_KEY"))
    } else if same_text(recipe_id, "gelo.craftax.hosted.v1") {
        names("OPTIMIZERS_BETA_SERVICE_TOKEN", None)
    } else if same_text(recipe_id, "sft.craftax.nemotron-nano.tinker.v1") || same_text(
        recipe_id,
        "sft.banking77.nemotron-lightning.tinker.v1",
    ) {
        names("SYNTH_OPTIMIZERS_SFT_SERVICE_TOKEN", None)
    } else if starts_with(recipe_id, "gepa.") || starts_with(recipe_id, "eval.") {
        names("OPENAI_API_KEY", None)
    } else {
        let r: Vec<String> = Vec::new();
        assert(texts_of(r@) =~= Seq::<Seq<char>>::empty());
        r
    }
}

/// The texts among JSON values, in order; other values are passed over.
pub open spec fn text_items(items: Seq<JsonView>) -> Seq<Seq<char>>
    decreases items.len(),
{
    if items.len() == 0 {
        Seq::empty()
    } else {
        let before = text_items(items.drop_last());
        match items.last() {
            JsonView::Text(t) => before.push(t),
            _ => before,
        }
    }
}

/// The credentials a recipe needs: those its catalog entry declares under
/// `credentialInputs`, else those its id implies.
pub open spec fn catalog_credentials(recipe: JsonView, recipe_id: Seq<char>) -> Seq<Seq<char>> {
    match member(recipe, "credentialInputs"@) {
        Some(JsonView::Array(items)) => text_items(items),
        _ => default_credentials(recipe_id),
    }
}

fn texts_among(items: &Vec<JsonValue>) -> (r: Vec<String>)
    ensures
        texts_of(r@) == text_items(crate::json::items_view(items@, items@.len() as nat)),
{
    proof {
        crate::json::lemma_items_view_len(items@, items@.len() as nat);
    }
    let ghost all = crate::json::items_view(items@, items@.len() as nat);
    let mut r: Vec<String> = Vec::new();
    let mut i: usize = 0;
    while i < items.len()
        invariant
            i <= items@.len(),
            all == crate::json::items_view(items@, items@.len() as nat),
            all.len() == items@.len(),
            forall|k: int| 0 <= k < items@.len() ==> #[trigger] all[k] == items@[k]@,
            texts_of(r@) == text_items(all.take(i as int)),
        decreases items@.len() - i,
    {
        assert(all.take(i + 1).drop_last() =~= all.take(i as int));
        assert(all.take(i + 1).last() == items@[i as int]@);
        match items[i].as_text() {
            Some(t) => {
                r.push(t.clone());
                assert(texts_of(r@) =~= text_items(all.take(i + 1)));
            },
            None => {},
        }
        i = i + 1;
    }
    assert(all.take(i as int) =~= all);
    r
}

/// The credentials a recipe needs, from its catalog entry.
pub fn optimizer_recipe_credentials_from_catalog(recipe: &JsonValue, recipe_id: &str) -> (r: Vec<String>)
    ensures
        texts_of(r@) == catalog_credentials(recipe@, recipe_id@),
{
    match recipe.get("credentialInputs") {
        Some(declared) => match declared.as_items() {
            Some(items) => texts_among(items),
            None => optimizer_recipe_credentials(recipe_id),
        },
        None => optimizer_recipe_credentials(recipe_id),
    }
}

/// Recipes that run locally or evaluate a pinned fixture incur no provider
/// charge: starting one is itself the operator's instruction.
pub open spec fn is_free_recipe(recipe_id: Seq<char>) -> bool {
    recipe_id == "sft.qwen35-2b.mlx.v1"@ || recipe_id == "cispo.mlx.v1"@
        || recipe_id == "eval.fixture.policy-smoke.v1"@
}

pub fn is_free_local_recipe(recipe_id: &str) -> (r: bool)
    ensures
        r == is_free_recipe(recipe_id@),
{
    same_text(recipe_id, "sft.qwen35-2b.mlx.v1") || same_text(recipe_id, "cispo.mlx.v1")
        || same_text(recipe_id, "eval.fixture.policy-smoke.v1")
}

/// The session an approval is requested for, and who requests it: the
/// trimmed session reference where one is given and not blank, and otherwise
/// the workshop operator.
pub fn requesting_agent(session_ref: Option<&str>) -> (r: (Option<String>, String))
    ensures
        match session_ref {
            Some(s) if trim(s@).len() > 0 => r.0 matches Some(id) && id@ == trim(s@)
                && r.1@ == "Agent session "@ + trim(s@),
            _ => r.0 is None && r.1@ == "Workshop operator"@,
        },
{
    match session_ref {
        Some(s) => {
            let id = trim_str(s);
            if id.as_str().is_empty() {
                (None, String::from_str("Workshop operator"))
            } else {
                let agent = concat("Agent session ", id.as_str());
                (Some(id), agent)
            }
        },
        None => (None, String::from_str("Workshop operator")),
    }
}

/// What a catalog entry says of how a recipe runs.
#[derive(Clone, Copy, Debug, PartialEq, Eq, Structural)]
pub struct RecipeTraits {
    /// An evaluation recipe run by the local evaluation algorithm.
    pub is_local_eval: bool,
    /// A local evaluation of the policy a workspace container already pins.
    pub is_container_baseline_eval: bool,
    /// A hosted SFT recipe, owned by the public control plane.
    pub is_hosted_sft: bool,
}

pub open spec fn text_member(v: JsonView, key: Seq<char>) -> Option<Seq<char>> {
    match member(v, key) {
        Some(JsonView::Text(t)) => Some(t),
        _ => None,
    }
}

pub open spec fn traits_of(recipe: JsonView, recipe_id: Seq<char>) -> RecipeTraits {
    let algorithm = text_member(recipe, "algorithmId"@);
    let local_eval = algorithm == Some("eval"@);
    RecipeTraits {
        is_local_eval: local_eval,
        is_container_baseline_eval: local_eval && text_member(recipe, "source"@) == Some("workspace"@)
            && text_member(recipe, "semantics"@) == Some("baseline_eval"@),
        is_hosted_sft: algorithm == Some("sft"@) && recipe_id != "sft.craftax.gpt-oss.smoke.v1"@,
    }
}

fn member_is(recipe: &JsonValue, key: &str, expected: &str) -> (r: bool)
    ensures
        r == (text_member(recipe@, key@) == Some(expected@)),
{
    match recipe.get(key) {
        Some(v) => match v.as_text() {
            Some(t) => same_text(t.as_str(), expected),
            None => false,
        },
        None => false,
    }
}

/// How a recipe runs, from its catalog entry.
pub fn recipe_traits(recipe: &JsonValue, recipe_id: &str) -> (r: RecipeTraits)
    ensures
        r == traits_of(recipe@, recipe_id@),
{
    let local_eval = member_is(recipe, "algorithmId", "eval");
    let baseline = local_eval && member_is(recipe, "source", "workspace") && member_is(
        recipe,
        "semantics",
        "baseline_eval",
    );
    let hosted_sft = member_is(recipe, "algorithmId", "sft") && !same_text(
        recipe_id,
        "sft.craftax.gpt-oss.smoke.v1",
    );
    RecipeTraits {
        is_local_eval: local_eval,
        is_container_baseline_eval: baseline,
        is_hosted_sft: hosted_sft,
    }
}

/// A member read as a non-negative integer.
pub open spec fn count_member(v: JsonView, key: Seq<char>) -> Option<u64> {
    match member(v, key) {
        Some(JsonView::Number(NumberView::Unsigned(n))) => Some(n),
        _ => None,
    }
}

fn count_of(v: &JsonValue, key: &str) -> (r: Option<u64>)
    ensures
        r == count_member(v@, key@),
{
    match v.get(key) {
        Some(m) => m.as_u64(),
        None => None,
    }
}

/// The rollout cap a recipe's limits declare: a container baseline
/// evaluation's `maxTotalRollouts`; otherwise the first of
/// `maxTotalRollouts`, `maxTotalEnvironmentRollouts` and `maxSearchRollouts`
/// that holds a count.
pub open spec fn rollout_cap_of(limits: JsonView, container_baseline: bool) -> Option<u64> {
    if container_baseline {
        count_member(limits, "maxTotalRollouts"@)
    } else if count_member(limits, "maxTotalRollouts"@) is Some {
        count_member(limits, "maxTotalRollouts"@)
    } else if count_member(limits, "maxTotalEnvironmentRollouts"@) is Some {
        count_member(limits, "maxTotalEnvironmentRollouts"@)
    } else {
        count_member(limits, "maxSearchRollouts"@)
    }
}

pub fn declared_rollout_cap(limits: &JsonValue, container_baseline: bool) -> (r: Option<u64>)
    ensures
        r == rollout_cap_of(limits@, container_baseline),
{
    if container_baseline {
        return count_of(limits, "maxTotalRollouts");
    }
    match count_of(limits, "maxTotalRollouts") {
        Some(n) => Some(n),
        None => match count_of(limits, "maxTotalEnvironmentRollouts") {
            Some(n) => Some(n),
            None => count_of(limits, "maxSearchRollouts"),
        },
    }
}

/// The model calls a rollout may make: `maximumModelCallsPerRollout` where
/// that key is present, else `maxCallsPerRollout`; admitted only as a
/// positive count.
pub open spec fn calls_per_rollout_of(limits: JsonView) -> Option<u64> {
    let chosen = if member(limits, "maximumModelCallsPerRollout"@) is Some {
        count_member(limits, "maximumModelCallsPerRollout"@)
    } else {
        count_member(limits, "maxCallsPerRollout"@)
    };
    match chosen {
        Some(n) => if n > 0 { Some(n) } else { None },
        None => None,
    }
}

pub fn calls_per_rollout(limits: &JsonValue) -> (r: Option<u64>)
    ensures
        r == calls_per_rollout_of(limits@),
{
    let chosen = match limits.get("maximumModelCallsPerRollout") {
        Some(v) => v.as_u64(),
        None => count_of(limits, "maxCallsPerRollout"),
    };
    match chosen {
        Some(n) => if n > 0 { Some(n) } else { None },
        None => None,
    }
}

/// The calls a lease admits: rollouts times calls per rollout, saturating, and
/// at most `u32::MAX`.
pub open spec fn total_calls_of(rollouts: u64, calls: u64) -> u32 {
    if rollouts * calls > u32::MAX { u32::MAX } else { (rollouts * calls) as u32 }
}

pub fn total_calls(rollouts: u64, calls: u64) -> (r: u32)
    ensures
        r == total_calls_of(rollouts, calls),
{
    match rollouts.checked_mul(calls) {
        Some(product) => if product > 4_294_967_295 {
            4_294_967_295
        } else {
            product as u32
        },
        None => 4_294_967_295,
    }
}

/// Why a recipe with a provider credential may not lease it: no positive
/// calls-per-rollout bound, no positive rollout cap, or no positive cost cap,
/// checked in that order.
pub open spec fn lease_refusal(
    recipe_id: Seq<char>,
    calls: Option<u64>,
    rollouts: Option<u64>,
    cost_micros: Option<u64>,
) -> Option<Seq<char>> {
    if calls is None {
        Some("optimizer recipe `"@ + recipe_id
            + "` has a provider credential but no admitted maximumModelCallsPerRollout"@)
    } else if !(rollouts matches Some(n) && n > 0) {
        Some("optimizer recipe `"@ + recipe_id + "` has a provider credential but no admitted rollout cap"@)
    } else if !(cost_micros matches Some(c) && c > 0) {
        Some("optimizer recipe `"@ + recipe_id + "` has a provider credential but no admitted cost cap"@)
    } else {
        None
    }
}

/// The policy a provider credential lease for a recipe is issued under:
/// chat completions against the recipe's models, at most the admitted calls
/// and cost, for the capability lifetime.
pub fn recipe_lease_policy(
    recipe_id: &str,
    models: Vec<String>,
    calls: Option<u64>,
    rollouts: Option<u64>,
    cost_micros: Option<u64>,
) -> (r: Result<SecretsUsePolicy, String>)
    ensures
        match r {
            Ok(p) => lease_refusal(recipe_id@, calls, rollouts, cost_micros) is None
                && texts_of(p.operations@) == seq!["chat.completions.create"@]
                && p.models == models
                && p.reasoning_efforts@.len() == 0
                && p.max_calls == total_calls_of(rollouts->0, calls->0)
                && p.max_cost_usd_micros == cost_micros->0
                && p.lifetime_seconds == SECRETS_CAPABILITY_TTL / 1000
                && p.max_input_tokens == u64::MAX
                && p.max_output_tokens == u64::MAX,
            Err(m) => lease_refusal(recipe_id@, calls, rollouts, cost_micros) == Some(m@),
        },
{
    let calls = match calls {
        Some(c) => c,
        None => {
            return Err(concat3(
                "optimizer recipe `",
                recipe_id,
                "` has a provider credential but no admitted maximumModelCallsPerRollout",
            ));
        },
    };
    let rollouts = match rollouts {
        Some(n) if n > 0 => n,
        _ => {
            return Err(concat3(
                "optimizer recipe `",
                recipe_id,
                "` has a provider credential but no admitted rollout cap",
            ));
        },
    };
    let cost = match cost_micros {
        Some(c) if c > 0 => c,
        _ => {
            return Err(concat3(
                "optimizer recipe `",
                recipe_id,
                "` has a provider credential but no admitted cost cap",
            ));
        },
    };
    let mut operations: Vec<String> = Vec::new();
    operations.push(String::from_str("chat.completions.create"));
    assert(texts_of(operations@) =~= seq!["chat.completions.create"@]);
    Ok(provider_use_policy_from_bounds(
        operations,
        models,
        Vec::new(),
        total_calls(rollouts, calls),
        cost,
        SECRETS_CAPABILITY_TTL / 1000,
        None,
        None,
    ))
}

/// The model ids a recipe lists under `models`: each entry's `id`, or the
/// entry itself where it is a plain name.
pub open spec fn model_ids(items: Seq<JsonView>) -> Seq<Seq<char>>
    decreases items.len(),
{
    if items.len() == 0 {
        Seq::empty()
    } else {
        let before = model_ids(items.drop_last());
        let item = items.last();
        match text_member(item, "id"@) {
            Some(id) => before.push(id),
            None => match item {
                JsonView::Text(t) => before.push(t),
                _ => before,
            },
        }
    }
}

pub open spec fn recipe_model_ids(recipe: JsonView) -> Seq<Seq<char>> {
    match member(recipe, "models"@) {
        Some(JsonView::Array(items)) => model_ids(items),
        _ => Seq::empty(),
    }
}

fn model_id_of(item: &JsonValue) -> (r: Option<String>)
    ensures
        match text_member(item@, "id"@) {
            Some(id) => r matches Some(s) && s@ == id,
            None => match item@ {
                JsonView::Text(t) => r matches Some(s) && s@ == t,
                _ => r is None,
            },
        },
{
    match item.get("id") {
        Some(v) => match v.as_text() {
            Some(t) => return Some(t.clone()),
            None => {},
        },
        None => {},
    }
    match item.as_text() {
        Some(t) => Some(t.clone()),
        None => None,
    }
}

/// The models a recipe's catalog entry lists.
pub fn recipe_models(recipe: &JsonValue) -> (r: Vec<String>)
    ensures
        texts_of(r@) == recipe_model_ids(recipe@),
{
    let items = match recipe.get("models") {
        Some(v) => match v.as_items() {
            Some(items) => items,
            None => {
                let r: Vec<String> = Vec::new();
                assert(texts_of(r@) =~= Seq::<Seq<char>>::empty());
                return r;
            },
        },
        None => {
            let r: Vec<String> = Vec::new();
            assert(texts_of(r@) =~= Seq::<Seq<char>>::empty());
            return r;
        },
    };
    proof {
        crate::json::lemma_items_view_len(items@, items@.len() as nat);
    }
    let ghost all = crate::json::items_view(items@, items@.len() as nat);
    let mut r: Vec<String> = Vec::new();
    let mut i: usize = 0;
    while i < items.len()
        invariant
            i <= items@.len(),
            all == crate::json::items_view(items@, items@.len() as nat),
            all.len() == items@.len(),
            forall|k: int| 0 <= k < items@.len() ==> #[trigger] all[k] == items@[k]@,
            texts_of(r@) == model_ids(all.take(i as int)),
        decreases items@.len() - i,
    {
        assert(all.take(i + 1).drop_last() =~= all.take(i as int));
        assert(all.take(i + 1).last() == items@[i as int]@);
        match model_id_of(&items[i]) {
            Some(id) => {
                r.push(id);
                assert(texts_of(r@) =~= model_ids(all.take(i + 1)));
            },
            None => {},
        }
        i = i + 1;
    }
    assert(all.take(i as int) =~= all);
    r
}

/// The sidecar lifecycle step a recipe needs first: none for local evaluation
/// or hosted SFT or a ready sidecar; otherwise installing and starting a
/// sidecar that is not installed, or starting it.
pub open spec fn sidecar_step(traits: RecipeTraits, phase: Seq<char>) -> Option<Seq<char>> {
    if traits.is_local_eval || traits.is_hosted_sft || phase == "ready"@ {
        None
    } else if phase == "not_installed"@ {
        Some("install_and_start"@)
    } else {
        Some("start"@)
    }
}

pub fn sidecar_action(traits: RecipeTraits, phase: &str) -> (r: Option<String>)
    ensures
        match r {
            Some(a) => sidecar_step(traits, phase@) == Some(a@),
            None => sidecar_step(traits, phase@) is None,
        },
{
    if traits.is_local_eval || traits.is_hosted_sft || same_text(phase, "ready") {
        None
    } else if same_text(phase, "not_installed") {
        Some(String::from_str("install_and_start"))
    } else {
        Some(String::from_str("start"))
    }
}

/// Why a credential lease is requested for a recipe.
pub fn credential_purpose(recipe_id: &str) -> (r: String)
    ensures
        r@ == "run bounded optimizer recipe "@ + recipe_id@,
{
    concat("run bounded optimizer recipe ", recipe_id)
}

/// The event that shows a visual in its owning chat.
pub fn visual_show_event(visual_id: &str) -> (r: JsonValue)
    ensures
        r@ == JsonView::Object(seq![
            ("kind"@, text_view("visual.show"@)),
            ("payload"@, JsonView::Object(seq![("visualId"@, text_view(visual_id@))])),
        ]),
{
    object2(
        "kind",
        text_value("visual.show"),
        "payload",
        object1("visualId", text_value(visual_id)),
    )
}

/// A member, or `null` where it is absent.
pub open spec fn member_or_null(v: JsonView, key: Seq<char>) -> JsonView {
    match member(v, key) {
        Some(m) => m,
        None => JsonView::Null,
    }
}

fn member_or_null_of(v: &JsonValue, key: &str) -> (r: JsonValue)
    ensures
        r@ == member_or_null(v@, key@),
{
    match v.get(key) {
        Some(m) => copy_json(m),
        None => JsonValue::Null,
    }
}

/// A recipe's declared limits, or an empty object.
pub open spec fn limits_of(recipe: JsonView) -> JsonView {
    match member(recipe, "limits"@) {
        Some(l) => l,
        None => JsonView::Object(Seq::empty()),
    }
}

pub fn recipe_limits(recipe: &JsonValue) -> (r: JsonValue)
    ensures
        r@ == limits_of(recipe@),
{
    match recipe.get("limits") {
        Some(l) => copy_json(l),
        None => {
            let entries: Vec<(String, JsonValue)> = Vec::new();
            let r = object_of(entries);
            assert(entries_of(entries@) =~= Seq::<(Seq<char>, JsonView)>::empty());
            r
        },
    }
}

/// What a paid-compute approval for a recipe start discloses.
pub fn paid_start_parameters(recipe_id: &str, recipe: &JsonValue) -> (r: JsonValue)
    ensures
        r@ == JsonView::Object(seq![
            ("recipeId"@, text_view(recipe_id@)),
            ("algorithmId"@, member_or_null(recipe@, "algorithmId"@)),
            ("task"@, member_or_null(recipe@, "task"@)),
            ("limits"@, limits_of(recipe@)),
        ]),
{
    let mut entries: Vec<(String, JsonValue)> = Vec::new();
    entries.push(field("recipeId", text_value(recipe_id)));
    entries.push(field("algorithmId", member_or_null_of(recipe, "algorithmId")));
    entries.push(field("task", member_or_null_of(recipe, "task")));
    entries.push(field("limits", recipe_limits(recipe)));
    proof {
        crate::json::lemma_entries_of(entries@);
    }
    let r = object_of(entries);
    assert(entries_of(entries@) =~= seq![
        ("recipeId"@, text_view(recipe_id@)),
        ("algorithmId"@, member_or_null(recipe@, "algorithmId"@)),
        ("task"@, member_or_null(recipe@, "task"@)),
        ("limits"@, limits_of(recipe@)),
    ]);
    r
}

/// The spend an approval admits: a cost ceiling in micros and a rollout cap.
#[derive(Clone, Copy, Debug, PartialEq, Eq, Structural)]
pub struct PaidComputeCap {
    pub max_cost_usd_micros: Option<u64>,
    pub max_rollouts: Option<u64>,
}

/// The session a mutation is approved in: the trimmed session reference,
/// which must be given and not blank.
pub fn approval_session(session_ref: Option<&str>) -> (r: Result<String, String>)
    ensures
        match r {
            Ok(id) => session_ref matches Some(s) && trim(s@).len() > 0 && id@ == trim(s@),
            Err(m) => !(session_ref matches Some(s) && trim(s@).len() > 0)
                && m@ == "this mutation requires an agent session for approval"@,
        },
{
    match session_ref {
        Some(s) => {
            let id = trim_str(s);
            if id.as_str().is_empty() {
                Err(String::from_str("this mutation requires an agent session for approval"))
            } else {
                Ok(id)
            }
        },
        None => Err(String::from_str("this mutation requires an agent session for approval")),
    }
}

/// The paid-compute approval an admitted inline evaluation asks for.
pub struct InlineStartApproval {
    pub operation: String,
    pub requesting_agent: String,
    pub cap: PaidComputeCap,
    pub proposer_model: String,
    pub credential_names: Vec<String>,
    pub preparation_digest: String,
    pub parameters: JsonValue,
}

/// The approval request for an admitted inline evaluation in a session: its
/// disclosure, capped at the specification's cost ceiling and rollout cap,
/// bound to its digest, and naming the provider's credential route.
pub fn inline_start_approval(admissible: &AdmissibleExecutionSpec, session_id: &str, cost_display: &str) -> (r: InlineStartApproval)
    ensures
        r.operation@ == "optimizer.evaluation.inline.start"@,
        r.requesting_agent@ == "Agent session "@ + session_id@,
        r.cap == (PaidComputeCap {
            max_cost_usd_micros: Some(admissible.spec_value().recipe.resource_limits.hard_total_cost_micros.0@),
            max_rollouts: Some(admissible.spec_value().recipe.rollout_plan.maximum_rollouts.0@ as u64),
        }),
        r.proposer_model@ == admissible.spec_value().recipe.model.model_id@,
        texts_of(r.credential_names@) == seq![admissible.spec_value().recipe.model.provider@
            + ":workshop_secrets_proxy"@],
        r.preparation_digest@ == admissible.digest_value(),
        r.parameters@ == disclosure_json(admissible.spec_value(), admissible.digest_value(), cost_display@),
{
    let spec = admissible.spec();
    let recipe = &spec.recipe;
    let cost = recipe.resource_limits.hard_total_cost_micros.0.get();
    let rollouts = recipe.rollout_plan.maximum_rollouts.0.get();
    let mut credential_names: Vec<String> = Vec::new();
    credential_names.push(concat(recipe.model.provider.as_str(), ":workshop_secrets_proxy"));
    assert(texts_of(credential_names@) =~= seq![recipe.model.provider@ + ":workshop_secrets_proxy"@]);
    InlineStartApproval {
        operation: String::from_str("optimizer.evaluation.inline.start"),
        requesting_agent: concat("Agent session ", session_id),
        cap: PaidComputeCap { max_cost_usd_micros: Some(cost), max_rollouts: Some(rollouts as u64) },
        proposer_model: String::from_str(recipe.model.model_id.as_str()),
        credential_names,
        preparation_digest: String::from_str(admissible.digest().as_str()),
        parameters: admissible.approval_disclosure(cost_display),
    }
}

} // verus!
