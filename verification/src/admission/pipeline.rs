//! The admission pipeline: materialize, validate and pin, canonicalize, approve.
//!
//! Each stage is its own type, and no stage has a constructor that skips the
//! one before it: an executor takes an [`ApprovedExecutionSpec`], and the only
//! way to obtain one runs through validation, hashing and an approval binding.
//! Nothing here reads the recipe catalog unless the caller asked for a catalog
//! recipe by id.

use crate::admission::canonical::{json_digest, CanonicalJson};
use crate::admission::error::{
    catalog_recipe_not_found_view, container_not_found_view, container_protocol_unsupported_view,
    container_selection_ambiguous_view, container_unhealthy_view, cost_ceiling_required_view,
    credential_route_unavailable_view, evaluator_not_declared_view, execution_spec_invalid_view,
    model_unsupported_view, optional_text_json, output_contract_unsupported_view,
    policy_configuration_invalid_view, policy_not_found_view, policy_revision_unresolved_view,
    requested_limit_unsupported_view, scoring_contract_invalid_view, seed_control_unsupported_view,
    subject_of, view_of, AdmissionError, AdmissionErrorCode, ErrorView,
};
use crate::admission::ids::{
    non_zero_u32, ModelCallCount, RolloutCount, StepCount, ApprovalReceiptId, ContainerId, ContainerRegistrationId, CostMicros, DeclarationDigest, Digest,
    EvaluatorId, ModelId, PolicyRevision, ProviderId, RecipeId, Seed, SourceRevision,
};
use crate::admission::spec::{
    recipe_json, evaluator_json, policy_json, output_contract_json, material_json, route_json, ApprovalBinding, container_pin_json, evaluator_id_of, evaluator_kind_text, execution_spec_digest, model_pin_json,
    policy_digests_match, scope_json, scoring_digest_of, seeds_json, seeds_value, source_kind_text,
    execution_spec_json, same_recipe, ExecutionSpec, RecipeSource, RecipeSourceKind, copy_strings, route_provider, route_scope, copy_seeds, ContainerPin, CredentialRoute, OutputContract, ResourceLimits, RolloutPlan, same_material, text_digest, CredentialCapabilityScope, EvaluatorSpec, InlineRecipe,
    LiveEvalProtocol, ModelPin, PolicyMaterialRef, PolicyPin, LIVE_EVAL_PROTOCOL_V1,
};
use crate::json::{
    field, text_value, unsigned_value, canonical, entries_of, lemma_entries_of, lookup, member, object_of, JsonValue, JsonView,
};
use crate::text::{
    strictly_sorted, texts_of, ascii_lower_seq, ascii_lowercase, chars_of, concat3, is_blank, same_text, trim, trim_chars,
    trim_str,
};
use vstd::prelude::*;

verus! {

// ---------------------------------------------------------------------------
// Inputs
// ---------------------------------------------------------------------------

/// An evaluator the caller names explicitly, with its configuration.
#[derive(Debug)]
pub struct RequestedEvaluator {
    pub evaluator_id: EvaluatorId,
    pub configuration: CanonicalJson,
}

/// What a request explicitly supplied. Every fact a specification needs but a
/// request may omit is optional, and each omission has its own refusal; there
/// is no layer of defaults between this and a draft.
#[derive(Debug)]
pub struct InlineRequest {
    /// Exact container id; absent means discovery must resolve to exactly one.
    pub container_id: Option<ContainerId>,
    /// Narrowing hint used only when no container id was given.
    pub family: Option<String>,
    pub policy_namespace: Option<String>,
    pub policy_name: Option<String>,
    /// Repository-relative policy source path, when the caller named one.
    pub policy_source_path: Option<String>,
    /// Overrides layered onto the policy declaration's own values.
    pub policy_overrides: Option<CanonicalJson>,
    pub provider: Option<ProviderId>,
    pub model_id: Option<ModelId>,
    pub seeds: Vec<Seed>,
    pub maximum_rollouts: Option<u32>,
    pub maximum_model_calls_per_rollout: Option<u32>,
    pub maximum_steps_per_rollout: Option<u32>,
    /// The hard ceiling as converted from the amount a human supplied: the
    /// micros, or why the supplied amount is unusable.
    pub hard_total_cost: Option<Result<CostMicros, String>>,
    /// An explicitly requested evaluator.
    pub evaluator: Option<RequestedEvaluator>,
}

/// A container's own scoring declaration.
#[derive(Debug)]
pub struct DeclaredEvaluator {
    pub evaluator_id: EvaluatorId,
    pub evaluator_version: String,
    pub scoring_digest: Digest,
}

/// What a container declares about running live evaluations. An absent
/// ceiling means the container did not declare one.
#[derive(Debug)]
pub struct EvalDeclaration {
    pub protocol: Option<String>,
    pub declaration_digest: Option<DeclarationDigest>,
    pub evaluator: Option<DeclaredEvaluator>,
    pub supported_models: Vec<ModelPin>,
    pub supports_seed_control: Option<bool>,
    pub maximum_rollouts: Option<u32>,
    pub maximum_model_calls_per_rollout: Option<u32>,
    pub maximum_steps_per_rollout: Option<u32>,
    pub operations: Vec<String>,
}

impl Default for EvalDeclaration {
    fn default() -> (r: Self)
        ensures
            r.protocol is None,
            r.declaration_digest is None,
            r.evaluator is None,
            r.supported_models@.len() == 0,
            r.supports_seed_control is None,
            r.maximum_rollouts is None,
            r.maximum_model_calls_per_rollout is None,
            r.maximum_steps_per_rollout is None,
            r.operations@.len() == 0,
    {
        EvalDeclaration {
            protocol: None,
            declaration_digest: None,
            evaluator: None,
            supported_models: Vec::new(),
            supports_seed_control: None,
            maximum_rollouts: None,
            maximum_model_calls_per_rollout: None,
            maximum_steps_per_rollout: None,
            operations: Vec::new(),
        }
    }
}

/// One container discovery returned, with the declaration read from it.
#[derive(Debug)]
pub struct ContainerCandidate {
    pub container_id: ContainerId,
    pub registration_id: ContainerRegistrationId,
    pub source_revision: SourceRevision,
    /// Health as observed, verbatim.
    pub health: String,
    pub family: Option<String>,
    pub declaration: EvalDeclaration,
}

/// `ready`, ignoring surrounding white space and ASCII case; anything else,
/// including an unknown string, is not ready.
pub open spec fn is_ready_text(health: Seq<char>) -> bool {
    ascii_lower_seq(trim(health)) == "ready"@
}

impl ContainerCandidate {
    pub fn is_ready(&self) -> (r: bool)
        ensures
            r == is_ready_text(self.health@),
    {
        let chars = chars_of(self.health.as_str());
        let trimmed = trim_chars(&chars);
        let lowered = ascii_lowercase(&trimmed);
        let ready = chars_of("ready");
        crate::text::chars_equal(&lowered, &ready)
    }
}

/// A resolved policy: its immutable revision and declared configuration.
#[derive(Debug)]
pub struct PolicyResolution {
    pub namespace: String,
    pub name: String,
    /// `None`: the policy source is still mutable, so it cannot be pinned.
    pub revision: Option<PolicyRevision>,
    pub declared_configuration: CanonicalJson,
    /// Exact source bytes read from the declared immutable source revision.
    pub source_code: Option<String>,
    pub material: Option<PolicyMaterialRef>,
}

/// A catalog recipe, already in the inline shape.
#[derive(Debug)]
pub struct CatalogEntry {
    pub recipe_id: RecipeId,
    pub digest: Digest,
    pub recipe: InlineRecipe,
}

/// Everything admission is allowed to read, passed explicitly.
#[derive(Debug)]
pub struct DiscoveryContext {
    pub containers: Vec<ContainerCandidate>,
    /// The policy the request named, once resolved; `None` means not found.
    pub policy: Option<PolicyResolution>,
    /// Whether the secrets proxy can currently route this provider.
    pub credential_route_available: bool,
    pub credential_route_detail: Option<String>,
    pub credential_capability_scope: Option<CredentialCapabilityScope>,
    /// Consulted only for an explicit catalog request.
    pub catalog: Vec<CatalogEntry>,
}

impl Default for DiscoveryContext {
    fn default() -> (r: Self)
        ensures
            r.containers@.len() == 0,
            r.policy is None,
            !r.credential_route_available,
            r.credential_route_detail is None,
            r.credential_capability_scope is None,
            r.catalog@.len() == 0,
    {
        DiscoveryContext {
            containers: Vec::new(),
            policy: None,
            credential_route_available: false,
            credential_route_detail: None,
            credential_capability_scope: None,
            catalog: Vec::new(),
        }
    }
}

// ---------------------------------------------------------------------------
// Ceilings
// ---------------------------------------------------------------------------

/// A requested limit above a declared ceiling, never clamped.
pub open spec fn ceiling_refusal(limit: Seq<char>, requested: u32, declared: Option<u32>) -> Option<
    ErrorView,
> {
    match declared {
        Some(maximum) => if requested > maximum {
            Some(requested_limit_unsupported_view(limit, requested as u64, Some(maximum as u64)))
        } else {
            None
        },
        None => None,
    }
}

fn check_ceiling(limit: &'static str, requested: u32, declared: Option<u32>) -> (r: Result<
    (),
    AdmissionError,
>)
    ensures
        match r {
            Ok(_) => ceiling_refusal(limit@, requested, declared) is None,
            Err(e) => e.subject == subject_of(e.code) && ceiling_refusal(limit@, requested, declared)
                == Some(view_of(e)),
        },
{
    match declared {
        Some(maximum) => {
            if requested > maximum {
                Err(
                    AdmissionError::requested_limit_unsupported(
                        limit,
                        requested as u64,
                        Some(maximum as u64),
                    ),
                )
            } else {
                Ok(())
            }
        },
        None => Ok(()),
    }
}


// ---------------------------------------------------------------------------
// Container selection
// ---------------------------------------------------------------------------

/// Whether a candidate's family satisfies the requested one: any family when
/// none was requested, otherwise exactly the requested one.
pub open spec fn family_matches(wanted: Option<String>, declared: Option<String>) -> bool {
    match wanted {
        Some(w) => match declared {
            Some(d) => w@ == d@,
            None => false,
        },
        None => true,
    }
}

/// The indices among the first `n` candidates whose family matches, in order.
pub open spec fn matching_upto(cs: Seq<ContainerCandidate>, wanted: Option<String>, n: nat) -> Seq<
    int,
>
    decreases n,
{
    if n == 0 {
        Seq::empty()
    } else {
        let before = matching_upto(cs, wanted, (n - 1) as nat);
        if family_matches(wanted, cs[n - 1].family) {
            before.push(n - 1)
        } else {
            before
        }
    }
}

/// The first candidate at or after `i` with the given id.
pub open spec fn first_with_id(cs: Seq<ContainerCandidate>, id: Seq<char>, i: int) -> Option<int>
    decreases cs.len() - i,
{
    if i < 0 || i >= cs.len() {
        None
    } else if cs[i].container_id@ == id {
        Some(i)
    } else {
        first_with_id(cs, id, i + 1)
    }
}

/// Exactly one container, or the refusal: an exact id resolves to the first
/// candidate carrying it; otherwise the family must match exactly one
/// candidate, and more than one is an ambiguity, never a reason to take the first.
pub open spec fn selection(request: InlineRequest, context: DiscoveryContext) -> Result<int, ErrorView> {
    let cs = context.containers@;
    match request.container_id {
        Some(id) => match first_with_id(cs, id@, 0) {
            Some(i) => Ok(i),
            None => Err(container_not_found_view(id@)),
        },
        None => {
            let ms = matching_upto(cs, request.family, cs.len());
            if ms.len() == 0 {
                Err(
                    container_not_found_view(
                        match request.family {
                            Some(f) => f@,
                            None => "<any>"@,
                        },
                    ),
                )
            } else if ms.len() == 1 {
                Ok(ms[0])
            } else {
                Err(container_selection_ambiguous_view(ms.map_values(|i: int| cs[i].container_id@)))
            }
        },
    }
}

proof fn lemma_matching_upto_bounds(cs: Seq<ContainerCandidate>, wanted: Option<String>, n: nat)
    ensures
        forall|k: int|
            0 <= k < matching_upto(cs, wanted, n).len() ==> 0 <= #[trigger] matching_upto(
                cs,
                wanted,
                n,
            )[k] < n,
    decreases n,
{
    if n > 0 {
        lemma_matching_upto_bounds(cs, wanted, (n - 1) as nat);
        let before = matching_upto(cs, wanted, (n - 1) as nat);
        assert forall|k: int| 0 <= k < matching_upto(cs, wanted, n).len() implies 0
            <= #[trigger] matching_upto(cs, wanted, n)[k] < n by {
            if k < before.len() {
                assert(matching_upto(cs, wanted, n)[k] == before[k]);
            }
        }
    }
}

fn family_match(wanted: &Option<String>, declared: &Option<String>) -> (r: bool)
    ensures
        r == family_matches(*wanted, *declared),
{
    match wanted {
        Some(w) => match declared {
            Some(d) => same_text(w.as_str(), d.as_str()),
            None => false,
        },
        None => true,
    }
}

fn select_container(request: &InlineRequest, context: &DiscoveryContext) -> (r: Result<
    usize,
    AdmissionError,
>)
    ensures
        match r {
            Ok(i) => selection(*request, *context) == Ok::<int, ErrorView>(i as int) && i
                < context.containers@.len(),
            Err(e) => e.subject == subject_of(e.code) && selection(*request, *context) == Err::<
                int,
                ErrorView,
            >(view_of(e)),
        },
{
    let cs = &context.containers;
    match &request.container_id {
        Some(requested) => {
            let mut i: usize = 0;
            while i < cs.len()
                invariant
                    i <= cs.len(),
                    request.container_id == Some(*requested),
                    *cs == context.containers,
                    first_with_id(cs@, requested@, 0) == first_with_id(cs@, requested@, i as int),
                decreases cs.len() - i,
            {
                if cs[i].container_id == *requested {
                    assert(cs@[i as int].container_id@ == requested@);
                    assert(first_with_id(cs@, requested@, i as int) == Some(i as int));
                    return Ok(i);
                }
                i = i + 1;
            }
            Err(AdmissionError::container_not_found(requested.as_str()))
        },
        None => {
            let mut found: Vec<usize> = Vec::new();
            let mut i: usize = 0;
            while i < cs.len()
                invariant
                    i <= cs.len(),
                    found@.map_values(|u: usize| u as int) == matching_upto(
                        cs@,
                        request.family,
                        i as nat,
                    ),
                decreases cs.len() - i,
            {
                let ghost before = found@;
                if family_match(&request.family, &cs[i].family) {
                    found.push(i);
                    assert(found@.map_values(|u: usize| u as int) =~= before.map_values(
                        |u: usize| u as int,
                    ).push(i as int));
                }
                i = i + 1;
            }
            proof {
                lemma_matching_upto_bounds(cs@, request.family, cs@.len());
                assert(found@.len() == matching_upto(cs@, request.family, cs@.len()).len());
                assert forall|j: int| 0 <= j < found@.len() implies #[trigger] found@[j] < cs@.len() by {
                    assert(found@.map_values(|u: usize| u as int)[j] == found@[j] as int);
                }
            }
            if found.len() == 0 {
                let requested_family = match &request.family {
                    Some(f) => f.as_str(),
                    None => "<any>",
                };
                Err(AdmissionError::container_not_found(requested_family))
            } else if found.len() == 1 {
                proof {
                    assert(found@.map_values(|u: usize| u as int)[0] == found@[0] as int);
                }
                Ok(found[0])
            } else {
                let mut ids: Vec<ContainerId> = Vec::new();
                let mut k: usize = 0;
                while k < found.len()
                    invariant
                        k <= found.len(),
                        ids@.len() == k,
                        found@.map_values(|u: usize| u as int) == matching_upto(
                            cs@,
                            request.family,
                            cs@.len(),
                        ),
                        forall|j: int| 0 <= j < found@.len() ==> #[trigger] found@[j] < cs@.len(),
                        forall|j: int|
                            0 <= j < k ==> #[trigger] ids@[j]@ == cs@[found@[j] as int].container_id@,
                    decreases found.len() - k,
                {
                    ids.push(cs[found[k]].container_id.clone());
                    k = k + 1;
                }
                proof {
                    let ms = matching_upto(cs@, request.family, cs@.len());
                    assert(Seq::new(ids@.len(), |j: int| ids@[j]@) =~= ms.map_values(
                        |j: int| cs@[j].container_id@,
                    ));
                }
                Err(AdmissionError::container_selection_ambiguous(ids.as_slice()))
            }
        },
    }
}


// ---------------------------------------------------------------------------
// Policy configuration
// ---------------------------------------------------------------------------

/// Whether an object's entries define `key`.
pub open spec fn has_key(entries: Seq<(Seq<char>, JsonView)>, key: Seq<char>) -> bool {
    exists|i: int| 0 <= i < entries.len() && #[trigger] entries[i].0 == key
}

/// The first override key, at or after `i`, that the declaration does not define.
pub open spec fn first_unknown_key(
    declared: Seq<(Seq<char>, JsonView)>,
    overrides: Seq<(Seq<char>, JsonView)>,
    i: int,
) -> Option<Seq<char>>
    decreases overrides.len() - i,
{
    if i < 0 || i >= overrides.len() {
        None
    } else if !has_key(declared, overrides[i].0) {
        Some(overrides[i].0)
    } else {
        first_unknown_key(declared, overrides, i + 1)
    }
}

/// The declared entries, each replaced by its override where one is given.
pub open spec fn apply_overrides(
    declared: Seq<(Seq<char>, JsonView)>,
    overrides: Seq<(Seq<char>, JsonView)>,
) -> Seq<(Seq<char>, JsonView)> {
    declared.map_values(
        |e: (Seq<char>, JsonView)|
            (
                e.0,
                match lookup(overrides, e.0) {
                    Some(v) => v,
                    None => e.1,
                },
            ),
    )
}

/// Overrides layered onto a policy's declared configuration. An override may
/// only replace a key the declaration defines: an unknown key would be the
/// caller inventing policy semantics.
pub open spec fn merged_configuration(
    declared: JsonView,
    overrides: Option<JsonView>,
    namespace: Seq<char>,
    name: Seq<char>,
) -> Result<JsonView, ErrorView> {
    match overrides {
        None => Ok(declared),
        Some(o) => match declared {
            JsonView::Object(d) => match o {
                JsonView::Object(ov) => match first_unknown_key(d, ov, 0) {
                    Some(k) => Err(
                        policy_configuration_invalid_view(
                            namespace,
                            name,
                            "`"@ + k + "` is not a key this policy declares"@,
                        ),
                    ),
                    None => Ok(canonical(JsonView::Object(apply_overrides(d, ov)))),
                },
                _ => Err(
                    policy_configuration_invalid_view(
                        namespace,
                        name,
                        "the supplied policy overrides are not an object"@,
                    ),
                ),
            },
            _ => Err(
                policy_configuration_invalid_view(
                    namespace,
                    name,
                    "the declared policy configuration is not an object"@,
                ),
            ),
        },
    }
}

fn declares_key(entries: &Vec<(String, JsonValue)>, key: &str) -> (r: bool)
    ensures
        r == has_key(entries_of(entries@), key@),
{
    proof {
        lemma_entries_of(entries@);
    }
    let mut i: usize = 0;
    while i < entries.len()
        invariant
            i <= entries.len(),
            entries_of(entries@).len() == entries@.len(),
            forall|k: int|
                0 <= k < entries@.len() ==> #[trigger] entries_of(entries@)[k] == (
                    entries@[k].0@,
                    entries@[k].1@,
                ),
            forall|k: int| 0 <= k < i ==> entries_of(entries@)[k].0 != key@,
        decreases entries.len() - i,
    {
        if same_text(entries[i].0.as_str(), key) {
            assert(entries_of(entries@)[i as int].0 == key@);
            return true;
        }
        i = i + 1;
    }
    false
}

fn merge_policy_configuration(
    declared: &CanonicalJson,
    overrides: Option<&CanonicalJson>,
    namespace: &str,
    name: &str,
) -> (r: Result<CanonicalJson, AdmissionError>)
    ensures
        match r {
            Ok(c) => merged_configuration(
                declared@,
                match overrides {
                    Some(o) => Some(o@),
                    None => None,
                },
                namespace@,
                name@,
            ) == Ok::<JsonView, ErrorView>(c@),
            Err(e) => e.subject == subject_of(e.code) && merged_configuration(
                declared@,
                match overrides {
                    Some(o) => Some(o@),
                    None => None,
                },
                namespace@,
                name@,
            ) == Err::<JsonView, ErrorView>(view_of(e)),
        },
{
    let override_json = match overrides {
        None => {
            return Ok(declared.clone());
        },
        Some(o) => o,
    };
    let declared_entries = match declared.as_value() {
        JsonValue::Object(entries) => entries,
        _ => {
            return Err(
                AdmissionError::policy_configuration_invalid(
                    namespace,
                    name,
                    String::from_str("the declared policy configuration is not an object"),
                ),
            );
        },
    };
    let override_entries = match override_json.as_value() {
        JsonValue::Object(entries) => entries,
        _ => {
            return Err(
                AdmissionError::policy_configuration_invalid(
                    namespace,
                    name,
                    String::from_str("the supplied policy overrides are not an object"),
                ),
            );
        },
    };
    let ghost d = entries_of(declared_entries@);
    let ghost ov = entries_of(override_entries@);
    proof {
        lemma_entries_of(override_entries@);
    }
    let mut i: usize = 0;
    while i < override_entries.len()
        invariant
            i <= override_entries.len(),
            ov == entries_of(override_entries@),
            d == entries_of(declared_entries@),
            ov.len() == override_entries@.len(),
            forall|k: int|
                0 <= k < override_entries@.len() ==> #[trigger] ov[k] == (
                    override_entries@[k].0@,
                    override_entries@[k].1@,
                ),
            first_unknown_key(d, ov, 0) == first_unknown_key(d, ov, i as int),
            override_json@ == JsonView::Object(ov),
            overrides == Some(override_json),
            declared@ == JsonView::Object(d),
        decreases override_entries.len() - i,
    {
        if !declares_key(declared_entries, override_entries[i].0.as_str()) {
            let detail = concat3(
                "`",
                override_entries[i].0.as_str(),
                "` is not a key this policy declares",
            );
            assert(first_unknown_key(d, ov, i as int) == Some(ov[i as int].0));
            return Err(AdmissionError::policy_configuration_invalid(namespace, name, detail));
        }
        i = i + 1;
    }
    proof {
        lemma_entries_of(declared_entries@);
    }
    let mut merged: Vec<(String, JsonValue)> = Vec::new();
    let mut j: usize = 0;
    while j < declared_entries.len()
        invariant
            j <= declared_entries.len(),
            ov == entries_of(override_entries@),
            d == entries_of(declared_entries@),
            d.len() == declared_entries@.len(),
            forall|k: int|
                0 <= k < declared_entries@.len() ==> #[trigger] d[k] == (
                    declared_entries@[k].0@,
                    declared_entries@[k].1@,
                ),
            override_json@ == JsonView::Object(ov),
            overrides == Some(override_json),
            declared@ == JsonView::Object(d),
            first_unknown_key(d, ov, 0) is None,
            merged@.len() == j,
            forall|k: int|
                0 <= k < j ==> (#[trigger] merged@[k]).0@ == apply_overrides(d, ov)[k].0 && merged@[k].1@ == apply_overrides(d, ov)[k].1,
        decreases declared_entries.len() - j,
    {
        let key = declared_entries[j].0.as_str();
        let value = match override_json.as_value().get(key) {
            Some(v) => crate::json::copy_json(v),
            None => crate::json::copy_json(&declared_entries[j].1),
        };
        merged.push((String::from_str(key), value));
        j = j + 1;
    }
    proof {
        lemma_entries_of(merged@);
        assert(entries_of(merged@) =~= apply_overrides(d, ov));
    }
    Ok(CanonicalJson::new(object_of(merged)))
}


// ---------------------------------------------------------------------------
// Drafting: the container, its protocol and its evaluator
// ---------------------------------------------------------------------------

/// An optional string's text.
pub open spec fn text_of_option(s: Option<String>) -> Option<Seq<char>> {
    match s {
        Some(t) => Some(t@),
        None => None,
    }
}

/// Why a selected container cannot be pinned: it is not ready, it speaks
/// another protocol, or its declaration carries no digest.
pub open spec fn container_refusal(c: ContainerCandidate) -> Option<ErrorView> {
    let d = c.declaration;
    if !is_ready_text(c.health@) {
        Some(container_unhealthy_view(c.container_id@, c.health@))
    } else if !(d.protocol matches Some(p) && trim(p@) == LIVE_EVAL_PROTOCOL_V1@) {
        Some(
            container_protocol_unsupported_view(
                c.container_id@,
                LIVE_EVAL_PROTOCOL_V1@,
                text_of_option(d.protocol),
            ),
        )
    } else if d.declaration_digest is None {
        Some(
            scoring_contract_invalid_view(
                c.container_id@,
                None,
                "the container's capability declaration carries no digest, so it cannot be pinned"@,
            ),
        )
    } else {
        None
    }
}

fn pin_container(c: &ContainerCandidate) -> (r: Result<DeclarationDigest, AdmissionError>)
    ensures
        match r {
            Ok(d) => container_refusal(*c) is None && (c.declaration.declaration_digest matches Some(
                x,
            ) && x@ == d@),
            Err(e) => e.subject == subject_of(e.code) && container_refusal(*c) == Some(view_of(e)),
        },
{
    if !c.is_ready() {
        return Err(AdmissionError::container_unhealthy(&c.container_id, c.health.as_str()));
    }
    let declaration = &c.declaration;
    let advertised: Option<&str> = match &declaration.protocol {
        Some(p) => Some(p.as_str()),
        None => None,
    };
    let protocol = match advertised {
        Some(p) => LiveEvalProtocol::parse(p),
        None => None,
    };
    if protocol.is_none() {
        let e = AdmissionError::container_protocol_unsupported(
            &c.container_id,
            LIVE_EVAL_PROTOCOL_V1,
            advertised,
        );
        assert(crate::admission::error::optional_text_of_str(advertised) == text_of_option(
            declaration.protocol,
        ));
        return Err(e);
    }
    match &declaration.declaration_digest {
        Some(d) => Ok(d.clone()),
        None => Err(
            AdmissionError::scoring_contract_invalid(
                &c.container_id,
                None,
                String::from_str(
                    "the container's capability declaration carries no digest, so it cannot be pinned",
                ),
            ),
        ),
    }
}

/// Why no evaluator can be pinned: none is declared, the requested one is not
/// the declared one, or the declared one carries no version.
pub open spec fn evaluator_refusal(request: InlineRequest, c: ContainerCandidate) -> Option<
    ErrorView,
> {
    match c.declaration.evaluator {
        None => Some(evaluator_not_declared_view(c.container_id@)),
        Some(declared) => match request.evaluator {
            Some(requested) => if declared.evaluator_id@ != requested.evaluator_id@ {
                Some(
                    scoring_contract_invalid_view(
                        c.container_id@,
                        Some(requested.evaluator_id@),
                        "container declares evaluator `"@ + declared.evaluator_id@ + "`, not `"@
                            + requested.evaluator_id@ + "`"@,
                    ),
                )
            } else {
                None
            },
            None => if is_blank(declared.evaluator_version@) {
                Some(
                    scoring_contract_invalid_view(
                        c.container_id@,
                        Some(declared.evaluator_id@),
                        "the declared evaluator carries no version"@,
                    ),
                )
            } else {
                None
            },
        },
    }
}

/// The evaluator a draft pins: the requested one with its configuration and
/// the declared scoring digest, or the container's own declaration.
pub open spec fn pinned_evaluator(e: EvaluatorSpec, request: InlineRequest, c: ContainerCandidate) -> bool {
    let declared = c.declaration.evaluator->Some_0;
    match request.evaluator {
        Some(requested) => match e {
            EvaluatorSpec::Explicit { evaluator_id, configuration, scoring_digest } => evaluator_id@
                == requested.evaluator_id@ && configuration@ == requested.configuration@
                && scoring_digest@ == declared.scoring_digest@,
            _ => false,
        },
        None => match e {
            EvaluatorSpec::ContainerDeclared { evaluator_id, evaluator_version, scoring_digest } =>
                evaluator_id@ == declared.evaluator_id@ && evaluator_version@
                == declared.evaluator_version@ && scoring_digest@ == declared.scoring_digest@,
            _ => false,
        },
    }
}

fn pin_evaluator(request: &InlineRequest, c: &ContainerCandidate) -> (r: Result<
    EvaluatorSpec,
    AdmissionError,
>)
    ensures
        match r {
            Ok(e) => evaluator_refusal(*request, *c) is None && pinned_evaluator(e, *request, *c),
            Err(e) => e.subject == subject_of(e.code) && evaluator_refusal(*request, *c) == Some(
                view_of(e),
            ),
        },
{
    let declared = match &c.declaration.evaluator {
        Some(d) => d,
        None => {
            return Err(AdmissionError::evaluator_not_declared(&c.container_id));
        },
    };
    match &request.evaluator {
        Some(requested) => {
            if declared.evaluator_id != requested.evaluator_id {
                let detail = concat3(
                    "container declares evaluator `",
                    declared.evaluator_id.as_str(),
                    "`, not `",
                );
                let detail = concat3(detail.as_str(), requested.evaluator_id.as_str(), "`");
                return Err(
                    AdmissionError::scoring_contract_invalid(
                        &c.container_id,
                        Some(&requested.evaluator_id),
                        detail,
                    ),
                );
            }
            Ok(
                EvaluatorSpec::Explicit {
                    evaluator_id: requested.evaluator_id.clone(),
                    configuration: requested.configuration.clone(),
                    scoring_digest: declared.scoring_digest.clone(),
                },
            )
        },
        None => {
            let version = trim_chars(&chars_of(declared.evaluator_version.as_str()));
            if version.len() == 0 {
                return Err(
                    AdmissionError::scoring_contract_invalid(
                        &c.container_id,
                        Some(&declared.evaluator_id),
                        String::from_str("the declared evaluator carries no version"),
                    ),
                );
            }
            Ok(
                EvaluatorSpec::ContainerDeclared {
                    evaluator_id: declared.evaluator_id.clone(),
                    evaluator_version: declared.evaluator_version.clone(),
                    scoring_digest: declared.scoring_digest.clone(),
                },
            )
        },
    }
}


// ---------------------------------------------------------------------------
// Drafting: the policy
// ---------------------------------------------------------------------------

/// A supplied text, trimmed; `None` when absent or blank.
pub open spec fn supplied_text(s: Option<String>) -> Option<Seq<char>> {
    match s {
        Some(t) => if is_blank(t@) {
            None
        } else {
            Some(trim(t@))
        },
        None => None,
    }
}

fn supplied(s: &Option<String>) -> (r: Option<String>)
    ensures
        text_of_option(r) == supplied_text(*s),
{
    match s {
        Some(t) => {
            let trimmed = trim_chars(&chars_of(t.as_str()));
            if trimmed.len() == 0 {
                None
            } else {
                Some(crate::text::string_of(&trimmed))
            }
        },
        None => None,
    }
}

/// The request's overrides, as JSON.
pub open spec fn overrides_of(request: InlineRequest) -> Option<JsonView> {
    match request.policy_overrides {
        Some(o) => Some(o@),
        None => None,
    }
}

/// Why no policy can be pinned: a missing namespace or name, a policy the
/// session did not resolve, a revision that is still mutable, or overrides
/// the declaration does not admit.
pub open spec fn policy_refusal(request: InlineRequest, context: DiscoveryContext) -> Option<
    ErrorView,
> {
    match supplied_text(request.policy_namespace) {
        None => Some(execution_spec_invalid_view("no policy namespace was supplied"@)),
        Some(namespace) => match supplied_text(request.policy_name) {
            None => Some(execution_spec_invalid_view("no policy name was supplied"@)),
            Some(name) => match context.policy {
                Some(resolution) => if resolution.namespace@ == namespace && resolution.name@
                    == name {
                    match resolution.revision {
                        None => Some(policy_revision_unresolved_view(namespace, name)),
                        Some(_) => match merged_configuration(
                            resolution.declared_configuration@,
                            overrides_of(request),
                            namespace,
                            name,
                        ) {
                            Err(v) => Some(v),
                            Ok(_) => None,
                        },
                    }
                } else {
                    Some(policy_not_found_view(namespace, name))
                },
                None => Some(policy_not_found_view(namespace, name)),
            },
        },
    }
}

pub open spec fn digest_of_option(d: Option<Digest>) -> Option<Seq<char>> {
    match d {
        Some(x) => Some(x@),
        None => None,
    }
}

/// The pin a draft takes: the request's namespace and name, the resolved
/// revision, the merged configuration and its digest, and the source bytes
/// with their digest; material read from a source root carries the digest of
/// those bytes.
pub open spec fn pinned_policy(p: PolicyPin, request: InlineRequest, context: DiscoveryContext) -> bool {
    let namespace = supplied_text(request.policy_namespace)->Some_0;
    let name = supplied_text(request.policy_name)->Some_0;
    let resolution = context.policy->Some_0;
    let configuration = merged_configuration(
        resolution.declared_configuration@,
        overrides_of(request),
        namespace,
        name,
    )->Ok_0;
    &&& p.namespace@ == namespace
    &&& p.name@ == name
    &&& p.revision@ == resolution.revision->Some_0@
    &&& p.configuration@ == configuration
    &&& p.configuration_digest@ == json_digest(configuration)
    &&& match (resolution.source_code, resolution.material) {
        (Some(code), Some(m)) => {
            &&& crate::admission::spec::optional_text_of(p.source_code) == Some(code@)
            &&& digest_of_option(p.source_digest) == Some(text_digest(code@))
            &&& p.material matches Some(pm) && pm.source_root@ == m.source_root@
                && pm.repository_relative_path@ == m.repository_relative_path@
                && pm.tracked_revision@ == m.tracked_revision@ && pm.content_digest@ == text_digest(
                code@,
            )
        },
        (None, Some(m)) => {
            &&& p.source_code is None
            &&& digest_of_option(p.source_digest) == Some(m.content_digest@)
            &&& p.material matches Some(pm) && same_material(pm, m)
        },
        (code, None) => {
            &&& crate::admission::spec::optional_text_of(p.source_code) == text_of_option(code)
            &&& digest_of_option(p.source_digest) == match code {
                Some(t) => Some(text_digest(t@)),
                None => None,
            }
            &&& p.material is None
        },
    }
}

fn pin_policy(request: &InlineRequest, context: &DiscoveryContext) -> (r: Result<
    PolicyPin,
    AdmissionError,
>)
    ensures
        match r {
            Ok(p) => policy_refusal(*request, *context) is None && pinned_policy(
                p,
                *request,
                *context,
            ),
            Err(e) => e.subject == subject_of(e.code) && policy_refusal(*request, *context) == Some(
                view_of(e),
            ),
        },
{
    let namespace = match supplied(&request.policy_namespace) {
        Some(n) => n,
        None => {
            return Err(
                AdmissionError::execution_spec_invalid(
                    String::from_str("no policy namespace was supplied"),
                ),
            );
        },
    };
    let name = match supplied(&request.policy_name) {
        Some(n) => n,
        None => {
            return Err(
                AdmissionError::execution_spec_invalid(String::from_str("no policy name was supplied")),
            );
        },
    };
    let resolution = match &context.policy {
        Some(res) => {
            if same_text(res.namespace.as_str(), namespace.as_str()) && same_text(
                res.name.as_str(),
                name.as_str(),
            ) {
                res
            } else {
                return Err(AdmissionError::policy_not_found(namespace.as_str(), name.as_str()));
            }
        },
        None => {
            return Err(AdmissionError::policy_not_found(namespace.as_str(), name.as_str()));
        },
    };
    let revision = match &resolution.revision {
        Some(rev) => rev.clone(),
        None => {
            return Err(
                AdmissionError::policy_revision_unresolved(namespace.as_str(), name.as_str()),
            );
        },
    };
    let overrides: Option<&CanonicalJson> = match &request.policy_overrides {
        Some(o) => Some(o),
        None => None,
    };
    let configuration = match merge_policy_configuration(
        &resolution.declared_configuration,
        overrides,
        namespace.as_str(),
        name.as_str(),
    ) {
        Ok(c) => c,
        Err(e) => {
            return Err(e);
        },
    };
    let source_code: Option<String> = match &resolution.source_code {
        Some(code) => Some(code.clone()),
        None => None,
    };
    let mut policy = PolicyPin::new(namespace, name, revision, configuration).with_source_code(
        source_code,
    );
    match &resolution.material {
        Some(material) => {
            match &resolution.source_code {
                Some(code) => {
                    policy = policy.with_material(material.clone(), code.clone());
                },
                None => {
                    policy.source_digest = Some(material.content_digest.clone());
                    policy.material = Some(material.clone());
                },
            }
        },
        None => {},
    }
    Ok(policy)
}


// ---------------------------------------------------------------------------
// Drafting: model, rollout plan, limits, credentials, evidence
// ---------------------------------------------------------------------------

/// Whether the container advertises exactly this provider and model.
pub open spec fn advertises_model(models: Seq<ModelPin>, provider: Seq<char>, model: Seq<char>) -> bool {
    exists|k: int|
        0 <= k < models.len() && #[trigger] models[k].provider@ == provider && models[k].model_id@
            == model
}

/// Why no model can be pinned: none was named, or the container does not
/// advertise it. An empty advertised set is not permission to run anything.
pub open spec fn model_refusal(request: InlineRequest, c: ContainerCandidate) -> Option<ErrorView> {
    match request.provider {
        None => Some(execution_spec_invalid_view("no inference provider was supplied"@)),
        Some(provider) => match request.model_id {
            None => Some(execution_spec_invalid_view("no model was supplied"@)),
            Some(model) => if !advertises_model(
                c.declaration.supported_models@,
                provider@,
                model@,
            ) {
                Some(model_unsupported_view(provider@, model@, c.container_id@))
            } else {
                None
            },
        },
    }
}

fn pin_model(request: &InlineRequest, c: &ContainerCandidate) -> (r: Result<ModelPin, AdmissionError>)
    ensures
        match r {
            Ok(m) => model_refusal(*request, *c) is None && m.provider@ == request.provider->Some_0@
                && m.model_id@ == request.model_id->Some_0@,
            Err(e) => e.subject == subject_of(e.code) && model_refusal(*request, *c) == Some(
                view_of(e),
            ),
        },
{
    let provider = match &request.provider {
        Some(p) => p,
        None => {
            return Err(
                AdmissionError::execution_spec_invalid(
                    String::from_str("no inference provider was supplied"),
                ),
            );
        },
    };
    let model_id = match &request.model_id {
        Some(m) => m,
        None => {
            return Err(AdmissionError::execution_spec_invalid(String::from_str("no model was supplied")));
        },
    };
    let models = &c.declaration.supported_models;
    let mut k: usize = 0;
    while k < models.len()
        invariant
            k <= models.len(),
            *models == c.declaration.supported_models,
            request.provider == Some(*provider),
            request.model_id == Some(*model_id),
            forall|j: int|
                0 <= j < k ==> !(#[trigger] models@[j].provider@ == provider@ && models@[j].model_id@
                    == model_id@),
        decreases models.len() - k,
    {
        if models[k].provider == *provider && models[k].model_id == *model_id {
            assert(models@[k as int].provider@ == provider@ && models@[k as int].model_id@ == model_id@);
            return Ok(ModelPin { provider: provider.clone(), model_id: model_id.clone() });
        }
        k = k + 1;
    }
    Err(AdmissionError::model_unsupported(provider, model_id, &c.container_id))
}

/// Why no rollout plan can be drawn: no seeds, a container that will not take
/// caller seeds, no rollout cap, a cap above the declared ceiling, or a cap
/// below the seed count (never silently truncated).
pub open spec fn plan_refusal(request: InlineRequest, c: ContainerCandidate) -> Option<ErrorView> {
    if request.seeds@.len() == 0 {
        Some(
            execution_spec_invalid_view(
                "no seeds were supplied; a rollout plan with no seeds declares no work"@,
            ),
        )
    } else if c.declaration.supports_seed_control != Some(true) {
        Some(seed_control_unsupported_view(c.container_id@))
    } else {
        match request.maximum_rollouts {
            None => Some(execution_spec_invalid_view("no maximum rollout count was supplied"@)),
            Some(n) => match ceiling_refusal("maximum_rollouts"@, n, c.declaration.maximum_rollouts) {
                Some(v) => Some(v),
                None => if (n as int) < request.seeds@.len() {
                    Some(
                        requested_limit_unsupported_view(
                            "maximum_rollouts"@,
                            n as u64,
                            Some(request.seeds@.len() as u64),
                        ),
                    )
                } else {
                    None
                },
            },
        }
    }
}

fn plan_rollouts(request: &InlineRequest, c: &ContainerCandidate) -> (r: Result<
    RolloutPlan,
    AdmissionError,
>)
    ensures
        match r {
            Ok(p) => plan_refusal(*request, *c) is None && p.seeds@ == request.seeds@
                && p.maximum_rollouts.0@ == request.maximum_rollouts->Some_0,
            Err(e) => e.subject == subject_of(e.code) && plan_refusal(*request, *c) == Some(view_of(e)),
        },
{
    if request.seeds.len() == 0 {
        return Err(
            AdmissionError::execution_spec_invalid(
                String::from_str("no seeds were supplied; a rollout plan with no seeds declares no work"),
            ),
        );
    }
    match c.declaration.supports_seed_control {
        Some(true) => {},
        _ => {
            return Err(AdmissionError::seed_control_unsupported(&c.container_id));
        },
    }
    let requested = match request.maximum_rollouts {
        Some(n) => n,
        None => {
            return Err(
                AdmissionError::execution_spec_invalid(
                    String::from_str("no maximum rollout count was supplied"),
                ),
            );
        },
    };
    match check_ceiling("maximum_rollouts", requested, c.declaration.maximum_rollouts) {
        Ok(_) => {},
        Err(e) => {
            return Err(e);
        },
    }
    if (requested as usize) < request.seeds.len() {
        return Err(
            AdmissionError::requested_limit_unsupported(
                "maximum_rollouts",
                requested as u64,
                Some(request.seeds.len() as u64),
            ),
        );
    }
    let maximum = match non_zero_u32(requested, "maximum_rollouts") {
        Ok(p) => p,
        Err(_) => {
            return Err(
                AdmissionError::execution_spec_invalid(
                    String::from_str(
                        "maximum_rollouts must be greater than zero; a zero bound is not a bound",
                    ),
                ),
            );
        },
    };
    Ok(
        RolloutPlan {
            seeds: copy_seeds(request.seeds.as_slice()),
            maximum_rollouts: RolloutCount(maximum),
        },
    )
}

/// The refusal for a supplied cost ceiling that could not be converted.
pub open spec fn unusable_cost_view(detail: Seq<char>) -> ErrorView {
    ErrorView {
        code: AdmissionErrorCode::CostCeilingRequired,
        message: "the supplied cost ceiling is unusable: "@ + detail,
        remediation: "Supply a positive hard total cost ceiling in the request."@,
        context: JsonView::Null,
    }
}

/// Why no resource envelope can be drawn: a missing bound, a bound above the
/// declared ceiling, no cost ceiling, an unusable one, or a zero bound.
pub open spec fn limits_refusal(request: InlineRequest, c: ContainerCandidate) -> Option<ErrorView> {
    let d = c.declaration;
    match request.maximum_model_calls_per_rollout {
        None => Some(execution_spec_invalid_view("no per-rollout model-call limit was supplied"@)),
        Some(calls) => match ceiling_refusal(
            "maximum_model_calls_per_rollout"@,
            calls,
            d.maximum_model_calls_per_rollout,
        ) {
            Some(v) => Some(v),
            None => match request.maximum_steps_per_rollout {
                None => Some(execution_spec_invalid_view("no per-rollout step limit was supplied"@)),
                Some(steps) => match ceiling_refusal(
                    "maximum_steps_per_rollout"@,
                    steps,
                    d.maximum_steps_per_rollout,
                ) {
                    Some(v) => Some(v),
                    None => match request.hard_total_cost {
                        None => Some(cost_ceiling_required_view()),
                        Some(Err(detail)) => Some(unusable_cost_view(detail@)),
                        Some(Ok(_)) => if calls == 0 {
                            Some(
                                execution_spec_invalid_view(
                                    "maximum_model_calls_per_rollout"@
                                        + " must be greater than zero; a zero bound is not a bound"@,
                                ),
                            )
                        } else if steps == 0 {
                            Some(
                                execution_spec_invalid_view(
                                    "maximum_steps_per_rollout"@
                                        + " must be greater than zero; a zero bound is not a bound"@,
                                ),
                            )
                        } else {
                            None
                        },
                    },
                },
            },
        },
    }
}

fn bound_resources(request: &InlineRequest, c: &ContainerCandidate) -> (r: Result<
    ResourceLimits,
    AdmissionError,
>)
    ensures
        match r {
            Ok(l) => limits_refusal(*request, *c) is None
                && l.maximum_model_calls_per_rollout.0@ == request.maximum_model_calls_per_rollout->Some_0
                && l.maximum_steps_per_rollout.0@ == request.maximum_steps_per_rollout->Some_0
                && request.hard_total_cost == Some(Ok::<CostMicros, String>(l.hard_total_cost_micros)),
            Err(e) => e.subject == subject_of(e.code) && limits_refusal(*request, *c) == Some(
                view_of(e),
            ),
        },
{
    let calls = match request.maximum_model_calls_per_rollout {
        Some(n) => n,
        None => {
            return Err(
                AdmissionError::execution_spec_invalid(
                    String::from_str("no per-rollout model-call limit was supplied"),
                ),
            );
        },
    };
    match check_ceiling(
        "maximum_model_calls_per_rollout",
        calls,
        c.declaration.maximum_model_calls_per_rollout,
    ) {
        Ok(_) => {},
        Err(e) => {
            return Err(e);
        },
    }
    let steps = match request.maximum_steps_per_rollout {
        Some(n) => n,
        None => {
            return Err(
                AdmissionError::execution_spec_invalid(
                    String::from_str("no per-rollout step limit was supplied"),
                ),
            );
        },
    };
    match check_ceiling("maximum_steps_per_rollout", steps, c.declaration.maximum_steps_per_rollout) {
        Ok(_) => {},
        Err(e) => {
            return Err(e);
        },
    }
    let cost = match &request.hard_total_cost {
        None => {
            return Err(AdmissionError::cost_ceiling_required());
        },
        Some(Err(detail)) => {
            return Err(
                AdmissionError::new(
                    AdmissionErrorCode::CostCeilingRequired,
                    crate::text::concat("the supplied cost ceiling is unusable: ", detail.as_str()),
                    String::from_str("Supply a positive hard total cost ceiling in the request."),
                ),
            );
        },
        Some(Ok(micros)) => *micros,
    };
    let calls_bound = match non_zero_u32(calls, "maximum_model_calls_per_rollout") {
        Ok(p) => p,
        Err(error) => {
            return Err(AdmissionError::execution_spec_invalid(error.message()));
        },
    };
    let steps_bound = match non_zero_u32(steps, "maximum_steps_per_rollout") {
        Ok(p) => p,
        Err(error) => {
            return Err(AdmissionError::execution_spec_invalid(error.message()));
        },
    };
    Ok(
        ResourceLimits {
            maximum_model_calls_per_rollout: ModelCallCount(calls_bound),
            maximum_steps_per_rollout: StepCount(steps_bound),
            hard_total_cost_micros: cost,
        },
    )
}


/// Why no credential route can be pinned: the proxy cannot route the provider,
/// or no capability scope was offered.
pub open spec fn route_refusal(provider: Seq<char>, context: DiscoveryContext) -> Option<ErrorView> {
    if !context.credential_route_available {
        Some(
            credential_route_unavailable_view(
                provider,
                match context.credential_route_detail {
                    Some(d) => d@,
                    None => "the Workshop secrets proxy is not running"@,
                },
            ),
        )
    } else if context.credential_capability_scope is None {
        Some(
            credential_route_unavailable_view(
                provider,
                "no credential capability scope was offered for this route"@,
            ),
        )
    } else {
        None
    }
}

fn route_credentials(provider: &ProviderId, context: &DiscoveryContext) -> (r: Result<
    CredentialRoute,
    AdmissionError,
>)
    ensures
        match r {
            Ok(route) => route_refusal(provider@, *context) is None && route_provider(route)
                == provider@ && texts_of(route_scope(route).operations@) == texts_of(
                context.credential_capability_scope->Some_0.operations@,
            ) && route_scope(route).lifetime_seconds
                == context.credential_capability_scope->Some_0.lifetime_seconds,
            Err(e) => e.subject == subject_of(e.code) && route_refusal(provider@, *context) == Some(
                view_of(e),
            ),
        },
{
    if !context.credential_route_available {
        let detail = match &context.credential_route_detail {
            Some(d) => d.clone(),
            None => String::from_str("the Workshop secrets proxy is not running"),
        };
        return Err(AdmissionError::credential_route_unavailable(provider, detail));
    }
    match &context.credential_capability_scope {
        Some(scope) => Ok(
            CredentialRoute::WorkshopSecretsProxy {
                provider: provider.clone(),
                capability_scope: scope.clone(),
            },
        ),
        None => Err(
            AdmissionError::credential_route_unavailable(
                provider,
                String::from_str("no credential capability scope was offered for this route"),
            ),
        ),
    }
}

/// The operations every run depends on that the container does not advertise,
/// in the order the requirement lists them.
pub open spec fn missing_operations(ops: Seq<Seq<char>>) -> Seq<Seq<char>> {
    (if ops.contains("rollouts.prepare"@) {
        Seq::empty()
    } else {
        seq!["rollouts.prepare"@]
    }) + (if ops.contains("rollouts.start_prepared"@) {
        Seq::empty()
    } else {
        seq!["rollouts.start_prepared"@]
    }) + (if ops.contains("reward.get"@) {
        Seq::empty()
    } else {
        seq!["reward.get"@]
    })
}

/// A container that cannot emit the evidence every run needs is refused at
/// admission rather than finishing with nothing to show.
pub open spec fn output_refusal(c: ContainerCandidate) -> Option<ErrorView> {
    let missing = missing_operations(texts_of(c.declaration.operations@));
    if missing.len() > 0 {
        Some(output_contract_unsupported_view(c.container_id@, missing))
    } else {
        None
    }
}

/// Whether `ops` advertises `op`.
pub fn has_operation(ops: &[String], op: &str) -> (r: bool)
    ensures
        r == texts_of(ops@).contains(op@),
{
    let mut i: usize = 0;
    while i < ops.len()
        invariant
            i <= ops.len(),
            forall|j: int| 0 <= j < i ==> texts_of(ops@)[j] != op@,
        decreases ops.len() - i,
    {
        if same_text(ops[i].as_str(), op) {
            assert(texts_of(ops@)[i as int] == op@);
            return true;
        }
        i = i + 1;
    }
    false
}

fn require_outputs(c: &ContainerCandidate) -> (r: Result<OutputContract, AdmissionError>)
    ensures
        match r {
            Ok(o) => output_refusal(*c) is None && o.requires_reward && o.requires_trace == texts_of(
                c.declaration.operations@,
            ).contains("trace_v5.capture"@) && o.requires_usage == texts_of(
                c.declaration.operations@,
            ).contains("usage.get"@) && strictly_sorted(texts_of(o.required_operations@))
                && forall|x: Seq<char>|
                texts_of(o.required_operations@).contains(x) <==> texts_of(
                    c.declaration.operations@,
                ).contains(x),
            Err(e) => e.subject == subject_of(e.code) && output_refusal(*c) == Some(view_of(e)),
        },
{
    let ops = c.declaration.operations.as_slice();
    let mut missing: Vec<String> = Vec::new();
    if !has_operation(ops, "rollouts.prepare") {
        missing.push(String::from_str("rollouts.prepare"));
    }
    if !has_operation(ops, "rollouts.start_prepared") {
        missing.push(String::from_str("rollouts.start_prepared"));
    }
    if !has_operation(ops, "reward.get") {
        missing.push(String::from_str("reward.get"));
    }
    assert(texts_of(missing@) =~= missing_operations(texts_of(ops@)));
    if missing.len() > 0 {
        let e = AdmissionError::output_contract_unsupported(&c.container_id, missing.as_slice());
        assert(Seq::new(missing@.len(), |k: int| missing@[k]@) =~= texts_of(missing@));
        return Err(e);
    }
    Ok(
        OutputContract::new(
            true,
            has_operation(ops, "trace_v5.capture"),
            has_operation(ops, "usage.get"),
            copy_strings(ops),
        ),
    )
}


// ---------------------------------------------------------------------------
// Drafting: the whole inline recipe
// ---------------------------------------------------------------------------

/// The first fact an inline draft is missing, in the order admission checks
/// them: the container, its health, protocol and declaration digest, the
/// evaluator, the policy, the model, the rollout plan, the limits, the
/// credential route, and the evidence operations.
pub open spec fn draft_refusal(request: InlineRequest, context: DiscoveryContext) -> Option<ErrorView> {
    match selection(request, context) {
        Err(v) => Some(v),
        Ok(i) => {
            let c = context.containers@[i];
            if container_refusal(c) is Some {
                container_refusal(c)
            } else if evaluator_refusal(request, c) is Some {
                evaluator_refusal(request, c)
            } else if policy_refusal(request, context) is Some {
                policy_refusal(request, context)
            } else if model_refusal(request, c) is Some {
                model_refusal(request, c)
            } else if plan_refusal(request, c) is Some {
                plan_refusal(request, c)
            } else if limits_refusal(request, c) is Some {
                limits_refusal(request, c)
            } else if route_refusal(request.provider->Some_0@, context) is Some {
                route_refusal(request.provider->Some_0@, context)
            } else {
                output_refusal(c)
            }
        },
    }
}

/// The recipe an admissible draft carries: every field traced to the request,
/// the selected container's declaration, or the resolved policy.
pub open spec fn drafted(recipe: InlineRecipe, request: InlineRequest, context: DiscoveryContext) -> bool {
    let c = context.containers@[selection(request, context)->Ok_0];
    let ops = texts_of(c.declaration.operations@);
    let scope = context.credential_capability_scope->Some_0;
    &&& recipe.container.container_id@ == c.container_id@
    &&& recipe.container.registration_id@ == c.registration_id@
    &&& recipe.container.source_revision@ == c.source_revision@
    &&& recipe.container.declaration_digest@ == c.declaration.declaration_digest->Some_0@
    &&& recipe.protocol == LiveEvalProtocol::SynthContainerLiveEvalV1
    &&& pinned_evaluator(recipe.evaluator, request, c)
    &&& pinned_policy(recipe.policy, request, context)
    &&& recipe.model.provider@ == request.provider->Some_0@
    &&& recipe.model.model_id@ == request.model_id->Some_0@
    &&& recipe.rollout_plan.seeds@ == request.seeds@
    &&& recipe.rollout_plan.maximum_rollouts.0@ == request.maximum_rollouts->Some_0
    &&& recipe.resource_limits.maximum_model_calls_per_rollout.0@
        == request.maximum_model_calls_per_rollout->Some_0
    &&& recipe.resource_limits.maximum_steps_per_rollout.0@ == request.maximum_steps_per_rollout->Some_0
    &&& request.hard_total_cost == Some(
        Ok::<CostMicros, String>(recipe.resource_limits.hard_total_cost_micros),
    )
    &&& route_provider(recipe.credential_route) == request.provider->Some_0@
    &&& texts_of(route_scope(recipe.credential_route).operations@) == texts_of(scope.operations@)
    &&& route_scope(recipe.credential_route).lifetime_seconds == scope.lifetime_seconds
    &&& recipe.output_contract.requires_reward
    &&& recipe.output_contract.requires_trace == ops.contains("trace_v5.capture"@)
    &&& recipe.output_contract.requires_usage == ops.contains("usage.get"@)
    &&& strictly_sorted(texts_of(recipe.output_contract.required_operations@))
    &&& forall|x: Seq<char>|
        texts_of(recipe.output_contract.required_operations@).contains(x) <==> ops.contains(x)
}

/// Builds an inline recipe from a request and what discovery found. It derives
/// only facts an authoritative source supplied, and refuses ambiguity rather
/// than resolving it.
pub fn draft_inline(request: &InlineRequest, context: &DiscoveryContext) -> (r: Result<
    InlineRecipe,
    AdmissionError,
>)
    ensures
        match r {
            Ok(recipe) => draft_refusal(*request, *context) is None && drafted(
                recipe,
                *request,
                *context,
            ),
            Err(e) => e.subject == subject_of(e.code) && draft_refusal(*request, *context) == Some(
                view_of(e),
            ),
        },
{
    let index = match select_container(request, context) {
        Ok(i) => i,
        Err(e) => {
            return Err(e);
        },
    };
    let c = &context.containers[index];
    let declaration_digest = match pin_container(c) {
        Ok(d) => d,
        Err(e) => {
            return Err(e);
        },
    };
    let evaluator = match pin_evaluator(request, c) {
        Ok(v) => v,
        Err(e) => {
            return Err(e);
        },
    };
    let policy = match pin_policy(request, context) {
        Ok(p) => p,
        Err(e) => {
            return Err(e);
        },
    };
    let model = match pin_model(request, c) {
        Ok(m) => m,
        Err(e) => {
            return Err(e);
        },
    };
    let rollout_plan = match plan_rollouts(request, c) {
        Ok(p) => p,
        Err(e) => {
            return Err(e);
        },
    };
    let resource_limits = match bound_resources(request, c) {
        Ok(l) => l,
        Err(e) => {
            return Err(e);
        },
    };
    let credential_route = match route_credentials(&model.provider, context) {
        Ok(route) => route,
        Err(e) => {
            return Err(e);
        },
    };
    let output_contract = match require_outputs(c) {
        Ok(o) => o,
        Err(e) => {
            return Err(e);
        },
    };
    Ok(
        InlineRecipe {
            container: ContainerPin {
                container_id: c.container_id.clone(),
                registration_id: c.registration_id.clone(),
                source_revision: c.source_revision.clone(),
                declaration_digest,
            },
            protocol: LiveEvalProtocol::SynthContainerLiveEvalV1,
            evaluator,
            policy,
            model,
            rollout_plan,
            resource_limits,
            credential_route,
            output_contract,
        },
    )
}


// ---------------------------------------------------------------------------
// Stage 1: materialize
// ---------------------------------------------------------------------------

/// A specification assembled but not yet checked; only [`materialize`] makes one.
#[derive(Debug)]
pub struct ExecutionSpecDraft {
    spec: ExecutionSpec,
}

impl ExecutionSpecDraft {
    /// The specification the draft carries.
    pub closed spec fn spec_value(self) -> ExecutionSpec {
        self.spec
    }

    pub fn spec(&self) -> (r: &ExecutionSpec)
        ensures
            *r == self.spec_value(),
    {
        &self.spec
    }

    pub fn source_kind(&self) -> (r: RecipeSourceKind)
        ensures
            r == self.spec_value().source_kind,
    {
        self.spec.source_kind
    }
}

/// The first catalog entry at or after `i` registered under `id`.
pub open spec fn catalog_entry(catalog: Seq<CatalogEntry>, id: Seq<char>, i: int) -> Option<int>
    decreases catalog.len() - i,
{
    if i < 0 || i >= catalog.len() {
        None
    } else if catalog[i].recipe_id@ == id {
        Some(i)
    } else {
        catalog_entry(catalog, id, i + 1)
    }
}

/// The refusal for a catalog recipe pinned to a revision it no longer has.
pub open spec fn stale_catalog_view(recipe_id: Seq<char>, expected: Seq<char>, actual: Seq<char>) -> ErrorView {
    ErrorView {
        code: AdmissionErrorCode::ExecutionSpecDigestMismatch,
        message: "catalog recipe `"@ + recipe_id
            + "` is at a different revision than the one pinned"@,
        remediation: "Re-read the catalog recipe and pin its current digest, or drop the expected digest to accept the catalog's current revision."@,
        context: JsonView::Object(
            seq![
                ("recipeId"@, crate::json::text_view(recipe_id)),
                ("expectedDigest"@, crate::json::text_view(expected)),
                ("actualDigest"@, crate::json::text_view(actual)),
            ],
        ),
    }
}

/// Brings either source to the one draft shape. The catalog is consulted only
/// for a catalog source; a miss or a stale pinned digest is refused, never
/// turned into an inline run.
pub fn materialize(source: RecipeSource, context: &DiscoveryContext) -> (r: Result<
    ExecutionSpecDraft,
    AdmissionError,
>)
    ensures
        match source {
            RecipeSource::Inline(recipe) => r matches Ok(d) && d.spec_value() == (ExecutionSpec {
                source_kind: RecipeSourceKind::Inline,
                catalog_recipe_id: None,
                recipe,
            }),
            RecipeSource::Catalog(reference) => match catalog_entry(
                context.catalog@,
                reference.recipe_id@,
                0,
            ) {
                None => r matches Err(e) && e.subject == subject_of(e.code) && view_of(e)
                    == catalog_recipe_not_found_view(
                    reference.recipe_id@,
                    context.catalog@.len() as u64,
                ),
                Some(k) => {
                    let entry = context.catalog@[k];
                    if reference.expected_digest matches Some(d) && d@ != entry.digest@ {
                        r matches Err(e) && e.subject == subject_of(e.code) && view_of(e)
                            == stale_catalog_view(
                            reference.recipe_id@,
                            reference.expected_digest->Some_0@,
                            entry.digest@,
                        )
                    } else {
                        r matches Ok(d) && d.spec_value().source_kind == RecipeSourceKind::Catalog
                            && (d.spec_value().catalog_recipe_id matches Some(id) && id@
                            == entry.recipe_id@) && same_recipe(d.spec_value().recipe, entry.recipe)
                    }
                },
            },
        },
{
    match source {
        RecipeSource::Inline(recipe) => Ok(
            ExecutionSpecDraft {
                spec: ExecutionSpec {
                    source_kind: RecipeSourceKind::Inline,
                    catalog_recipe_id: None,
                    recipe,
                },
            },
        ),
        RecipeSource::Catalog(reference) => {
            let catalog = &context.catalog;
            let mut i: usize = 0;
            while i < catalog.len()
                invariant
                    i <= catalog.len(),
                    *catalog == context.catalog,
                    catalog_entry(catalog@, reference.recipe_id@, 0) == catalog_entry(
                        catalog@,
                        reference.recipe_id@,
                        i as int,
                    ),
                ensures
                    i <= catalog.len(),
                    catalog_entry(catalog@, reference.recipe_id@, 0) == catalog_entry(
                        catalog@,
                        reference.recipe_id@,
                        i as int,
                    ),
                    i < catalog.len() ==> catalog@[i as int].recipe_id@ == reference.recipe_id@,
                decreases catalog.len() - i,
            {
                if catalog[i].recipe_id == reference.recipe_id {
                    break;
                }
                i = i + 1;
            }
            if i == catalog.len() {
                return Err(
                    AdmissionError::catalog_recipe_not_found(&reference.recipe_id, catalog.len()),
                );
            }
            let entry = &catalog[i];
            assert(catalog_entry(catalog@, reference.recipe_id@, i as int) == Some(i as int));
            match &reference.expected_digest {
                Some(expected) => {
                    if !same_text(expected.as_str(), entry.digest.as_str()) {
                        let message = concat3(
                            "catalog recipe `",
                            reference.recipe_id.as_str(),
                            "` is at a different revision than the one pinned",
                        );
                        let context_value = crate::json::object3(
                            "recipeId",
                            crate::json::text_value(reference.recipe_id.as_str()),
                            "expectedDigest",
                            crate::json::text_value(expected.as_str()),
                            "actualDigest",
                            crate::json::text_value(entry.digest.as_str()),
                        );
                        return Err(
                            AdmissionError::new(
                                AdmissionErrorCode::ExecutionSpecDigestMismatch,
                                message,
                                String::from_str(
                                    "Re-read the catalog recipe and pin its current digest, or drop the expected digest to accept the catalog's current revision.",
                                ),
                            ).with_context(context_value),
                        );
                    }
                },
                None => {},
            }
            Ok(
                ExecutionSpecDraft {
                    spec: ExecutionSpec {
                        source_kind: RecipeSourceKind::Catalog,
                        catalog_recipe_id: Some(entry.recipe_id.clone()),
                        recipe: entry.recipe.clone(),
                    },
                },
            )
        },
    }
}


// ---------------------------------------------------------------------------
// Stage 2: validate
// ---------------------------------------------------------------------------

/// No seed appears twice.
pub open spec fn distinct_seeds(seeds: Seq<Seed>) -> bool {
    forall|i: int, j: int| 0 <= i < j < seeds.len() ==> #[trigger] seeds[i] != #[trigger] seeds[j]
}

/// Why a draft is inconsistent, whichever source built it: no seeds, more
/// seeds than the rollout cap, a repeated seed, a configuration digest that no
/// longer matches, a credential route for another provider than the model's,
/// or a reward requirement without the operation that reports it.
pub open spec fn validation_refusal(spec: ExecutionSpec) -> Option<ErrorView> {
    let r = spec.recipe;
    let seeds = r.rollout_plan.seeds@;
    let maximum = r.rollout_plan.maximum_rollouts.0@;
    if seeds.len() == 0 {
        Some(execution_spec_invalid_view("the rollout plan declares no seeds"@))
    } else if seeds.len() > maximum {
        Some(
            requested_limit_unsupported_view(
                "maximum_rollouts"@,
                maximum as u64,
                Some(seeds.len() as u64),
            ),
        )
    } else if !distinct_seeds(seeds) {
        Some(
            execution_spec_invalid_view(
                "the rollout plan repeats a seed; each rollout must be distinguishable"@,
            ),
        )
    } else if !policy_digests_match(r.policy) {
        Some(
            policy_configuration_invalid_view(
                r.policy.namespace@,
                r.policy.name@,
                "the stored configuration digest does not match the configuration"@,
            ),
        )
    } else if route_provider(r.credential_route) != r.model.provider@ {
        Some(
            credential_route_unavailable_view(
                route_provider(r.credential_route),
                "the credential route is for `"@ + route_provider(r.credential_route)
                    + "` but the model is served by `"@ + r.model.provider@ + "`"@,
            ),
        )
    } else if r.output_contract.requires_reward && !texts_of(
        r.output_contract.required_operations@,
    ).contains("reward.get"@) {
        Some(output_contract_unsupported_view(r.container.container_id@, seq!["reward.get"@]))
    } else {
        None
    }
}

/// A draft whose internal consistency has been checked.
#[derive(Debug)]
pub struct ValidatedExecutionSpec {
    spec: ExecutionSpec,
}

impl ValidatedExecutionSpec {
    #[verifier::type_invariant]
    closed spec fn consistent(self) -> bool {
        validation_refusal(self.spec) is None
    }

    pub closed spec fn spec_value(self) -> ExecutionSpec {
        self.spec
    }

    pub fn spec(&self) -> (r: &ExecutionSpec)
        ensures
            *r == self.spec_value(),
            validation_refusal(*r) is None,
    {
        proof {
            use_type_invariant(self);
        }
        &self.spec
    }
}

fn seeds_distinct(seeds: &[Seed]) -> (r: bool)
    ensures
        r == distinct_seeds(seeds@),
{
    let mut i: usize = 0;
    while i < seeds.len()
        invariant
            i <= seeds.len(),
            forall|a: int, b: int| 0 <= a < i && a < b < seeds@.len() ==> seeds@[a] != seeds@[b],
        decreases seeds.len() - i,
    {
        let mut j: usize = i + 1;
        while j < seeds.len()
            invariant
                i < seeds.len(),
                i + 1 <= j <= seeds.len(),
                forall|a: int, b: int| 0 <= a < i && a < b < seeds@.len() ==> seeds@[a] != seeds@[b],
                forall|b: int| i < b < j ==> seeds@[i as int] != seeds@[b],
            decreases seeds.len() - j,
        {
            if seeds[i].0 == seeds[j].0 {
                assert(seeds@[i as int] == seeds@[j as int]);
                return false;
            }
            j = j + 1;
        }
        i = i + 1;
    }
    true
}

impl ExecutionSpecDraft {
    /// Checks the invariants every specification must hold; both sources run
    /// this, so a catalog preset gets the same scrutiny as an inline draft.
    pub fn validate(self) -> (r: Result<ValidatedExecutionSpec, AdmissionError>)
        ensures
            match r {
                Ok(v) => validation_refusal(self.spec_value()) is None && v.spec_value()
                    == self.spec_value(),
                Err(e) => e.subject == subject_of(e.code) && validation_refusal(self.spec_value())
                    == Some(view_of(e)),
            },
    {
        let recipe = &self.spec.recipe;
        let seeds = &recipe.rollout_plan.seeds;
        if seeds.len() == 0 {
            return Err(
                AdmissionError::execution_spec_invalid(
                    String::from_str("the rollout plan declares no seeds"),
                ),
            );
        }
        let maximum = recipe.rollout_plan.maximum_rollouts.0.get();
        if seeds.len() > maximum as usize {
            return Err(
                AdmissionError::requested_limit_unsupported(
                    "maximum_rollouts",
                    maximum as u64,
                    Some(seeds.len() as u64),
                ),
            );
        }
        if !seeds_distinct(seeds.as_slice()) {
            return Err(
                AdmissionError::execution_spec_invalid(
                    String::from_str(
                        "the rollout plan repeats a seed; each rollout must be distinguishable",
                    ),
                ),
            );
        }
        if !recipe.policy.digest_matches() {
            return Err(
                AdmissionError::policy_configuration_invalid(
                    recipe.policy.namespace.as_str(),
                    recipe.policy.name.as_str(),
                    String::from_str("the stored configuration digest does not match the configuration"),
                ),
            );
        }
        let route_provider_id = recipe.credential_route.provider();
        if *route_provider_id != recipe.model.provider {
            let detail = concat3(
                "the credential route is for `",
                route_provider_id.as_str(),
                "` but the model is served by `",
            );
            let detail = concat3(detail.as_str(), recipe.model.provider.as_str(), "`");
            return Err(AdmissionError::credential_route_unavailable(route_provider_id, detail));
        }
        if recipe.output_contract.requires_reward && !has_operation(
            recipe.output_contract.required_operations.as_slice(),
            "reward.get",
        ) {
            let missing = vec![String::from_str("reward.get")];
            let e = AdmissionError::output_contract_unsupported(
                &recipe.container.container_id,
                missing.as_slice(),
            );
            assert(Seq::new(missing@.len(), |k: int| missing@[k]@) =~= seq!["reward.get"@]);
            return Err(e);
        }
        Ok(ValidatedExecutionSpec { spec: self.spec })
    }
}

// ---------------------------------------------------------------------------
// Stage 3: admissible
// ---------------------------------------------------------------------------

/// A validated specification with a stable identity: what the approval card
/// displays and what a receipt is bound to.
#[derive(Debug)]
pub struct AdmissibleExecutionSpec {
    spec: ExecutionSpec,
    canonical: CanonicalJson,
    digest: Digest,
}

impl ValidatedExecutionSpec {
    /// Canonicalizes and hashes; after this the specification has an identity.
    pub fn into_admissible(self) -> (r: Result<AdmissibleExecutionSpec, AdmissionError>)
        ensures
            r matches Ok(a) && a.spec_value() == self.spec_value() && a.digest_value()
                == execution_spec_digest(self.spec_value()),
    {
        proof {
            use_type_invariant(&self);
        }
        let canonical = self.spec.canonical();
        let digest = canonical.digest();
        Ok(AdmissibleExecutionSpec { spec: self.spec, canonical, digest })
    }
}

impl AdmissibleExecutionSpec {
    #[verifier::type_invariant]
    closed spec fn identified(self) -> bool {
        &&& validation_refusal(self.spec) is None
        &&& self.canonical@ == canonical(execution_spec_json(self.spec))
        &&& self.digest@ == json_digest(self.canonical@)
    }

    pub closed spec fn spec_value(self) -> ExecutionSpec {
        self.spec
    }

    pub closed spec fn digest_value(self) -> Seq<char> {
        self.digest@
    }

    pub fn spec(&self) -> (r: &ExecutionSpec)
        ensures
            *r == self.spec_value(),
            validation_refusal(*r) is None,
    {
        proof {
            use_type_invariant(self);
        }
        &self.spec
    }

    pub fn canonical(&self) -> (r: &CanonicalJson)
        ensures
            r@ == canonical(execution_spec_json(self.spec_value())),
    {
        proof {
            use_type_invariant(self);
        }
        &self.canonical
    }

    pub fn digest(&self) -> (r: &Digest)
        ensures
            r@ == self.digest_value(),
            r@ == execution_spec_digest(self.spec_value()),
    {
        proof {
            use_type_invariant(self);
        }
        &self.digest
    }
}

impl Clone for AdmissibleExecutionSpec {
    fn clone(&self) -> (r: Self)
        ensures
            crate::admission::spec::same_spec(r.spec_value(), self.spec_value()),
            r.digest_value() == self.digest_value(),
    {
        proof {
            use_type_invariant(self);
        }
        AdmissibleExecutionSpec {
            spec: self.spec.clone(),
            canonical: self.canonical.clone(),
            digest: self.digest.clone(),
        }
    }
}


// ---------------------------------------------------------------------------
// Drift
// ---------------------------------------------------------------------------

/// Stable codes for refusing to execute an already-approved specification;
/// the remediation is always a new approval, never a patch.
#[derive(Clone, Copy, Debug, PartialEq, Eq, Structural)]
pub enum DriftCode {
    ApprovedSpecDigestMismatch,
    ContainerSourceChanged,
    ContainerDeclarationChanged,
    PolicyRevisionChanged,
    ApprovalBoundsExceeded,
}

pub open spec fn drift_code_text(code: DriftCode) -> Seq<char> {
    match code {
        DriftCode::ApprovedSpecDigestMismatch => "approved_spec_digest_mismatch"@,
        DriftCode::ContainerSourceChanged => "container_source_changed"@,
        DriftCode::ContainerDeclarationChanged => "container_declaration_changed"@,
        DriftCode::PolicyRevisionChanged => "policy_revision_changed"@,
        DriftCode::ApprovalBoundsExceeded => "approval_bounds_exceeded"@,
    }
}

impl DriftCode {
    pub fn as_str(self) -> (r: &'static str)
        ensures
            r@ == drift_code_text(self),
    {
        match self {
            DriftCode::ApprovedSpecDigestMismatch => "approved_spec_digest_mismatch",
            DriftCode::ContainerSourceChanged => "container_source_changed",
            DriftCode::ContainerDeclarationChanged => "container_declaration_changed",
            DriftCode::PolicyRevisionChanged => "policy_revision_changed",
            DriftCode::ApprovalBoundsExceeded => "approval_bounds_exceeded",
        }
    }
}

/// What a drift refusal says: its code and the facts that differ.
pub struct DriftView {
    pub code: DriftCode,
    pub context: JsonView,
}

/// A refusal to execute: the code and the facts that differ.
#[derive(Debug)]
pub struct ExecutionDriftError {
    pub code: DriftCode,
    pub context: JsonValue,
}

pub open spec fn drift_view_of(e: ExecutionDriftError) -> DriftView {
    DriftView { code: e.code, context: e.context@ }
}

/// Two facts that differ, as `{approvedKey: approved, currentKey: current}`.
pub open spec fn pair_json(k1: Seq<char>, v1: Seq<char>, k2: Seq<char>, v2: Seq<char>) -> JsonView {
    JsonView::Object(seq![(k1, crate::json::text_view(v1)), (k2, crate::json::text_view(v2))])
}

/// An exceeded approval bound.
pub open spec fn bound_json(bound: Seq<char>, approved: u64, requested: u64) -> JsonView {
    JsonView::Object(
        seq![
            ("bound"@, crate::json::text_view(bound)),
            ("approved"@, crate::json::count_view(approved)),
            ("requested"@, crate::json::count_view(requested)),
        ],
    )
}

/// The remediation every drift refusal carries.
pub open spec fn drift_remediation() -> Seq<char> {
    "Re-admit the specification and request a new paid-compute approval. The existing receipt does not cover these inputs."@
}

impl ExecutionDriftError {
    pub fn new(code: DriftCode, context: JsonValue) -> (r: Self)
        ensures
            r.code == code,
            r.context@ == context@,
    {
        ExecutionDriftError { code, context }
    }

    pub fn to_json(&self) -> (r: JsonValue)
        ensures
            r@ == JsonView::Object(
                seq![
                    ("code"@, crate::json::text_view(drift_code_text(self.code))),
                    ("context"@, self.context@),
                    ("remediation"@, crate::json::text_view(drift_remediation())),
                ],
            ),
    {
        crate::json::object3(
            "code",
            crate::json::text_value(self.code.as_str()),
            "context",
            crate::json::copy_json(&self.context),
            "remediation",
            crate::json::text_value(
                "Re-admit the specification and request a new paid-compute approval. The existing receipt does not cover these inputs.",
            ),
        )
    }

    /// `code: context`, the context in its compact canonical text.
    pub fn to_text(&self) -> (r: String)
        ensures
            r@ == drift_code_text(self.code) + ": "@ + crate::json::json_text(canonical(self.context@)),
    {
        let context_text = CanonicalJson::new(crate::json::copy_json(&self.context)).to_canonical_string();
        concat3(self.code.as_str(), ": ", context_text.as_str())
    }
}

fn pair_value(k1: &str, v1: &str, k2: &str, v2: &str) -> (r: JsonValue)
    ensures
        r@ == pair_json(k1@, v1@, k2@, v2@),
{
    crate::json::object2(k1, crate::json::text_value(v1), k2, crate::json::text_value(v2))
}

fn bound_value(bound: &str, approved: u64, requested: u64) -> (r: JsonValue)
    ensures
        r@ == bound_json(bound@, approved, requested),
{
    crate::json::object3(
        "bound",
        crate::json::text_value(bound),
        "approved",
        crate::json::unsigned_value(approved),
        "requested",
        crate::json::unsigned_value(requested),
    )
}


// ---------------------------------------------------------------------------
// Stage 4: approve
// ---------------------------------------------------------------------------

/// Why a receipt does not describe this specification: another digest,
/// another container declaration, another policy revision or configuration,
/// or a spend or rollout count above what was consented to. The receipt is a
/// ceiling, not a licence.
pub open spec fn approval_refusal(spec: ExecutionSpec, digest: Seq<char>, binding: ApprovalBinding) -> Option<
    DriftView,
> {
    let r = spec.recipe;
    let cost = r.resource_limits.hard_total_cost_micros.0@;
    let approved_cost = binding.approved_cost_micros.0@;
    let rollouts = r.rollout_plan.maximum_rollouts.0@;
    let approved_rollouts = binding.approved_rollouts.0@;
    if binding.execution_spec_digest@ != digest {
        Some(
            DriftView {
                code: DriftCode::ApprovedSpecDigestMismatch,
                context: pair_json(
                    "approvedDigest"@,
                    binding.execution_spec_digest@,
                    "actualDigest"@,
                    digest,
                ),
            },
        )
    } else if binding.container_declaration_digest@ != r.container.declaration_digest@ {
        Some(
            DriftView {
                code: DriftCode::ContainerDeclarationChanged,
                context: pair_json(
                    "approvedDeclarationDigest"@,
                    binding.container_declaration_digest@,
                    "actualDeclarationDigest"@,
                    r.container.declaration_digest@,
                ),
            },
        )
    } else if binding.policy_revision@ != r.policy.revision@ {
        Some(
            DriftView {
                code: DriftCode::PolicyRevisionChanged,
                context: pair_json(
                    "approvedRevision"@,
                    binding.policy_revision@,
                    "actualRevision"@,
                    r.policy.revision@,
                ),
            },
        )
    } else if binding.policy_configuration_digest@ != r.policy.configuration_digest@ {
        Some(
            DriftView {
                code: DriftCode::PolicyRevisionChanged,
                context: pair_json(
                    "approvedConfigurationDigest"@,
                    binding.policy_configuration_digest@,
                    "actualConfigurationDigest"@,
                    r.policy.configuration_digest@,
                ),
            },
        )
    } else if cost > approved_cost {
        Some(
            DriftView {
                code: DriftCode::ApprovalBoundsExceeded,
                context: bound_json("hard_total_cost_micros"@, approved_cost, cost),
            },
        )
    } else if rollouts > approved_rollouts {
        Some(
            DriftView {
                code: DriftCode::ApprovalBoundsExceeded,
                context: bound_json("maximum_rollouts"@, approved_rollouts as u64, rollouts as u64),
            },
        )
    } else {
        None
    }
}

/// The only thing an executor accepts. It has no public constructor and its
/// specification cannot change, so what runs is what was approved.
#[derive(Debug)]
pub struct ApprovedExecutionSpec {
    spec: ExecutionSpec,
    canonical: CanonicalJson,
    digest: Digest,
    binding: ApprovalBinding,
}

impl AdmissibleExecutionSpec {
    /// Binds an approval receipt after re-checking that it describes this
    /// specification, not merely accompanies it.
    pub fn approve(self, binding: ApprovalBinding) -> (r: Result<
        ApprovedExecutionSpec,
        ExecutionDriftError,
    >)
        ensures
            match r {
                Ok(a) => approval_refusal(self.spec_value(), self.digest_value(), binding) is None
                    && a.spec_value() == self.spec_value() && a.digest_value() == self.digest_value()
                    && a.binding_value() == binding,
                Err(e) => approval_refusal(self.spec_value(), self.digest_value(), binding) == Some(
                    drift_view_of(e),
                ),
            },
    {
        proof {
            use_type_invariant(&self);
        }
        if binding.execution_spec_digest != self.digest {
            return Err(
                ExecutionDriftError::new(
                    DriftCode::ApprovedSpecDigestMismatch,
                    pair_value(
                        "approvedDigest",
                        binding.execution_spec_digest.as_str(),
                        "actualDigest",
                        self.digest.as_str(),
                    ),
                ),
            );
        }
        let recipe = &self.spec.recipe;
        if binding.container_declaration_digest != recipe.container.declaration_digest {
            return Err(
                ExecutionDriftError::new(
                    DriftCode::ContainerDeclarationChanged,
                    pair_value(
                        "approvedDeclarationDigest",
                        binding.container_declaration_digest.as_str(),
                        "actualDeclarationDigest",
                        recipe.container.declaration_digest.as_str(),
                    ),
                ),
            );
        }
        if binding.policy_revision != recipe.policy.revision {
            return Err(
                ExecutionDriftError::new(
                    DriftCode::PolicyRevisionChanged,
                    pair_value(
                        "approvedRevision",
                        binding.policy_revision.as_str(),
                        "actualRevision",
                        recipe.policy.revision.as_str(),
                    ),
                ),
            );
        }
        if binding.policy_configuration_digest != recipe.policy.configuration_digest {
            return Err(
                ExecutionDriftError::new(
                    DriftCode::PolicyRevisionChanged,
                    pair_value(
                        "approvedConfigurationDigest",
                        binding.policy_configuration_digest.as_str(),
                        "actualConfigurationDigest",
                        recipe.policy.configuration_digest.as_str(),
                    ),
                ),
            );
        }
        let cost = recipe.resource_limits.hard_total_cost_micros.as_micros();
        let approved_cost = binding.approved_cost_micros.as_micros();
        if cost > approved_cost {
            return Err(
                ExecutionDriftError::new(
                    DriftCode::ApprovalBoundsExceeded,
                    bound_value("hard_total_cost_micros", approved_cost, cost),
                ),
            );
        }
        let rollouts = recipe.rollout_plan.maximum_rollouts.0.get();
        let approved_rollouts = binding.approved_rollouts.0.get();
        if rollouts > approved_rollouts {
            return Err(
                ExecutionDriftError::new(
                    DriftCode::ApprovalBoundsExceeded,
                    bound_value("maximum_rollouts", approved_rollouts as u64, rollouts as u64),
                ),
            );
        }
        Ok(
            ApprovedExecutionSpec {
                spec: self.spec,
                canonical: self.canonical,
                digest: self.digest,
                binding,
            },
        )
    }
}

/// Why dispatch must not proceed: the container's source or declaration, or
/// the policy revision, is no longer the one approved.
pub open spec fn dispatch_refusal(
    spec: ExecutionSpec,
    source_revision: Seq<char>,
    declaration_digest: Seq<char>,
    policy_revision: Seq<char>,
) -> Option<DriftView> {
    let r = spec.recipe;
    if source_revision != r.container.source_revision@ {
        Some(
            DriftView {
                code: DriftCode::ContainerSourceChanged,
                context: pair_json(
                    "approvedSourceRevision"@,
                    r.container.source_revision@,
                    "currentSourceRevision"@,
                    source_revision,
                ),
            },
        )
    } else if declaration_digest != r.container.declaration_digest@ {
        Some(
            DriftView {
                code: DriftCode::ContainerDeclarationChanged,
                context: pair_json(
                    "approvedDeclarationDigest"@,
                    r.container.declaration_digest@,
                    "currentDeclarationDigest"@,
                    declaration_digest,
                ),
            },
        )
    } else if policy_revision != r.policy.revision@ {
        Some(
            DriftView {
                code: DriftCode::PolicyRevisionChanged,
                context: pair_json(
                    "approvedRevision"@,
                    r.policy.revision@,
                    "currentRevision"@,
                    policy_revision,
                ),
            },
        )
    } else {
        None
    }
}

impl ApprovedExecutionSpec {
    #[verifier::type_invariant]
    closed spec fn approved(self) -> bool {
        &&& validation_refusal(self.spec) is None
        &&& self.canonical@ == canonical(execution_spec_json(self.spec))
        &&& self.digest@ == json_digest(self.canonical@)
        &&& approval_refusal(self.spec, self.digest@, self.binding) is None
    }

    pub closed spec fn spec_value(self) -> ExecutionSpec {
        self.spec
    }

    pub closed spec fn digest_value(self) -> Seq<char> {
        self.digest@
    }

    pub closed spec fn binding_value(self) -> ApprovalBinding {
        self.binding
    }

    pub fn spec(&self) -> (r: &ExecutionSpec)
        ensures
            *r == self.spec_value(),
            validation_refusal(*r) is None,
            approval_refusal(*r, self.digest_value(), self.binding_value()) is None,
    {
        proof {
            use_type_invariant(self);
        }
        &self.spec
    }

    pub fn recipe(&self) -> (r: &InlineRecipe)
        ensures
            *r == self.spec_value().recipe,
    {
        &self.spec.recipe
    }

    pub fn canonical(&self) -> (r: &CanonicalJson)
        ensures
            r@ == canonical(execution_spec_json(self.spec_value())),
    {
        proof {
            use_type_invariant(self);
        }
        &self.canonical
    }

    pub fn digest(&self) -> (r: &Digest)
        ensures
            r@ == self.digest_value(),
            r@ == execution_spec_digest(self.spec_value()),
    {
        proof {
            use_type_invariant(self);
        }
        &self.digest
    }

    pub fn binding(&self) -> (r: &ApprovalBinding)
        ensures
            *r == self.binding_value(),
    {
        &self.binding
    }

    pub fn receipt_id(&self) -> (r: &ApprovalReceiptId)
        ensures
            *r == self.binding_value().receipt_id,
    {
        &self.binding.receipt_id
    }

    /// Re-checks drift immediately before dispatch against the world as it is
    /// now; approval proves consent at a moment, this proves the inputs still
    /// match that moment. The specification's own digest is recomputed too.
    pub fn reverify(
        &self,
        current_source_revision: &SourceRevision,
        current_declaration_digest: &DeclarationDigest,
        current_policy_revision: &PolicyRevision,
    ) -> (r: Result<(), ExecutionDriftError>)
        ensures
            match r {
                Ok(_) => dispatch_refusal(
                    self.spec_value(),
                    current_source_revision@,
                    current_declaration_digest@,
                    current_policy_revision@,
                ) is None,
                Err(e) => dispatch_refusal(
                    self.spec_value(),
                    current_source_revision@,
                    current_declaration_digest@,
                    current_policy_revision@,
                ) == Some(drift_view_of(e)),
            },
    {
        proof {
            use_type_invariant(self);
        }
        let container = &self.spec.recipe.container;
        if *current_source_revision != container.source_revision {
            return Err(
                ExecutionDriftError::new(
                    DriftCode::ContainerSourceChanged,
                    pair_value(
                        "approvedSourceRevision",
                        container.source_revision.as_str(),
                        "currentSourceRevision",
                        current_source_revision.as_str(),
                    ),
                ),
            );
        }
        if *current_declaration_digest != container.declaration_digest {
            return Err(
                ExecutionDriftError::new(
                    DriftCode::ContainerDeclarationChanged,
                    pair_value(
                        "approvedDeclarationDigest",
                        container.declaration_digest.as_str(),
                        "currentDeclarationDigest",
                        current_declaration_digest.as_str(),
                    ),
                ),
            );
        }
        if *current_policy_revision != self.spec.recipe.policy.revision {
            return Err(
                ExecutionDriftError::new(
                    DriftCode::PolicyRevisionChanged,
                    pair_value(
                        "approvedRevision",
                        self.spec.recipe.policy.revision.as_str(),
                        "currentRevision",
                        current_policy_revision.as_str(),
                    ),
                ),
            );
        }
        let recomputed = self.spec.digest();
        if recomputed != self.digest {
            return Err(
                ExecutionDriftError::new(
                    DriftCode::ApprovedSpecDigestMismatch,
                    pair_value(
                        "approvedDigest",
                        self.digest.as_str(),
                        "actualDigest",
                        recomputed.as_str(),
                    ),
                ),
            );
        }
        Ok(())
    }
}


/// Exactly the facts an approval must display; built here so the displayed
/// bounds and the enforced bounds are the same values.
pub open spec fn disclosure_json(spec: ExecutionSpec, digest: Seq<char>, cost_display: Seq<char>) -> JsonView {
    let r = spec.recipe;
    JsonView::Object(
        seq![
            ("executionSpecDigest"@, crate::json::text_view(digest)),
            ("sourceKind"@, crate::json::text_view(source_kind_text(spec.source_kind))),
            ("catalogRecipeId"@, match spec.catalog_recipe_id {
                Some(id) => crate::json::text_view(id@),
                None => JsonView::Null,
            }),
            ("container"@, container_pin_json(r.container)),
            ("protocol"@, crate::json::text_view(LIVE_EVAL_PROTOCOL_V1@)),
            ("evaluator"@, JsonView::Object(
                seq![
                    ("kind"@, crate::json::text_view(evaluator_kind_text(r.evaluator))),
                    ("evaluatorId"@, crate::json::text_view(evaluator_id_of(r.evaluator))),
                    ("scoringDigest"@, crate::json::text_view(scoring_digest_of(r.evaluator))),
                ],
            )),
            ("policy"@, JsonView::Object(
                seq![
                    ("namespace"@, crate::json::text_view(r.policy.namespace@)),
                    ("name"@, crate::json::text_view(r.policy.name@)),
                    ("revision"@, crate::json::text_view(r.policy.revision@)),
                    ("configurationDigest"@, crate::json::text_view(r.policy.configuration_digest@)),
                    ("sourceDigest"@, optional_text_json(digest_of_option(r.policy.source_digest))),
                ],
            )),
            ("model"@, model_pin_json(r.model)),
            ("seeds"@, seeds_json(r.rollout_plan.seeds@)),
            ("rolloutCount"@, crate::json::count_view(r.rollout_plan.maximum_rollouts.0@ as u64)),
            ("maximumModelCallsPerRollout"@, crate::json::count_view(
                r.resource_limits.maximum_model_calls_per_rollout.0@ as u64,
            )),
            ("maximumStepsPerRollout"@, crate::json::count_view(
                r.resource_limits.maximum_steps_per_rollout.0@ as u64,
            )),
            ("hardTotalCostMicros"@, crate::json::count_view(
                r.resource_limits.hard_total_cost_micros.0@,
            )),
            ("hardTotalCostDisplay"@, crate::json::text_view(cost_display)),
            ("credentialRoute"@, JsonView::Object(
                seq![
                    ("kind"@, crate::json::text_view("workshop_secrets_proxy"@)),
                    ("provider"@, crate::json::text_view(route_provider(r.credential_route))),
                    ("capabilityScope"@, scope_json(route_scope(r.credential_route))),
                ],
            )),
        ],
    )
}

impl AdmissibleExecutionSpec {
    /// What the operator is shown before approving. `cost_display` is the
    /// ceiling rendered in dollars for reading; the ceiling itself travels
    /// and is compared in micros.
    pub fn approval_disclosure(&self, cost_display: &str) -> (r: JsonValue)
        ensures
            r@ == disclosure_json(self.spec_value(), self.digest_value(), cost_display@),
    {
        let recipe = &self.spec.recipe;
        let catalog_id = match &self.spec.catalog_recipe_id {
            Some(id) => text_value(id.as_str()),
            None => JsonValue::Null,
        };
        let evaluator_entries = vec![
            field("kind", text_value(recipe.evaluator.kind())),
            field("evaluatorId", text_value(recipe.evaluator.evaluator_id().as_str())),
            field("scoringDigest", text_value(recipe.evaluator.scoring_digest().as_str())),
        ];
        let source_digest = match &recipe.policy.source_digest {
            Some(d) => text_value(d.as_str()),
            None => JsonValue::Null,
        };
        let policy_entries = vec![
            field("namespace", text_value(recipe.policy.namespace.as_str())),
            field("name", text_value(recipe.policy.name.as_str())),
            field("revision", text_value(recipe.policy.revision.as_str())),
            field("configurationDigest", text_value(recipe.policy.configuration_digest.as_str())),
            field("sourceDigest", source_digest),
        ];
        let route_entries = vec![
            field("kind", text_value(recipe.credential_route.kind())),
            field("provider", text_value(recipe.credential_route.provider().as_str())),
            field("capabilityScope", recipe.credential_route.capability_scope().to_json()),
        ];
        proof {
            let r = self.spec_value().recipe;
            lemma_entries_of(evaluator_entries@);
            lemma_entries_of(policy_entries@);
            lemma_entries_of(route_entries@);
            assert(entries_of(evaluator_entries@) =~= seq![
                ("kind"@, crate::json::text_view(evaluator_kind_text(r.evaluator))),
                ("evaluatorId"@, crate::json::text_view(evaluator_id_of(r.evaluator))),
                ("scoringDigest"@, crate::json::text_view(scoring_digest_of(r.evaluator))),
            ]);
            assert(entries_of(policy_entries@) =~= seq![
                ("namespace"@, crate::json::text_view(r.policy.namespace@)),
                ("name"@, crate::json::text_view(r.policy.name@)),
                ("revision"@, crate::json::text_view(r.policy.revision@)),
                ("configurationDigest"@, crate::json::text_view(r.policy.configuration_digest@)),
                ("sourceDigest"@, optional_text_json(digest_of_option(r.policy.source_digest))),
            ]);
            assert(entries_of(route_entries@) =~= seq![
                ("kind"@, crate::json::text_view("workshop_secrets_proxy"@)),
                ("provider"@, crate::json::text_view(route_provider(r.credential_route))),
                ("capabilityScope"@, scope_json(route_scope(r.credential_route))),
            ]);
        }
        let evaluator_value = object_of(evaluator_entries);
        let policy_value = object_of(policy_entries);
        let route_value = object_of(route_entries);
        let entries = vec![
            field("executionSpecDigest", text_value(self.digest.as_str())),
            field("sourceKind", text_value(self.spec.source_kind.as_str())),
            field("catalogRecipeId", catalog_id),
            field("container", recipe.container.to_json()),
            field("protocol", text_value(recipe.protocol.as_str())),
            field("evaluator", evaluator_value),
            field("policy", policy_value),
            field("model", recipe.model.to_json()),
            field("seeds", seeds_value(recipe.rollout_plan.seeds.as_slice())),
            field("rolloutCount", unsigned_value(recipe.rollout_plan.maximum_rollouts.0.get() as u64)),
            field(
                "maximumModelCallsPerRollout",
                unsigned_value(recipe.resource_limits.maximum_model_calls_per_rollout.0.get() as u64),
            ),
            field(
                "maximumStepsPerRollout",
                unsigned_value(recipe.resource_limits.maximum_steps_per_rollout.0.get() as u64),
            ),
            field(
                "hardTotalCostMicros",
                unsigned_value(recipe.resource_limits.hard_total_cost_micros.as_micros()),
            ),
            field(
                "hardTotalCostDisplay",
                text_value(cost_display),
            ),
            field("credentialRoute", route_value),
        ];
        proof {
            lemma_entries_of(entries@);
            assert(entries_of(entries@) =~= disclosure_json(self.spec_value(), self.digest_value(), cost_display@)->Object_0);
        }
        object_of(entries)
    }
}


// ---------------------------------------------------------------------------
// Laws
// ---------------------------------------------------------------------------

/// The same request against the same discovery always drafts the same
/// specification, so it admits to the same digest: a specification is
/// reproducible from what was asked and what was found.
pub proof fn law_inline_drafts_are_reproducible(
    a: InlineRecipe,
    b: InlineRecipe,
    request: InlineRequest,
    context: DiscoveryContext,
)
    requires
        draft_refusal(request, context) is None,
        drafted(a, request, context),
        drafted(b, request, context),
    ensures
        recipe_json(a) == recipe_json(b),
        execution_spec_digest(
            ExecutionSpec { source_kind: RecipeSourceKind::Inline, catalog_recipe_id: None, recipe: a },
        ) == execution_spec_digest(
            ExecutionSpec { source_kind: RecipeSourceKind::Inline, catalog_recipe_id: None, recipe: b },
        ),
{
    let c = context.containers@[selection(request, context)->Ok_0];
    let ops = texts_of(c.declaration.operations@);
    assert forall|x: Seq<char>|
        texts_of(a.output_contract.required_operations@).contains(x) <==> texts_of(
            b.output_contract.required_operations@,
        ).contains(x) by {
        assert(texts_of(a.output_contract.required_operations@).contains(x) <==> ops.contains(x));
        assert(texts_of(b.output_contract.required_operations@).contains(x) <==> ops.contains(x));
    }
    crate::text::lemma_sorted_texts_unique(
        texts_of(a.output_contract.required_operations@),
        texts_of(b.output_contract.required_operations@),
    );
    assert(evaluator_json(a.evaluator) == evaluator_json(b.evaluator));
    assert(policy_json(a.policy) == policy_json(b.policy));
    assert(output_contract_json(a.output_contract) == output_contract_json(b.output_contract));
    assert(route_json(a.credential_route) == route_json(b.credential_route));
}

/// A receipt is consent for one specification: two specifications it approves
/// share one digest.
pub proof fn law_a_receipt_approves_one_digest(
    a: ExecutionSpec,
    da: Seq<char>,
    b: ExecutionSpec,
    db: Seq<char>,
    binding: ApprovalBinding,
)
    requires
        approval_refusal(a, da, binding) is None,
        approval_refusal(b, db, binding) is None,
    ensures
        da == db,
{
}

/// A receipt that records exactly what an admissible specification shows,
/// with bounds at least as large as the ones it requests, is accepted; the
/// receipt is a ceiling, so a specification may spend less but never more.
pub proof fn law_a_matching_receipt_is_accepted(spec: ExecutionSpec, digest: Seq<char>, binding: ApprovalBinding)
    requires
        binding.execution_spec_digest@ == digest,
        binding.container_declaration_digest@ == spec.recipe.container.declaration_digest@,
        binding.policy_revision@ == spec.recipe.policy.revision@,
        binding.policy_configuration_digest@ == spec.recipe.policy.configuration_digest@,
        spec.recipe.resource_limits.hard_total_cost_micros.0@ <= binding.approved_cost_micros.0@,
        spec.recipe.rollout_plan.maximum_rollouts.0@ <= binding.approved_rollouts.0@,
    ensures
        approval_refusal(spec, digest, binding) is None,
{
}

/// An approved specification dispatches exactly when the container source,
/// its declaration and the policy revision are the ones it was approved with.
pub proof fn law_dispatch_needs_unchanged_inputs(
    spec: ExecutionSpec,
    source_revision: Seq<char>,
    declaration_digest: Seq<char>,
    policy_revision: Seq<char>,
)
    ensures
        dispatch_refusal(spec, source_revision, declaration_digest, policy_revision) is None <==> (
        source_revision == spec.recipe.container.source_revision@ && declaration_digest
            == spec.recipe.container.declaration_digest@ && policy_revision
            == spec.recipe.policy.revision@),
{
}

/// Validation looks only at the recipe: a catalog preset gets exactly the
/// scrutiny of the same recipe drafted inline.
pub proof fn law_validation_ignores_provenance(a: ExecutionSpec, b: ExecutionSpec)
    requires
        a.recipe == b.recipe,
    ensures
        validation_refusal(a) == validation_refusal(b),
{
}

} // verus!
