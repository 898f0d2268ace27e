//! The immutable execution specification and the two sources it can come from.
//!
//! Everything here is data a run can be reproduced from: no option means
//! "decide later", and a value that is present is one an authoritative source
//! actually supplied. The JSON form of each type is the one the specification
//! is hashed, displayed and approved in.

use crate::admission::canonical::{json_digest, sha256_of, digest_bytes, CanonicalJson};
use crate::admission::ids::{
    digest_text_of, ContainerId, ContainerRegistrationId, CostMicros, DeclarationDigest, Digest,
    EvaluatorId, ModelCallCount, ModelId, PolicyRevision, ProviderId, RecipeDigest, RecipeId,
    RolloutCount, Seed, SourceRevision, StepCount, ApprovalReceiptId,
};
use crate::json::{
    member, array_of, count_view, entries_of, field, lemma_entries_of, object_of, text_value, text_view,
    unsigned_value, JsonNumber, JsonValue, JsonView, NumberView,
};
use crate::text::{chars_of, concat3, same_text, sorted_unique, texts_of, strictly_sorted, trim, trim_str};
use vstd::prelude::*;
use vstd::std_specs::cmp::PartialEqSpecImpl;

verus! {

/// The one live-eval protocol this pipeline admits.
pub const LIVE_EVAL_PROTOCOL_V1: &'static str = "synth.container.live-eval.v1";

/// Where a specification came from.
#[derive(Clone, Copy, Debug, PartialEq, Eq, Structural)]
pub enum RecipeSourceKind {
    Inline,
    Catalog,
}

pub open spec fn source_kind_text(kind: RecipeSourceKind) -> Seq<char> {
    match kind {
        RecipeSourceKind::Inline => "inline"@,
        RecipeSourceKind::Catalog => "catalog"@,
    }
}

impl RecipeSourceKind {
    pub fn as_str(self) -> (r: &'static str)
        ensures
            r@ == source_kind_text(self),
    {
        match self {
            RecipeSourceKind::Inline => "inline",
            RecipeSourceKind::Catalog => "catalog",
        }
    }
}

/// The normalized live-eval protocol, a closed set rather than a string.
#[derive(Clone, Copy, Debug, PartialEq, Eq, Structural)]
pub enum LiveEvalProtocol {
    SynthContainerLiveEvalV1,
}

impl LiveEvalProtocol {
    pub fn as_str(self) -> (r: &'static str)
        ensures
            r@ == LIVE_EVAL_PROTOCOL_V1@,
    {
        LIVE_EVAL_PROTOCOL_V1
    }

    /// Parses an advertised protocol. Unknown protocols are `None`; they are
    /// never coerced to the one variant this pipeline knows.
    pub fn parse(value: &str) -> (r: Option<Self>)
        ensures
            r is Some <==> trim(value@) == LIVE_EVAL_PROTOCOL_V1@,
    {
        let trimmed = trim_str(value);
        if same_text(trimmed.as_str(), LIVE_EVAL_PROTOCOL_V1) {
            Some(LiveEvalProtocol::SynthContainerLiveEvalV1)
        } else {
            None
        }
    }
}

/// Parsing a protocol's own text gives the protocol back: the advertised
/// text has nothing to trim, and it names the one protocol there is.
pub proof fn law_protocol_text_parses_to_itself(p: LiveEvalProtocol)
    ensures
        trim(LIVE_EVAL_PROTOCOL_V1@) == LIVE_EVAL_PROTOCOL_V1@,
        p == LiveEvalProtocol::SynthContainerLiveEvalV1,
{
    reveal_strlit("synth.container.live-eval.v1");
    let t = LIVE_EVAL_PROTOCOL_V1@;
    assert(t.len() == 28);
    assert(t[0] == 's');
    assert(t.last() == '1');
    crate::text::lemma_trim_unpadded(t);
}

/// The serialized name of the protocol variant.
pub open spec fn protocol_json(p: LiveEvalProtocol) -> JsonView {
    text_view("synth_container_live_eval_v1"@)
}

/// An explicit reference to a catalog recipe; a pinned digest, when present,
/// is enforced.
#[derive(Debug)]
pub struct CatalogRecipeRef {
    pub recipe_id: RecipeId,
    pub expected_digest: Option<RecipeDigest>,
}

/// The container, pinned to the exact registration and revision that was read.
#[derive(Debug)]
pub struct ContainerPin {
    pub container_id: ContainerId,
    pub registration_id: ContainerRegistrationId,
    pub source_revision: SourceRevision,
    pub declaration_digest: DeclarationDigest,
}

pub open spec fn container_pin_json(p: ContainerPin) -> JsonView {
    JsonView::Object(
        seq![
            ("containerId"@, text_view(p.container_id@)),
            ("registrationId"@, text_view(p.registration_id@)),
            ("sourceRevision"@, text_view(p.source_revision@)),
            ("declarationDigest"@, text_view(p.declaration_digest@)),
        ],
    )
}

impl Clone for ContainerPin {
    fn clone(&self) -> (r: Self)
        ensures
            r.container_id@ == self.container_id@,
            r.registration_id@ == self.registration_id@,
            r.source_revision@ == self.source_revision@,
            r.declaration_digest@ == self.declaration_digest@,
    {
        ContainerPin {
            container_id: self.container_id.clone(),
            registration_id: self.registration_id.clone(),
            source_revision: self.source_revision.clone(),
            declaration_digest: self.declaration_digest.clone(),
        }
    }
}

/// How scoring is determined: the container's own declaration, or an explicit
/// evaluator the container supports with caller-supplied configuration.
#[derive(Debug)]
pub enum EvaluatorSpec {
    ContainerDeclared { evaluator_id: EvaluatorId, evaluator_version: String, scoring_digest: Digest },
    Explicit { evaluator_id: EvaluatorId, configuration: CanonicalJson, scoring_digest: Digest },
}

pub open spec fn evaluator_id_of(e: EvaluatorSpec) -> Seq<char> {
    match e {
        EvaluatorSpec::ContainerDeclared { evaluator_id, .. } => evaluator_id@,
        EvaluatorSpec::Explicit { evaluator_id, .. } => evaluator_id@,
    }
}

pub open spec fn scoring_digest_of(e: EvaluatorSpec) -> Seq<char> {
    match e {
        EvaluatorSpec::ContainerDeclared { scoring_digest, .. } => scoring_digest@,
        EvaluatorSpec::Explicit { scoring_digest, .. } => scoring_digest@,
    }
}

pub open spec fn evaluator_kind_text(e: EvaluatorSpec) -> Seq<char> {
    match e {
        EvaluatorSpec::ContainerDeclared { .. } => "container_declared"@,
        EvaluatorSpec::Explicit { .. } => "explicit"@,
    }
}

pub open spec fn evaluator_json(e: EvaluatorSpec) -> JsonView {
    match e {
        EvaluatorSpec::ContainerDeclared { evaluator_id, evaluator_version, scoring_digest } => {
            JsonView::Object(
                seq![
                    ("kind"@, text_view("container_declared"@)),
                    ("evaluator_id"@, text_view(evaluator_id@)),
                    ("evaluator_version"@, text_view(evaluator_version@)),
                    ("scoring_digest"@, text_view(scoring_digest@)),
                ],
            )
        },
        EvaluatorSpec::Explicit { evaluator_id, configuration, scoring_digest } => {
            JsonView::Object(
                seq![
                    ("kind"@, text_view("explicit"@)),
                    ("evaluator_id"@, text_view(evaluator_id@)),
                    ("configuration"@, configuration@),
                    ("scoring_digest"@, text_view(scoring_digest@)),
                ],
            )
        },
    }
}

impl EvaluatorSpec {
    pub fn evaluator_id(&self) -> (r: &EvaluatorId)
        ensures
            r@ == evaluator_id_of(*self),
    {
        match self {
            EvaluatorSpec::ContainerDeclared { evaluator_id, .. } => evaluator_id,
            EvaluatorSpec::Explicit { evaluator_id, .. } => evaluator_id,
        }
    }

    pub fn scoring_digest(&self) -> (r: &Digest)
        ensures
            r@ == scoring_digest_of(*self),
    {
        match self {
            EvaluatorSpec::ContainerDeclared { scoring_digest, .. } => scoring_digest,
            EvaluatorSpec::Explicit { scoring_digest, .. } => scoring_digest,
        }
    }

    pub fn kind(&self) -> (r: &'static str)
        ensures
            r@ == evaluator_kind_text(*self),
    {
        match self {
            EvaluatorSpec::ContainerDeclared { .. } => "container_declared",
            EvaluatorSpec::Explicit { .. } => "explicit",
        }
    }
}

impl Clone for EvaluatorSpec {
    fn clone(&self) -> (r: Self)
        ensures
            evaluator_json(r) == evaluator_json(*self),
    {
        match self {
            EvaluatorSpec::ContainerDeclared { evaluator_id, evaluator_version, scoring_digest } => {
                EvaluatorSpec::ContainerDeclared {
                    evaluator_id: evaluator_id.clone(),
                    evaluator_version: evaluator_version.clone(),
                    scoring_digest: scoring_digest.clone(),
                }
            },
            EvaluatorSpec::Explicit { evaluator_id, configuration, scoring_digest } => {
                EvaluatorSpec::Explicit {
                    evaluator_id: evaluator_id.clone(),
                    configuration: configuration.clone(),
                    scoring_digest: scoring_digest.clone(),
                }
            },
        }
    }
}

/// Provider and model, both explicit; a model is never substituted.
#[derive(Debug)]
pub struct ModelPin {
    pub provider: ProviderId,
    pub model_id: ModelId,
}

pub open spec fn model_pin_json(m: ModelPin) -> JsonView {
    JsonView::Object(
        seq![("provider"@, text_view(m.provider@)), ("modelId"@, text_view(m.model_id@))],
    )
}

impl Clone for ModelPin {
    fn clone(&self) -> (r: Self)
        ensures
            r.provider@ == self.provider@,
            r.model_id@ == self.model_id@,
    {
        ModelPin { provider: self.provider.clone(), model_id: self.model_id.clone() }
    }
}


/// The digest of a text's UTF-8 bytes.
pub open spec fn text_digest(s: Seq<char>) -> Seq<char> {
    digest_text_of(sha256_of(vstd::utf8::encode_utf8(s)))
}

/// The digest of a string's UTF-8 bytes.
pub fn digest_text(s: &str) -> (r: Digest)
    ensures
        r@ == text_digest(s@),
{
    digest_bytes(s.as_bytes())
}

/// A JSON array of texts.
pub open spec fn texts_json(s: Seq<Seq<char>>) -> JsonView {
    JsonView::Array(s.map_values(|t: Seq<char>| text_view(t)))
}

/// Strings with the same texts.
pub fn copy_strings(items: &[String]) -> (r: Vec<String>)
    ensures
        texts_of(r@) == texts_of(items@),
{
    let mut out: Vec<String> = Vec::new();
    let mut i: usize = 0;
    while i < items.len()
        invariant
            i <= items.len(),
            texts_of(out@) == texts_of(items@.subrange(0, i as int)),
        decreases items.len() - i,
    {
        out.push(items[i].clone());
        assert(texts_of(items@.subrange(0, i + 1)) =~= texts_of(items@.subrange(0, i as int)).push(
            items@[i as int]@,
        ));
        i = i + 1;
    }
    assert(items@.subrange(0, items@.len() as int) =~= items@);
    out
}

/// A JSON array of the texts of `items`.
pub fn strings_json(items: &[String]) -> (r: crate::json::JsonValue)
    ensures
        r@ == texts_json(texts_of(items@)),
{
    let r = crate::json::text_array(items);
    assert(Seq::new(items@.len(), |k: int| JsonView::Text(items@[k]@)) =~= texts_of(
        items@,
    ).map_values(|t: Seq<char>| text_view(t)));
    r
}

/// Where the approved policy bytes came from; dispatch re-reads them from this
/// root and checks `content_digest` before spend.
#[derive(Debug)]
pub struct PolicyMaterialRef {
    pub source_root: String,
    pub repository_relative_path: String,
    pub tracked_revision: String,
    pub content_digest: Digest,
}

pub open spec fn material_json(m: PolicyMaterialRef) -> JsonView {
    JsonView::Object(
        seq![
            ("sourceRoot"@, text_view(m.source_root@)),
            ("repositoryRelativePath"@, text_view(m.repository_relative_path@)),
            ("trackedRevision"@, text_view(m.tracked_revision@)),
            ("contentDigest"@, text_view(m.content_digest@)),
        ],
    )
}

/// The same material, field for field.
pub open spec fn same_material(a: PolicyMaterialRef, b: PolicyMaterialRef) -> bool {
    &&& a.source_root@ == b.source_root@
    &&& a.repository_relative_path@ == b.repository_relative_path@
    &&& a.tracked_revision@ == b.tracked_revision@
    &&& a.content_digest@ == b.content_digest@
}

impl Clone for PolicyMaterialRef {
    fn clone(&self) -> (r: Self)
        ensures
            same_material(r, *self),
    {
        PolicyMaterialRef {
            source_root: self.source_root.clone(),
            repository_relative_path: self.repository_relative_path.clone(),
            tracked_revision: self.tracked_revision.clone(),
            content_digest: self.content_digest.clone(),
        }
    }
}

/// The policy, pinned to a revision and to the exact configuration bytes; the
/// digest is stored so a configuration rewritten in place is detectable.
/// Source bytes are an in-memory materialization and never part of the hash.
#[derive(Debug)]
pub struct PolicyPin {
    pub namespace: String,
    pub name: String,
    pub revision: PolicyRevision,
    pub configuration: CanonicalJson,
    pub configuration_digest: Digest,
    pub material: Option<PolicyMaterialRef>,
    pub source_code: Option<String>,
    pub source_digest: Option<Digest>,
}

pub open spec fn policy_json(p: PolicyPin) -> JsonView {
    let base = seq![
        ("namespace"@, text_view(p.namespace@)),
        ("name"@, text_view(p.name@)),
        ("revision"@, text_view(p.revision@)),
        ("configuration"@, p.configuration@),
        ("configurationDigest"@, text_view(p.configuration_digest@)),
    ];
    let with_material = match p.material {
        Some(m) => base.push(("material"@, material_json(m))),
        None => base,
    };
    JsonView::Object(
        match p.source_digest {
            Some(d) => with_material.push(("sourceDigest"@, text_view(d@))),
            None => with_material,
        },
    )
}

/// The texts of optional source bytes.
pub open spec fn optional_text_of(s: Option<String>) -> Option<Seq<char>> {
    match s {
        Some(t) => Some(t@),
        None => None,
    }
}

/// Whether a pin's stored digests agree with what it carries.
pub open spec fn policy_digests_match(p: PolicyPin) -> bool {
    &&& json_digest(p.configuration@) == p.configuration_digest@
    &&& match (p.source_code, p.source_digest, p.material) {
        (Some(code), Some(d), m) => text_digest(code@) == d@ && match m {
            Some(item) => item.content_digest@ == text_digest(code@),
            None => true,
        },
        (None, Some(d), Some(m)) => m.content_digest@ == d@,
        (None, None, None) => true,
        (None, Some(_), None) => true,
        _ => false,
    }
}

/// Two pins with the same serialized form and the same source bytes.
pub open spec fn same_policy(a: PolicyPin, b: PolicyPin) -> bool {
    &&& policy_json(a) == policy_json(b)
    &&& optional_text_of(a.source_code) == optional_text_of(b.source_code)
    &&& a.namespace@ == b.namespace@
    &&& a.name@ == b.name@
    &&& a.revision@ == b.revision@
    &&& a.configuration@ == b.configuration@
    &&& a.configuration_digest@ == b.configuration_digest@
    &&& policy_digests_match(a) == policy_digests_match(b)
}

fn copy_optional_text(s: &Option<String>) -> (r: Option<String>)
    ensures
        optional_text_of(r) == optional_text_of(*s),
{
    match s {
        Some(t) => Some(t.clone()),
        None => None,
    }
}

impl Clone for PolicyPin {
    fn clone(&self) -> (r: Self)
        ensures
            same_policy(r, *self),
    {
        let material = match &self.material {
            Some(m) => Some(m.clone()),
            None => None,
        };
        let source_digest = match &self.source_digest {
            Some(d) => Some(d.clone()),
            None => None,
        };
        let r = PolicyPin {
            namespace: self.namespace.clone(),
            name: self.name.clone(),
            revision: self.revision.clone(),
            configuration: self.configuration.clone(),
            configuration_digest: self.configuration_digest.clone(),
            material,
            source_code: copy_optional_text(&self.source_code),
            source_digest,
        };
        assert(policy_json(r) == policy_json(*self));
        r
    }
}

impl PolicyPin {
    /// A pin whose configuration digest is computed from the configuration.
    pub fn new(
        namespace: String,
        name: String,
        revision: PolicyRevision,
        configuration: CanonicalJson,
    ) -> (r: Self)
        ensures
            r.namespace@ == namespace@,
            r.name@ == name@,
            r.revision@ == revision@,
            r.configuration@ == configuration@,
            r.configuration_digest@ == json_digest(configuration@),
            r.material is None,
            r.source_code is None,
            r.source_digest is None,
    {
        let configuration_digest = configuration.digest();
        PolicyPin {
            namespace,
            name,
            revision,
            configuration,
            configuration_digest,
            material: None,
            source_code: None,
            source_digest: None,
        }
    }

    /// Carries the source bytes, with their digest.
    pub fn with_source_code(self, source_code: Option<String>) -> (r: Self)
        ensures
            r.namespace@ == self.namespace@,
            r.name@ == self.name@,
            r.revision@ == self.revision@,
            r.configuration@ == self.configuration@,
            r.configuration_digest@ == self.configuration_digest@,
            r.material == self.material,
            optional_text_of(r.source_code) == optional_text_of(source_code),
            match source_code {
                Some(code) => r.source_digest matches Some(d) && d@ == text_digest(code@),
                None => r.source_digest is None,
            },
    {
        let mut out = self;
        out.source_digest = match &source_code {
            Some(code) => Some(digest_text(code.as_str())),
            None => None,
        };
        out.source_code = source_code;
        out
    }

    /// Carries the source bytes read from `material`; the material's content
    /// digest becomes the digest of those bytes.
    pub fn with_material(self, material: PolicyMaterialRef, source_code: String) -> (r: Self)
        ensures
            r.namespace@ == self.namespace@,
            r.name@ == self.name@,
            r.revision@ == self.revision@,
            r.configuration@ == self.configuration@,
            r.configuration_digest@ == self.configuration_digest@,
            r.source_code matches Some(c) && c@ == source_code@,
            r.source_digest matches Some(d) && d@ == text_digest(source_code@),
            r.material matches Some(m) && m.source_root@ == material.source_root@
                && m.repository_relative_path@ == material.repository_relative_path@
                && m.tracked_revision@ == material.tracked_revision@
                && m.content_digest@ == text_digest(source_code@),
    {
        let digest = digest_text(source_code.as_str());
        let mut out = self;
        out.source_digest = Some(digest.clone());
        out.material = Some(
            PolicyMaterialRef {
                source_root: material.source_root,
                repository_relative_path: material.repository_relative_path,
                tracked_revision: material.tracked_revision,
                content_digest: digest,
            },
        );
        out.source_code = Some(source_code);
        out
    }

    /// Whether the stored digests still match what the pin carries; checked on
    /// read-back rather than assumed.
    pub fn digest_matches(&self) -> (r: bool)
        ensures
            r == policy_digests_match(*self),
    {
        if self.configuration.digest() != self.configuration_digest {
            return false;
        }
        match (&self.source_code, &self.source_digest, &self.material) {
            (Some(code), Some(digest), material) => {
                let actual = digest_text(code.as_str());
                if actual != *digest {
                    return false;
                }
                match material {
                    Some(item) => item.content_digest == actual,
                    None => true,
                }
            },
            (None, Some(digest), Some(material)) => material.content_digest == *digest,
            (None, None, None) => true,
            (None, Some(_), None) => true,
            _ => false,
        }
    }

    /// `namespace/name`.
    pub fn qualified_name(&self) -> (r: String)
        ensures
            r@ == self.namespace@ + "/"@ + self.name@,
    {
        concat3(self.namespace.as_str(), "/", self.name.as_str())
    }
}


/// The JSON number of a seed.
pub open spec fn seed_json(s: Seed) -> JsonView {
    if s.0 >= 0 {
        JsonView::Number(NumberView::Unsigned(s.0 as u64))
    } else {
        JsonView::Number(NumberView::Negative(s.0))
    }
}

pub open spec fn seeds_json(seeds: Seq<Seed>) -> JsonView {
    JsonView::Array(seeds.map_values(|s: Seed| seed_json(s)))
}

/// The seeds to run and the hard cap on how many rollouts may exist. The cap is
/// not derived from the seed count; validation checks the relationship.
#[derive(Debug)]
pub struct RolloutPlan {
    pub seeds: Vec<Seed>,
    pub maximum_rollouts: RolloutCount,
}

pub open spec fn rollout_plan_json(p: RolloutPlan) -> JsonView {
    JsonView::Object(
        seq![
            ("seeds"@, seeds_json(p.seeds@)),
            ("maximumRollouts"@, count_view(p.maximum_rollouts.0@ as u64)),
        ],
    )
}

/// The same seeds.
pub fn copy_seeds(seeds: &[Seed]) -> (r: Vec<Seed>)
    ensures
        r@ == seeds@,
{
    let mut out: Vec<Seed> = Vec::new();
    let mut i: usize = 0;
    while i < seeds.len()
        invariant
            i <= seeds.len(),
            out@ == seeds@.subrange(0, i as int),
        decreases seeds.len() - i,
    {
        out.push(Seed(seeds[i].0));
        assert(seeds@.subrange(0, i + 1) =~= seeds@.subrange(0, i as int).push(seeds@[i as int]));
        i = i + 1;
    }
    assert(seeds@.subrange(0, seeds@.len() as int) =~= seeds@);
    out
}

impl Clone for RolloutPlan {
    fn clone(&self) -> (r: Self)
        ensures
            r.seeds@ == self.seeds@,
            r.maximum_rollouts == self.maximum_rollouts,
    {
        RolloutPlan { seeds: copy_seeds(self.seeds.as_slice()), maximum_rollouts: self.maximum_rollouts }
    }
}

impl RolloutPlan {
    /// How many rollouts the plan declares: one per seed.
    pub fn declared_rollouts(&self) -> (r: usize)
        ensures
            r == self.seeds@.len(),
    {
        self.seeds.len()
    }
}

/// Per-rollout and total bounds; all three are required for paid execution.
#[derive(Clone, Copy, Debug)]
pub struct ResourceLimits {
    pub maximum_model_calls_per_rollout: ModelCallCount,
    pub maximum_steps_per_rollout: StepCount,
    pub hard_total_cost_micros: CostMicros,
}

pub open spec fn limits_json(l: ResourceLimits) -> JsonView {
    JsonView::Object(
        seq![
            ("maximumModelCallsPerRollout"@, count_view(l.maximum_model_calls_per_rollout.0@ as u64)),
            ("maximumStepsPerRollout"@, count_view(l.maximum_steps_per_rollout.0@ as u64)),
            ("hardTotalCostMicros"@, count_view(l.hard_total_cost_micros.0@)),
        ],
    )
}

/// What a minted credential capability may do, and for how long.
#[derive(Debug)]
pub struct CredentialCapabilityScope {
    /// Operation wire names, sorted, each once.
    pub operations: Vec<String>,
    /// Lifetime in seconds.
    pub lifetime_seconds: u32,
}

pub open spec fn scope_json(c: CredentialCapabilityScope) -> JsonView {
    JsonView::Object(
        seq![
            ("operations"@, texts_json(texts_of(c.operations@))),
            ("lifetimeSeconds"@, count_view(c.lifetime_seconds as u64)),
        ],
    )
}

impl CredentialCapabilityScope {
    /// The operations sorted, each once.
    pub fn new(operations: Vec<String>, lifetime_seconds: u32) -> (r: Self)
        ensures
            strictly_sorted(texts_of(r.operations@)),
            forall|x: Seq<char>|
                texts_of(r.operations@).contains(x) <==> texts_of(operations@).contains(x),
            r.lifetime_seconds == lifetime_seconds,
    {
        CredentialCapabilityScope { operations: sorted_unique(operations), lifetime_seconds }
    }
}

impl Clone for CredentialCapabilityScope {
    fn clone(&self) -> (r: Self)
        ensures
            texts_of(r.operations@) == texts_of(self.operations@),
            r.lifetime_seconds == self.lifetime_seconds,
    {
        CredentialCapabilityScope {
            operations: copy_strings(self.operations.as_slice()),
            lifetime_seconds: self.lifetime_seconds,
        }
    }
}

/// How the container gets provider credentials.
#[derive(Debug)]
pub enum CredentialRoute {
    WorkshopSecretsProxy { provider: ProviderId, capability_scope: CredentialCapabilityScope },
}

pub open spec fn route_provider(c: CredentialRoute) -> Seq<char> {
    match c {
        CredentialRoute::WorkshopSecretsProxy { provider, .. } => provider@,
    }
}

pub open spec fn route_scope(c: CredentialRoute) -> CredentialCapabilityScope {
    match c {
        CredentialRoute::WorkshopSecretsProxy { capability_scope, .. } => capability_scope,
    }
}

pub open spec fn route_json(c: CredentialRoute) -> JsonView {
    JsonView::Object(
        seq![
            ("kind"@, text_view("workshop_secrets_proxy"@)),
            ("provider"@, text_view(route_provider(c))),
            ("capability_scope"@, scope_json(route_scope(c))),
        ],
    )
}

impl CredentialRoute {
    pub fn provider(&self) -> (r: &ProviderId)
        ensures
            r@ == route_provider(*self),
    {
        match self {
            CredentialRoute::WorkshopSecretsProxy { provider, .. } => provider,
        }
    }

    pub fn capability_scope(&self) -> (r: &CredentialCapabilityScope)
        ensures
            *r == route_scope(*self),
    {
        match self {
            CredentialRoute::WorkshopSecretsProxy { capability_scope, .. } => capability_scope,
        }
    }

    pub fn kind(&self) -> (r: &'static str)
        ensures
            r@ == "workshop_secrets_proxy"@,
    {
        "workshop_secrets_proxy"
    }
}

impl Clone for CredentialRoute {
    fn clone(&self) -> (r: Self)
        ensures
            route_provider(r) == route_provider(*self),
            texts_of(route_scope(r).operations@) == texts_of(route_scope(*self).operations@),
            route_scope(r).lifetime_seconds == route_scope(*self).lifetime_seconds,
    {
        match self {
            CredentialRoute::WorkshopSecretsProxy { provider, capability_scope } => {
                CredentialRoute::WorkshopSecretsProxy {
                    provider: provider.clone(),
                    capability_scope: capability_scope.clone(),
                }
            },
        }
    }
}

/// The evidence the run must produce.
#[derive(Debug)]
pub struct OutputContract {
    pub requires_reward: bool,
    pub requires_trace: bool,
    pub requires_usage: bool,
    /// Container operations this contract depends on, sorted, each once.
    pub required_operations: Vec<String>,
}

pub open spec fn output_contract_json(o: OutputContract) -> JsonView {
    JsonView::Object(
        seq![
            ("requiresReward"@, JsonView::Bool(o.requires_reward)),
            ("requiresTrace"@, JsonView::Bool(o.requires_trace)),
            ("requiresUsage"@, JsonView::Bool(o.requires_usage)),
            ("requiredOperations"@, texts_json(texts_of(o.required_operations@))),
        ],
    )
}

impl OutputContract {
    /// The required operations sorted, each once.
    pub fn new(
        requires_reward: bool,
        requires_trace: bool,
        requires_usage: bool,
        required_operations: Vec<String>,
    ) -> (r: Self)
        ensures
            r.requires_reward == requires_reward,
            r.requires_trace == requires_trace,
            r.requires_usage == requires_usage,
            strictly_sorted(texts_of(r.required_operations@)),
            forall|x: Seq<char>|
                texts_of(r.required_operations@).contains(x) <==> texts_of(
                    required_operations@,
                ).contains(x),
    {
        OutputContract {
            requires_reward,
            requires_trace,
            requires_usage,
            required_operations: sorted_unique(required_operations),
        }
    }
}

impl Clone for OutputContract {
    fn clone(&self) -> (r: Self)
        ensures
            r.requires_reward == self.requires_reward,
            r.requires_trace == self.requires_trace,
            r.requires_usage == self.requires_usage,
            texts_of(r.required_operations@) == texts_of(self.required_operations@),
    {
        OutputContract {
            requires_reward: self.requires_reward,
            requires_trace: self.requires_trace,
            requires_usage: self.requires_usage,
            required_operations: copy_strings(self.required_operations.as_slice()),
        }
    }
}


impl ContainerPin {
    pub fn to_json(&self) -> (r: JsonValue)
        ensures
            r@ == container_pin_json(*self),
    {
        let entries = vec![
            field("containerId", text_value(self.container_id.as_str())),
            field("registrationId", text_value(self.registration_id.as_str())),
            field("sourceRevision", text_value(self.source_revision.as_str())),
            field("declarationDigest", text_value(self.declaration_digest.as_str())),
        ];
        proof {
            lemma_entries_of(entries@);
            assert(entries_of(entries@) =~= container_pin_json(*self)->Object_0);
        }
        object_of(entries)
    }
}

impl EvaluatorSpec {
    pub fn to_json(&self) -> (r: JsonValue)
        ensures
            r@ == evaluator_json(*self),
    {
        match self {
            EvaluatorSpec::ContainerDeclared { evaluator_id, evaluator_version, scoring_digest } => {
                let entries = vec![
                    field("kind", text_value("container_declared")),
                    field("evaluator_id", text_value(evaluator_id.as_str())),
                    field("evaluator_version", text_value(evaluator_version.as_str())),
                    field("scoring_digest", text_value(scoring_digest.as_str())),
                ];
                proof {
                    lemma_entries_of(entries@);
                    assert(entries_of(entries@) =~= evaluator_json(*self)->Object_0);
                }
                object_of(entries)
            },
            EvaluatorSpec::Explicit { evaluator_id, configuration, scoring_digest } => {
                let entries = vec![
                    field("kind", text_value("explicit")),
                    field("evaluator_id", text_value(evaluator_id.as_str())),
                    field("configuration", configuration.clone().into_value()),
                    field("scoring_digest", text_value(scoring_digest.as_str())),
                ];
                proof {
                    lemma_entries_of(entries@);
                    assert(entries_of(entries@) =~= evaluator_json(*self)->Object_0);
                }
                object_of(entries)
            },
        }
    }
}

impl PolicyMaterialRef {
    pub fn to_json(&self) -> (r: JsonValue)
        ensures
            r@ == material_json(*self),
    {
        let entries = vec![
            field("sourceRoot", text_value(self.source_root.as_str())),
            field("repositoryRelativePath", text_value(self.repository_relative_path.as_str())),
            field("trackedRevision", text_value(self.tracked_revision.as_str())),
            field("contentDigest", text_value(self.content_digest.as_str())),
        ];
        proof {
            lemma_entries_of(entries@);
            assert(entries_of(entries@) =~= material_json(*self)->Object_0);
        }
        object_of(entries)
    }
}

impl PolicyPin {
    /// The serialized pin; the source bytes themselves are never part of it.
    pub fn to_json(&self) -> (r: JsonValue)
        ensures
            r@ == policy_json(*self),
    {
        let mut entries = vec![
            field("namespace", text_value(self.namespace.as_str())),
            field("name", text_value(self.name.as_str())),
            field("revision", text_value(self.revision.as_str())),
            field("configuration", self.configuration.clone().into_value()),
            field("configurationDigest", text_value(self.configuration_digest.as_str())),
        ];
        let ghost base = entries@;
        match &self.material {
            Some(m) => entries.push(field("material", m.to_json())),
            None => {},
        }
        let ghost middle = entries@;
        match &self.source_digest {
            Some(d) => entries.push(field("sourceDigest", text_value(d.as_str()))),
            None => {},
        }
        proof {
            lemma_entries_of(base);
            lemma_entries_of(middle);
            lemma_entries_of(entries@);
            let b = seq![
                ("namespace"@, text_view(self.namespace@)),
                ("name"@, text_view(self.name@)),
                ("revision"@, text_view(self.revision@)),
                ("configuration"@, self.configuration@),
                ("configurationDigest"@, text_view(self.configuration_digest@)),
            ];
            assert(entries_of(base) =~= b);
            let m = if self.material is Some {
                b.push(("material"@, material_json(self.material->Some_0)))
            } else {
                b
            };
            assert(entries_of(middle) =~= m);
            assert(entries_of(entries@) =~= policy_json(*self)->Object_0);
        }
        object_of(entries)
    }
}

impl ModelPin {
    pub fn to_json(&self) -> (r: JsonValue)
        ensures
            r@ == model_pin_json(*self),
    {
        let entries = vec![
            field("provider", text_value(self.provider.as_str())),
            field("modelId", text_value(self.model_id.as_str())),
        ];
        proof {
            lemma_entries_of(entries@);
            assert(entries_of(entries@) =~= model_pin_json(*self)->Object_0);
        }
        object_of(entries)
    }
}

/// The JSON number of a seed.
pub fn seed_value(seed: Seed) -> (r: JsonValue)
    ensures
        r@ == seed_json(seed),
{
    if seed.0 >= 0 {
        JsonValue::Number(JsonNumber::Unsigned(seed.0 as u64))
    } else {
        JsonValue::Number(JsonNumber::Negative(seed.0))
    }
}

/// The JSON array of seeds.
pub fn seeds_value(seeds: &[Seed]) -> (r: JsonValue)
    ensures
        r@ == seeds_json(seeds@),
{
    let mut items: Vec<JsonValue> = Vec::new();
    let mut i: usize = 0;
    while i < seeds.len()
        invariant
            i <= seeds.len(),
            items@.len() == i,
            forall|k: int| 0 <= k < i ==> #[trigger] items@[k]@ == seed_json(seeds@[k]),
        decreases seeds.len() - i,
    {
        items.push(seed_value(seeds[i]));
        i = i + 1;
    }
    let r = array_of(items);
    assert(items@.map_values(|v: JsonValue| v@) =~= seeds@.map_values(|s: Seed| seed_json(s)));
    r
}

impl RolloutPlan {
    pub fn to_json(&self) -> (r: JsonValue)
        ensures
            r@ == rollout_plan_json(*self),
    {
        let entries = vec![
            field("seeds", seeds_value(self.seeds.as_slice())),
            field("maximumRollouts", unsigned_value(self.maximum_rollouts.0.get() as u64)),
        ];
        proof {
            lemma_entries_of(entries@);
            assert(entries_of(entries@) =~= rollout_plan_json(*self)->Object_0);
        }
        object_of(entries)
    }
}

impl ResourceLimits {
    pub fn to_json(&self) -> (r: JsonValue)
        ensures
            r@ == limits_json(*self),
    {
        let entries = vec![
            field(
                "maximumModelCallsPerRollout",
                unsigned_value(self.maximum_model_calls_per_rollout.0.get() as u64),
            ),
            field(
                "maximumStepsPerRollout",
                unsigned_value(self.maximum_steps_per_rollout.0.get() as u64),
            ),
            field("hardTotalCostMicros", unsigned_value(self.hard_total_cost_micros.as_micros())),
        ];
        proof {
            lemma_entries_of(entries@);
            assert(entries_of(entries@) =~= limits_json(*self)->Object_0);
        }
        object_of(entries)
    }
}

impl CredentialCapabilityScope {
    pub fn to_json(&self) -> (r: JsonValue)
        ensures
            r@ == scope_json(*self),
    {
        let entries = vec![
            field("operations", strings_json(self.operations.as_slice())),
            field("lifetimeSeconds", unsigned_value(self.lifetime_seconds as u64)),
        ];
        proof {
            lemma_entries_of(entries@);
            assert(entries_of(entries@) =~= scope_json(*self)->Object_0);
        }
        object_of(entries)
    }
}

impl CredentialRoute {
    pub fn to_json(&self) -> (r: JsonValue)
        ensures
            r@ == route_json(*self),
    {
        match self {
            CredentialRoute::WorkshopSecretsProxy { provider, capability_scope } => {
                let entries = vec![
                    field("kind", text_value("workshop_secrets_proxy")),
                    field("provider", text_value(provider.as_str())),
                    field("capability_scope", capability_scope.to_json()),
                ];
                proof {
                    lemma_entries_of(entries@);
                    assert(entries_of(entries@) =~= route_json(*self)->Object_0);
                }
                object_of(entries)
            },
        }
    }
}

impl OutputContract {
    pub fn to_json(&self) -> (r: JsonValue)
        ensures
            r@ == output_contract_json(*self),
    {
        let entries = vec![
            field("requiresReward", JsonValue::Bool(self.requires_reward)),
            field("requiresTrace", JsonValue::Bool(self.requires_trace)),
            field("requiresUsage", JsonValue::Bool(self.requires_usage)),
            field("requiredOperations", strings_json(self.required_operations.as_slice())),
        ];
        proof {
            lemma_entries_of(entries@);
            assert(entries_of(entries@) =~= output_contract_json(*self)->Object_0);
        }
        object_of(entries)
    }
}


/// A complete inline evaluation specification; every field is semantically
/// necessary, so none is optional.
#[derive(Debug)]
pub struct InlineRecipe {
    pub container: ContainerPin,
    pub protocol: LiveEvalProtocol,
    pub evaluator: EvaluatorSpec,
    pub policy: PolicyPin,
    pub model: ModelPin,
    pub rollout_plan: RolloutPlan,
    pub resource_limits: ResourceLimits,
    pub credential_route: CredentialRoute,
    pub output_contract: OutputContract,
}

pub open spec fn recipe_json(r: InlineRecipe) -> JsonView {
    JsonView::Object(
        seq![
            ("container"@, container_pin_json(r.container)),
            ("protocol"@, protocol_json(r.protocol)),
            ("evaluator"@, evaluator_json(r.evaluator)),
            ("policy"@, policy_json(r.policy)),
            ("model"@, model_pin_json(r.model)),
            ("rolloutPlan"@, rollout_plan_json(r.rollout_plan)),
            ("resourceLimits"@, limits_json(r.resource_limits)),
            ("credentialRoute"@, route_json(r.credential_route)),
            ("outputContract"@, output_contract_json(r.output_contract)),
        ],
    )
}

/// Two recipes that are the same specification: equal serialized forms, the
/// same source bytes, and the same facts that later stages compare.
pub open spec fn same_recipe(a: InlineRecipe, b: InlineRecipe) -> bool {
    &&& recipe_json(a) == recipe_json(b)
    &&& a.container.container_id@ == b.container.container_id@
    &&& a.container.source_revision@ == b.container.source_revision@
    &&& a.container.declaration_digest@ == b.container.declaration_digest@
    &&& same_policy(a.policy, b.policy)
    &&& a.model.provider@ == b.model.provider@
    &&& a.model.model_id@ == b.model.model_id@
    &&& evaluator_id_of(a.evaluator) == evaluator_id_of(b.evaluator)
    &&& a.rollout_plan.seeds@ == b.rollout_plan.seeds@
    &&& a.rollout_plan.maximum_rollouts == b.rollout_plan.maximum_rollouts
    &&& a.resource_limits == b.resource_limits
    &&& route_provider(a.credential_route) == route_provider(b.credential_route)
    &&& a.output_contract.requires_reward == b.output_contract.requires_reward
    &&& texts_of(a.output_contract.required_operations@) == texts_of(
        b.output_contract.required_operations@,
    )
}

impl Clone for InlineRecipe {
    fn clone(&self) -> (r: Self)
        ensures
            same_recipe(r, *self),
    {
        let r = InlineRecipe {
            container: self.container.clone(),
            protocol: self.protocol,
            evaluator: self.evaluator.clone(),
            policy: self.policy.clone(),
            model: self.model.clone(),
            rollout_plan: self.rollout_plan.clone(),
            resource_limits: self.resource_limits,
            credential_route: self.credential_route.clone(),
            output_contract: self.output_contract.clone(),
        };
        assert(evaluator_id_of(r.evaluator) == evaluator_id_of(self.evaluator)) by {
            assert(evaluator_json(r.evaluator)->Object_0[1] == evaluator_json(self.evaluator)->Object_0[1]);
        }
        r
    }
}

impl InlineRecipe {
    pub fn to_json(&self) -> (r: JsonValue)
        ensures
            r@ == recipe_json(*self),
    {
        let entries = vec![
            field("container", self.container.to_json()),
            field("protocol", text_value("synth_container_live_eval_v1")),
            field("evaluator", self.evaluator.to_json()),
            field("policy", self.policy.to_json()),
            field("model", self.model.to_json()),
            field("rolloutPlan", self.rollout_plan.to_json()),
            field("resourceLimits", self.resource_limits.to_json()),
            field("credentialRoute", self.credential_route.to_json()),
            field("outputContract", self.output_contract.to_json()),
        ];
        proof {
            lemma_entries_of(entries@);
            assert(entries_of(entries@) =~= recipe_json(*self)->Object_0);
        }
        object_of(entries)
    }
}

/// Where a specification came from: inline is the default path; catalog is
/// entered only on an explicit request.
#[derive(Debug)]
pub enum RecipeSource {
    Inline(InlineRecipe),
    Catalog(CatalogRecipeRef),
}

impl RecipeSource {
    pub fn kind(&self) -> (r: RecipeSourceKind)
        ensures
            r == (match *self {
                RecipeSource::Inline(_) => RecipeSourceKind::Inline,
                RecipeSource::Catalog(_) => RecipeSourceKind::Catalog,
            }),
    {
        match self {
            RecipeSource::Inline(_) => RecipeSourceKind::Inline,
            RecipeSource::Catalog(_) => RecipeSourceKind::Catalog,
        }
    }
}

/// The specification an approval is taken over and an executor runs. Both
/// sources converge on it, so there is one thing to validate, hash and approve.
#[derive(Debug)]
pub struct ExecutionSpec {
    pub source_kind: RecipeSourceKind,
    pub catalog_recipe_id: Option<RecipeId>,
    pub recipe: InlineRecipe,
}

pub open spec fn execution_spec_json(e: ExecutionSpec) -> JsonView {
    JsonView::Object(
        match e.catalog_recipe_id {
            Some(id) => seq![
                ("sourceKind"@, text_view(source_kind_text(e.source_kind))),
                ("catalogRecipeId"@, text_view(id@)),
                ("recipe"@, recipe_json(e.recipe)),
            ],
            None => seq![
                ("sourceKind"@, text_view(source_kind_text(e.source_kind))),
                ("recipe"@, recipe_json(e.recipe)),
            ],
        },
    )
}

/// The digest of a specification: over its canonical form.
pub open spec fn execution_spec_digest(e: ExecutionSpec) -> Seq<char> {
    json_digest(crate::json::canonical(execution_spec_json(e)))
}

impl ExecutionSpec {
    pub fn to_json(&self) -> (r: JsonValue)
        ensures
            r@ == execution_spec_json(*self),
    {
        let mut entries = vec![field("sourceKind", text_value(self.source_kind.as_str()))];
        match &self.catalog_recipe_id {
            Some(id) => entries.push(field("catalogRecipeId", text_value(id.as_str()))),
            None => {},
        }
        entries.push(field("recipe", self.recipe.to_json()));
        proof {
            lemma_entries_of(entries@);
            assert(entries_of(entries@) =~= execution_spec_json(*self)->Object_0);
        }
        object_of(entries)
    }

    /// The canonical form: what is hashed, displayed, approved and persisted.
    pub fn canonical(&self) -> (r: CanonicalJson)
        ensures
            r@ == crate::json::canonical(execution_spec_json(*self)),
    {
        CanonicalJson::new(self.to_json())
    }

    pub fn digest(&self) -> (r: Digest)
        ensures
            r@ == execution_spec_digest(*self),
    {
        self.canonical().digest()
    }
}


/// `a * b`, or `u64::MAX` where that overflows.
pub open spec fn saturating_product(a: u64, b: u64) -> u64 {
    if a * b > u64::MAX {
        u64::MAX
    } else {
        (a * b) as u64
    }
}

fn saturating_mul(a: u64, b: u64) -> (r: u64)
    ensures
        r == saturating_product(a, b),
{
    match a.checked_mul(b) {
        Some(p) => p,
        None => u64::MAX,
    }
}

/// A non-negative integer member of a configuration object.
pub open spec fn config_count(configuration: JsonView, key: Seq<char>) -> Option<u64> {
    match member(configuration, key) {
        Some(JsonView::Number(NumberView::Unsigned(n))) => Some(n),
        _ => None,
    }
}

/// A text member of a configuration object.
pub open spec fn config_text(configuration: JsonView, key: Seq<char>) -> Option<Seq<char>> {
    match member(configuration, key) {
        Some(JsonView::Text(t)) => Some(t),
        _ => None,
    }
}

fn count_member(configuration: &JsonValue, key: &str) -> (r: Option<u64>)
    ensures
        r == config_count(configuration@, key@),
{
    match configuration.get(key) {
        Some(v) => v.as_u64(),
        None => None,
    }
}

/// The bounded provider-use policy a run lease carries. Cost is integer micros.
#[derive(Debug)]
pub struct SecretsUsePolicy {
    pub operations: Vec<String>,
    pub models: Vec<String>,
    pub reasoning_efforts: Vec<String>,
    pub max_calls: u32,
    pub max_input_tokens: u64,
    pub max_output_tokens: u64,
    pub max_cost_usd_micros: u64,
    pub lifetime_seconds: u64,
}

/// The policy from explicit bounds: an absent token bound means unbounded
/// tokens, never a built-in default.
pub fn provider_use_policy_from_bounds(
    operations: Vec<String>,
    models: Vec<String>,
    reasoning_efforts: Vec<String>,
    max_calls: u32,
    max_cost_usd_micros: u64,
    lifetime_seconds: u64,
    max_input_tokens: Option<u64>,
    max_output_tokens: Option<u64>,
) -> (r: SecretsUsePolicy)
    ensures
        r.operations == operations,
        r.models == models,
        r.reasoning_efforts == reasoning_efforts,
        r.max_calls == max_calls,
        r.max_cost_usd_micros == max_cost_usd_micros,
        r.lifetime_seconds == lifetime_seconds,
        r.max_input_tokens == match max_input_tokens {
            Some(n) => n,
            None => u64::MAX,
        },
        r.max_output_tokens == match max_output_tokens {
            Some(n) => n,
            None => u64::MAX,
        },
{
    SecretsUsePolicy {
        operations,
        models,
        reasoning_efforts,
        max_calls,
        max_input_tokens: match max_input_tokens {
            Some(n) => n,
            None => u64::MAX,
        },
        max_output_tokens: match max_output_tokens {
            Some(n) => n,
            None => u64::MAX,
        },
        max_cost_usd_micros,
        lifetime_seconds,
    }
}

/// Calls across the whole run: per-rollout calls times rollouts, capped at `u32::MAX`.
pub open spec fn run_call_limit(e: ExecutionSpec) -> u32 {
    let p = saturating_product(
        e.recipe.resource_limits.maximum_model_calls_per_rollout.0@ as u64,
        e.recipe.rollout_plan.maximum_rollouts.0@ as u64,
    );
    if p > u32::MAX {
        u32::MAX
    } else {
        p as u32
    }
}

/// Output tokens a single call may use: the answer budget plus the thinking budget.
pub open spec fn output_per_call(configuration: JsonView) -> u64 {
    let answer = match config_count(configuration, "answer_max_tokens"@) {
        Some(n) => n,
        None => 0,
    };
    let thinking = match config_count(configuration, "thinking_budget"@) {
        Some(n) => n,
        None => 0,
    };
    if answer + thinking > u64::MAX {
        u64::MAX
    } else {
        (answer + thinking) as u64
    }
}

impl ExecutionSpec {
    /// The only run-lease policy derived from an admitted specification: calls
    /// and cost from its resource envelope, operations and lifetime from its
    /// credential scope, the model from its pin, token bounds from the policy
    /// configuration.
    pub fn provider_use_policy(&self) -> (r: SecretsUsePolicy)
        ensures
            texts_of(r.operations@) == texts_of(route_scope(self.recipe.credential_route).operations@),
            texts_of(r.models@) == seq![self.recipe.model.model_id@],
            texts_of(r.reasoning_efforts@) == match config_text(
                self.recipe.policy.configuration@,
                "reasoning_effort"@,
            ) {
                Some(t) => seq![t],
                None => Seq::<Seq<char>>::empty(),
            },
            r.max_calls == run_call_limit(*self),
            r.max_cost_usd_micros == self.recipe.resource_limits.hard_total_cost_micros.0@,
            r.lifetime_seconds == route_scope(self.recipe.credential_route).lifetime_seconds as u64,
            r.max_input_tokens == match config_count(
                self.recipe.policy.configuration@,
                "context_token_budget"@,
            ) {
                Some(n) => saturating_product(n, run_call_limit(*self) as u64),
                None => u64::MAX,
            },
            r.max_output_tokens == if output_per_call(self.recipe.policy.configuration@) > 0 {
                saturating_product(
                    output_per_call(self.recipe.policy.configuration@),
                    run_call_limit(*self) as u64,
                )
            } else {
                u64::MAX
            },
    {
        let recipe = &self.recipe;
        let product = saturating_mul(
            recipe.resource_limits.maximum_model_calls_per_rollout.0.get() as u64,
            recipe.rollout_plan.maximum_rollouts.0.get() as u64,
        );
        let total_calls: u32 = if product > 4294967295u64 {
            4294967295u32
        } else {
            product as u32
        };
        let configuration = recipe.policy.configuration.as_value();
        let mut reasoning_efforts: Vec<String> = Vec::new();
        match configuration.get("reasoning_effort") {
            Some(v) => match v.as_text() {
                Some(t) => reasoning_efforts.push(t.clone()),
                None => {},
            },
            None => {},
        }
        let input_per_call = count_member(configuration, "context_token_budget");
        let answer = match count_member(configuration, "answer_max_tokens") {
            Some(n) => n,
            None => 0,
        };
        let thinking = match count_member(configuration, "thinking_budget") {
            Some(n) => n,
            None => 0,
        };
        let output = answer.saturating_add(thinking);
        let max_input = match input_per_call {
            Some(n) => Some(saturating_mul(n, total_calls as u64)),
            None => None,
        };
        let max_output = if output > 0 {
            Some(saturating_mul(output, total_calls as u64))
        } else {
            None
        };
        let mut models: Vec<String> = Vec::new();
        models.push(recipe.model.model_id.to_text());
        let scope = recipe.credential_route.capability_scope();
        let operations = copy_strings(scope.operations.as_slice());
        proof {
            assert(texts_of(models@) =~= seq![self.recipe.model.model_id@]);
            match config_text(self.recipe.policy.configuration@, "reasoning_effort"@) {
                Some(t) => assert(texts_of(reasoning_efforts@) =~= seq![t]),
                None => assert(texts_of(reasoning_efforts@) =~= Seq::<Seq<char>>::empty()),
            }
        }
        provider_use_policy_from_bounds(
            operations,
            models,
            reasoning_efforts,
            total_calls,
            recipe.resource_limits.hard_total_cost_micros.as_micros(),
            scope.lifetime_seconds as u64,
            max_input,
            max_output,
        )
    }
}

/// An approval receipt, bound to a specification digest and to the exact
/// bounds shown.
#[derive(Debug)]
pub struct ApprovalBinding {
    pub receipt_id: ApprovalReceiptId,
    /// The digest that was displayed and approved.
    pub execution_spec_digest: Digest,
    /// The container declaration digest at approval time.
    pub container_declaration_digest: DeclarationDigest,
    /// The policy revision at approval time.
    pub policy_revision: PolicyRevision,
    /// The policy configuration digest at approval time.
    pub policy_configuration_digest: Digest,
    /// The ceiling the operator consented to.
    pub approved_cost_micros: CostMicros,
    /// The rollout count the operator consented to.
    pub approved_rollouts: RolloutCount,
}

impl Clone for ApprovalBinding {
    fn clone(&self) -> (r: Self)
        ensures
            r.receipt_id@ == self.receipt_id@,
            r.execution_spec_digest@ == self.execution_spec_digest@,
            r.container_declaration_digest@ == self.container_declaration_digest@,
            r.policy_revision@ == self.policy_revision@,
            r.policy_configuration_digest@ == self.policy_configuration_digest@,
            r.approved_cost_micros == self.approved_cost_micros,
            r.approved_rollouts == self.approved_rollouts,
    {
        ApprovalBinding {
            receipt_id: self.receipt_id.clone(),
            execution_spec_digest: self.execution_spec_digest.clone(),
            container_declaration_digest: self.container_declaration_digest.clone(),
            policy_revision: self.policy_revision.clone(),
            policy_configuration_digest: self.policy_configuration_digest.clone(),
            approved_cost_micros: self.approved_cost_micros,
            approved_rollouts: self.approved_rollouts,
        }
    }
}

/// Whether two optional source texts are the same.
fn same_optional_text(a: &Option<String>, b: &Option<String>) -> (r: bool)
    ensures
        r == (optional_text_of(*a) == optional_text_of(*b)),
{
    match (a, b) {
        (Some(x), Some(y)) => same_text(x.as_str(), y.as_str()),
        (None, None) => true,
        _ => false,
    }
}

impl PartialEq for InlineRecipe {
    fn eq(&self, other: &Self) -> (r: bool) {
        self.to_json() == other.to_json() && same_optional_text(
            &self.policy.source_code,
            &other.policy.source_code,
        )
    }
}

impl PartialEqSpecImpl for InlineRecipe {
    open spec fn obeys_eq_spec() -> bool {
        true
    }

    open spec fn eq_spec(&self, other: &Self) -> bool {
        recipe_json(*self) == recipe_json(*other) && optional_text_of(self.policy.source_code)
            == optional_text_of(other.policy.source_code)
    }
}

impl PartialEq for ExecutionSpec {
    fn eq(&self, other: &Self) -> (r: bool) {
        self.to_json() == other.to_json() && same_optional_text(
            &self.recipe.policy.source_code,
            &other.recipe.policy.source_code,
        )
    }
}

impl PartialEqSpecImpl for ExecutionSpec {
    open spec fn obeys_eq_spec() -> bool {
        true
    }

    open spec fn eq_spec(&self, other: &Self) -> bool {
        execution_spec_json(*self) == execution_spec_json(*other) && optional_text_of(
            self.recipe.policy.source_code,
        ) == optional_text_of(other.recipe.policy.source_code)
    }
}

/// Two specifications that are the same: the same source, catalog id and recipe.
pub open spec fn same_spec(a: ExecutionSpec, b: ExecutionSpec) -> bool {
    &&& a.source_kind == b.source_kind
    &&& match (a.catalog_recipe_id, b.catalog_recipe_id) {
        (Some(x), Some(y)) => x@ == y@,
        (None, None) => true,
        _ => false,
    }
    &&& same_recipe(a.recipe, b.recipe)
    &&& execution_spec_json(a) == execution_spec_json(b)
}

impl Clone for ExecutionSpec {
    fn clone(&self) -> (r: Self)
        ensures
            same_spec(r, *self),
    {
        let catalog_recipe_id = match &self.catalog_recipe_id {
            Some(id) => Some(id.clone()),
            None => None,
        };
        ExecutionSpec { source_kind: self.source_kind, catalog_recipe_id, recipe: self.recipe.clone() }
    }
}

} // verus!
