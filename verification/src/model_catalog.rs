//! The model catalog that the desktop picker and session identity read.
//!
//! The renderer never parses configuration or guesses a model's capabilities:
//! it receives this projection, built from the configured models, the last
//! public metadata snapshot, and whether a provider credential is configured.

use crate::text::{ascii_lower_seq, ascii_lowercase, chars_of, has_prefix, same_text, starts_with, string_of, texts_of};
use crate::admission::spec::copy_strings;
use vstd::prelude::*;

verus! {

/// Where a catalog entry was declared.
#[derive(Clone, Copy, Debug, PartialEq, Eq, Structural)]
pub enum ModelCatalogSource {
    Builtin,
    UserConfig,
}

/// Whether new turns may be sent to a catalog entry.
#[derive(Clone, Copy, Debug, PartialEq, Eq, Structural)]
pub enum ModelCatalogAvailability {
    Ready,
    CredentialRequired,
    Unverified,
    Unavailable,
    Expired,
}

/// How a model's reasoning can be steered.
#[derive(Clone, Copy, Debug, PartialEq, Eq, Structural)]
pub enum ModelCatalogReasoningControl {
    NoControl,
    Binary,
    Effort,
}


/// What a model accepts and how it can be steered. Token limits are whole
/// token counts.
pub struct ModelCatalogCapabilities {
    pub input_modalities: Vec<String>,
    pub output_modalities: Vec<String>,
    pub tools: bool,
    pub reasoning_control: ModelCatalogReasoningControl,
    pub default_reasoning: Option<String>,
    pub max_context_tokens: Option<u64>,
    pub max_completion_tokens: Option<u64>,
}

/// The capabilities as plain values.
pub struct CapabilitiesView {
    pub input_modalities: Seq<Seq<char>>,
    pub output_modalities: Seq<Seq<char>>,
    pub tools: bool,
    pub reasoning_control: ModelCatalogReasoningControl,
    pub default_reasoning: Option<Seq<char>>,
    pub max_context_tokens: Option<u64>,
    pub max_completion_tokens: Option<u64>,
}

pub open spec fn optional_text(o: Option<String>) -> Option<Seq<char>> {
    match o {
        Some(s) => Some(s@),
        None => None,
    }
}

impl View for ModelCatalogCapabilities {
    type V = CapabilitiesView;

    open spec fn view(&self) -> CapabilitiesView {
        CapabilitiesView {
            input_modalities: texts_of(self.input_modalities@),
            output_modalities: texts_of(self.output_modalities@),
            tools: self.tools,
            reasoning_control: self.reasoning_control,
            default_reasoning: optional_text(self.default_reasoning),
            max_context_tokens: self.max_context_tokens,
            max_completion_tokens: self.max_completion_tokens,
        }
    }
}

/// The capabilities assumed of a model nothing is known about: text in, text
/// out, no tools, no reasoning control.
pub open spec fn default_capabilities() -> CapabilitiesView {
    CapabilitiesView {
        input_modalities: seq!["text"@],
        output_modalities: seq!["text"@],
        tools: false,
        reasoning_control: ModelCatalogReasoningControl::NoControl,
        default_reasoning: None,
        max_context_tokens: None,
        max_completion_tokens: None,
    }
}

fn text_only() -> (r: Vec<String>)
    ensures
        texts_of(r@) == seq!["text"@],
{
    let mut r: Vec<String> = Vec::new();
    r.push(String::from_str("text"));
    assert(texts_of(r@) =~= seq!["text"@]);
    r
}

fn optional_copy(o: &Option<String>) -> (r: Option<String>)
    ensures
        optional_text(r) == optional_text(*o),
{
    match o {
        Some(s) => Some(s.clone()),
        None => None,
    }
}

impl Default for ModelCatalogCapabilities {
    fn default() -> (r: Self)
        ensures
            r@ == default_capabilities(),
    {
        ModelCatalogCapabilities {
            input_modalities: text_only(),
            output_modalities: text_only(),
            tools: false,
            reasoning_control: ModelCatalogReasoningControl::NoControl,
            default_reasoning: None,
            max_context_tokens: None,
            max_completion_tokens: None,
        }
    }
}

impl Clone for ModelCatalogCapabilities {
    fn clone(&self) -> (r: Self)
        ensures
            r@ == self@,
    {
        ModelCatalogCapabilities {
            input_modalities: copy_strings(self.input_modalities.as_slice()),
            output_modalities: copy_strings(self.output_modalities.as_slice()),
            tools: self.tools,
            reasoning_control: self.reasoning_control,
            default_reasoning: optional_copy(&self.default_reasoning),
            max_context_tokens: self.max_context_tokens,
            max_completion_tokens: self.max_completion_tokens,
        }
    }
}

/// How a user's configuration asks reasoning to be steered.
#[derive(Clone, Copy, Debug, PartialEq, Eq, Structural)]
pub enum ConfiguredReasoningControl {
    NoControl,
    Binary,
    Effort,
}

/// The picker settings a user may give a configured model.
pub struct ConfiguredModelUi {
    pub reasoning_control: Option<ConfiguredReasoningControl>,
    pub default_reasoning: Option<String>,
}

/// The reasoning control left once a configured control narrows an observed
/// one: a configuration can take control away, never add it.
pub open spec fn narrowed_control(
    configured: ConfiguredReasoningControl,
    observed: ModelCatalogReasoningControl,
) -> ModelCatalogReasoningControl {
    match configured {
        ConfiguredReasoningControl::NoControl => ModelCatalogReasoningControl::NoControl,
        ConfiguredReasoningControl::Binary => if observed == ModelCatalogReasoningControl::NoControl {
            ModelCatalogReasoningControl::NoControl
        } else {
            ModelCatalogReasoningControl::Binary
        },
        ConfiguredReasoningControl::Effort => if observed == ModelCatalogReasoningControl::Effort {
            ModelCatalogReasoningControl::Effort
        } else {
            ModelCatalogReasoningControl::NoControl
        },
    }
}

/// The picker settings as plain values.
pub struct UiView {
    pub reasoning_control: Option<ConfiguredReasoningControl>,
    pub default_reasoning: Option<Seq<char>>,
}

impl View for ConfiguredModelUi {
    type V = UiView;

    open spec fn view(&self) -> UiView {
        UiView {
            reasoning_control: self.reasoning_control,
            default_reasoning: optional_text(self.default_reasoning),
        }
    }
}

pub open spec fn optional_ui(o: Option<ConfiguredModelUi>) -> Option<UiView> {
    match o {
        Some(u) => Some(u@),
        None => None,
    }
}

impl Clone for ConfiguredModelUi {
    fn clone(&self) -> (r: Self)
        ensures
            r@ == self@,
    {
        ConfiguredModelUi {
            reasoning_control: self.reasoning_control,
            default_reasoning: optional_copy(&self.default_reasoning),
        }
    }
}

fn optional_ui_copy(o: &Option<ConfiguredModelUi>) -> (r: Option<ConfiguredModelUi>)
    ensures
        optional_ui(r) == optional_ui(*o),
{
    match o {
        Some(u) => Some(u.clone()),
        None => None,
    }
}

/// How much reasoning control a setting allows, from none to effort.
pub open spec fn control_rank(c: ModelCatalogReasoningControl) -> int {
    match c {
        ModelCatalogReasoningControl::NoControl => 0,
        ModelCatalogReasoningControl::Binary => 1,
        ModelCatalogReasoningControl::Effort => 2,
    }
}

/// A user's configuration can take reasoning control away from a model but
/// never grant more than the model was observed to have.
pub proof fn law_configuration_never_adds_reasoning_control(caps: CapabilitiesView, ui: Option<UiView>)
    ensures
        control_rank(narrowed_capabilities(caps, ui).reasoning_control) <= control_rank(caps.reasoning_control),
        ui is Some && narrowed_capabilities(caps, ui).reasoning_control == ModelCatalogReasoningControl::NoControl
            ==> narrowed_capabilities(caps, ui).default_reasoning is None,
{
}

/// The capabilities after a model's picker settings are applied.
pub open spec fn narrowed_capabilities(caps: CapabilitiesView, ui: Option<UiView>) -> CapabilitiesView {
    match ui {
        None => caps,
        Some(ui) => {
            let control = match ui.reasoning_control {
                Some(c) => narrowed_control(c, caps.reasoning_control),
                None => caps.reasoning_control,
            };
            let default_reasoning = if control == ModelCatalogReasoningControl::NoControl {
                None
            } else {
                match ui.default_reasoning {
                    Some(d) => Some(d),
                    None => caps.default_reasoning,
                }
            };
            CapabilitiesView { reasoning_control: control, default_reasoning, ..caps }
        },
    }
}

/// Applies a model's picker settings to its capabilities.
pub fn narrow_reasoning_capability(
    capabilities: &mut ModelCatalogCapabilities,
    ui: Option<&ConfiguredModelUi>,
)
    ensures
        final(capabilities)@ == narrowed_capabilities(
            old(capabilities)@,
            match ui {
                Some(u) => Some(u@),
                None => None,
            },
        ),
{
    let ui = match ui {
        Some(ui) => ui,
        None => return ,
    };
    if let Some(control) = ui.reasoning_control {
        capabilities.reasoning_control = match control {
            ConfiguredReasoningControl::NoControl => ModelCatalogReasoningControl::NoControl,
            ConfiguredReasoningControl::Binary => match capabilities.reasoning_control {
                ModelCatalogReasoningControl::NoControl => ModelCatalogReasoningControl::NoControl,
                _ => ModelCatalogReasoningControl::Binary,
            },
            ConfiguredReasoningControl::Effort => match capabilities.reasoning_control {
                ModelCatalogReasoningControl::Effort => ModelCatalogReasoningControl::Effort,
                _ => ModelCatalogReasoningControl::NoControl,
            },
        };
    }
    capabilities.default_reasoning = match capabilities.reasoning_control {
        ModelCatalogReasoningControl::NoControl => None,
        _ => match &ui.default_reasoning {
            Some(d) => Some(d.clone()),
            None => optional_copy(&capabilities.default_reasoning),
        },
    };
}

/// An OpenRouter routing policy a user may attach to a configured model.
pub struct RoutingPolicy {
    pub allow_fallbacks: Option<bool>,
    pub require_parameters: Option<bool>,
    pub data_collection: Option<String>,
}

/// One `[[models.openrouter]]` entry of the user's configuration.
pub struct ConfiguredModel {
    pub id: String,
    pub model: String,
    pub display_name: Option<String>,
    pub enabled: bool,
    pub routing: Option<RoutingPolicy>,
    pub ui: Option<ConfiguredModelUi>,
}

/// The configured models and what reading the configuration reported.
pub struct ConfiguredModels {
    pub models: Vec<ConfiguredModel>,
    pub diagnostics: Vec<String>,
}

/// A model the picker may offer, before metadata is applied.
pub struct Candidate {
    pub target_id: String,
    pub model_id: String,
    pub display_name: Option<String>,
    pub source: ModelCatalogSource,
    pub enabled: bool,
    pub routing_configured: bool,
    pub ui: Option<ConfiguredModelUi>,
    pub builtin_capabilities: Option<ModelCatalogCapabilities>,
}

pub open spec fn optional_caps(o: Option<ModelCatalogCapabilities>) -> Option<CapabilitiesView> {
    match o {
        Some(c) => Some(c@),
        None => None,
    }
}

/// A candidate as plain values.
pub struct CandidateView {
    pub target_id: Seq<char>,
    pub model_id: Seq<char>,
    pub display_name: Option<Seq<char>>,
    pub source: ModelCatalogSource,
    pub enabled: bool,
    pub routing_configured: bool,
    pub ui: Option<UiView>,
    pub builtin_capabilities: Option<CapabilitiesView>,
}

impl View for Candidate {
    type V = CandidateView;

    open spec fn view(&self) -> CandidateView {
        CandidateView {
            target_id: self.target_id@,
            model_id: self.model_id@,
            display_name: optional_text(self.display_name),
            source: self.source,
            enabled: self.enabled,
            routing_configured: self.routing_configured,
            ui: optional_ui(self.ui),
            builtin_capabilities: optional_caps(self.builtin_capabilities),
        }
    }
}

pub open spec fn candidate_views(c: Seq<Candidate>) -> Seq<CandidateView> {
    Seq::new(c.len(), |i: int| c[i]@)
}

/// A builtin candidate: enabled, unrouted, with known capabilities.
pub open spec fn builtin_view(
    target_id: Seq<char>,
    model_id: Seq<char>,
    display_name: Seq<char>,
    caps: CapabilitiesView,
) -> CandidateView {
    CandidateView {
        target_id,
        model_id,
        display_name: Some(display_name),
        source: ModelCatalogSource::Builtin,
        enabled: true,
        routing_configured: false,
        ui: None,
        builtin_capabilities: Some(caps),
    }
}

fn builtin(
    target_id: &str,
    model_id: &str,
    display_name: &str,
    capabilities: ModelCatalogCapabilities,
) -> (c: Candidate)
    ensures
        c@ == builtin_view(target_id@, model_id@, display_name@, capabilities@),
{
    Candidate {
        target_id: String::from_str(target_id),
        model_id: String::from_str(model_id),
        display_name: Some(String::from_str(display_name)),
        source: ModelCatalogSource::Builtin,
        enabled: true,
        routing_configured: false,
        ui: None,
        builtin_capabilities: Some(capabilities),
    }
}

fn modalities(image: bool) -> (r: Vec<String>)
    ensures
        texts_of(r@) == if image { seq!["text"@, "image"@] } else { seq!["text"@] },
{
    let mut r: Vec<String> = Vec::new();
    r.push(String::from_str("text"));
    if image {
        r.push(String::from_str("image"));
        assert(texts_of(r@) =~= seq!["text"@, "image"@]);
    } else {
        assert(texts_of(r@) =~= seq!["text"@]);
    }
    r
}

/// Capabilities of a builtin model: text out, tools, and a default reasoning.
pub open spec fn builtin_capabilities(
    image: bool,
    control: ModelCatalogReasoningControl,
    default_reasoning: Seq<char>,
    max_context_tokens: u64,
) -> CapabilitiesView {
    CapabilitiesView {
        input_modalities: if image { seq!["text"@, "image"@] } else { seq!["text"@] },
        output_modalities: seq!["text"@],
        tools: true,
        reasoning_control: control,
        default_reasoning: Some(default_reasoning),
        max_context_tokens: Some(max_context_tokens),
        max_completion_tokens: None,
    }
}

fn builtin_caps(
    image: bool,
    control: ModelCatalogReasoningControl,
    default_reasoning: &str,
    max_context_tokens: u64,
) -> (r: ModelCatalogCapabilities)
    ensures
        r@ == builtin_capabilities(image, control, default_reasoning@, max_context_tokens),
{
    ModelCatalogCapabilities {
        input_modalities: modalities(image),
        output_modalities: modalities(false),
        tools: true,
        reasoning_control: control,
        default_reasoning: Some(String::from_str(default_reasoning)),
        max_context_tokens: Some(max_context_tokens),
        max_completion_tokens: None,
    }
}

/// The models the picker offers without any configuration, in order.
pub open spec fn builtin_catalog() -> Seq<CandidateView> {
    seq![
        builtin_view("openrouter-luna"@, "openai/gpt-5.6-luna"@, "GPT 5.6 Luna"@,
            builtin_capabilities(true, ModelCatalogReasoningControl::Effort, "xhigh"@, 272_000)),
        builtin_view("openrouter-laguna-s"@, "poolside/laguna-s-2.1"@, "Laguna S 2.1"@,
            builtin_capabilities(false, ModelCatalogReasoningControl::Binary, "max"@, 262_144)),
        builtin_view("openrouter-muse-spark"@, "meta/muse-spark-1.2"@, "Muse Spark 1.2"@,
            builtin_capabilities(true, ModelCatalogReasoningControl::Effort, "medium"@, 1_048_576)),
        builtin_view("openrouter-gemini-flash"@, "google/gemini-3.7-flash"@, "Gemini 3.7 Flash"@,
            builtin_capabilities(true, ModelCatalogReasoningControl::Effort, "medium"@, 1_048_576)),
    ]
}

/// The builtin candidates.
pub fn builtin_candidates() -> (r: Vec<Candidate>)
    ensures
        candidate_views(r@) == builtin_catalog(),
{
    let mut r: Vec<Candidate> = Vec::new();
    r.push(builtin("openrouter-luna", "openai/gpt-5.6-luna", "GPT 5.6 Luna",
        builtin_caps(true, ModelCatalogReasoningControl::Effort, "xhigh", 272_000)));
    r.push(builtin("openrouter-laguna-s", "poolside/laguna-s-2.1", "Laguna S 2.1",
        builtin_caps(false, ModelCatalogReasoningControl::Binary, "max", 262_144)));
    r.push(builtin("openrouter-muse-spark", "meta/muse-spark-1.2", "Muse Spark 1.2",
        builtin_caps(true, ModelCatalogReasoningControl::Effort, "medium", 1_048_576)));
    r.push(builtin("openrouter-gemini-flash", "google/gemini-3.7-flash", "Gemini 3.7 Flash",
        builtin_caps(true, ModelCatalogReasoningControl::Effort, "medium", 1_048_576)));
    assert(candidate_views(r@) =~= builtin_catalog());
    r
}

/// Whether a routing policy sets anything the current adapter would have to honour.
pub open spec fn routing_is_configured(r: Option<RoutingPolicy>) -> bool {
    match r {
        Some(p) => p.allow_fallbacks is Some || p.require_parameters is Some
            || p.data_collection is Some,
        None => false,
    }
}

/// The candidate a configured model becomes.
pub open spec fn configured_view(m: ConfiguredModel) -> CandidateView {
    CandidateView {
        target_id: "openrouter:"@ + m.id@,
        model_id: m.model@,
        display_name: optional_text(m.display_name),
        source: ModelCatalogSource::UserConfig,
        enabled: m.enabled,
        routing_configured: routing_is_configured(m.routing),
        ui: optional_ui(m.ui),
        builtin_capabilities: None,
    }
}

fn configured(m: &ConfiguredModel) -> (c: Candidate)
    ensures
        c@ == configured_view(*m),
{
    let routing_configured = match &m.routing {
        Some(p) => p.allow_fallbacks.is_some() || p.require_parameters.is_some()
            || p.data_collection.is_some(),
        None => false,
    };
    Candidate {
        target_id: crate::text::concat("openrouter:", m.id.as_str()),
        model_id: m.model.clone(),
        display_name: optional_copy(&m.display_name),
        source: ModelCatalogSource::UserConfig,
        enabled: m.enabled,
        routing_configured,
        ui: optional_ui_copy(&m.ui),
        builtin_capabilities: None,
    }
}

/// The builtin candidates followed by one per configured model, in order.
pub open spec fn candidate_list(configured: Seq<ConfiguredModel>) -> Seq<CandidateView> {
    builtin_catalog() + Seq::new(configured.len(), |i: int| configured_view(configured[i]))
}

/// Every model the picker considers.
pub fn candidates(configured_models: &[ConfiguredModel]) -> (r: Vec<Candidate>)
    ensures
        candidate_views(r@) == candidate_list(configured_models@),
{
    let mut r = builtin_candidates();
    let mut i: usize = 0;
    while i < configured_models.len()
        invariant
            i <= configured_models.len(),
            candidate_views(r@) == candidate_list(configured_models@.take(i as int)),
        decreases configured_models.len() - i,
    {
        let c = configured(&configured_models[i]);
        let ghost before = r@;
        r.push(c);
        proof {
            let prior = candidate_list(configured_models@.take(i as int));
            let after = candidate_list(configured_models@.take(i + 1));
            assert(candidate_views(before) == prior);
            assert(builtin_catalog().len() == 4);
            assert(prior.len() == 4 + i);
            assert(before.len() == 4 + i);
            assert(after.len() == 5 + i);
            assert forall|k: int| 0 <= k < after.len() implies candidate_views(r@)[k] == after[k] by {
                if k < before.len() {
                    assert(r@[k] == before[k]);
                    assert(candidate_views(before)[k] == prior[k]);
                    if k >= 4 {
                        let m = k - 4;
                        assert(0 <= m < i);
                        assert(configured_models@.take(i + 1)[m] == configured_models@[m]);
                        assert(configured_models@.take(i as int)[m] == configured_models@[m]);
                    }
                } else {
                    assert(k == 4 + i);
                    assert(configured_models@.take(i + 1)[i as int] == configured_models@[i as int]);
                }
            }
            assert(candidate_views(r@) =~= after);
        }
        i = i + 1;
    }
    assert(configured_models@.take(i as int) =~= configured_models@);
    r
}

/// The index of the first pair keyed by `key`, if any.
#[verifier::opaque]
pub open spec fn first_key_index<V>(s: Seq<(String, V)>, key: Seq<char>) -> Option<int> {
    if exists|i: int| 0 <= i < s.len() && (#[trigger] s[i]).0@ == key {
        Some(choose|i: int| 0 <= i < s.len() && (#[trigger] s[i]).0@ == key
            && forall|j: int| 0 <= j < i ==> (#[trigger] s[j]).0@ != key)
    } else {
        None
    }
}

/// The value a keyed list holds for `key`: that of its first pair with the key.
pub open spec fn entry_for<V>(s: Seq<(String, V)>, key: Seq<char>) -> Option<V> {
    match first_key_index(s, key) {
        Some(i) => Some(s[i].1),
        None => None,
    }
}

/// Finds the first pair keyed by `key`.
pub fn position_of<V>(s: &Vec<(String, V)>, key: &str) -> (r: Option<usize>)
    ensures
        match r {
            Some(i) => first_key_index(s@, key@) == Some(i as int) && i < s@.len(),
            None => first_key_index(s@, key@) is None,
        },
{
    proof {
        reveal(first_key_index);
    }
    let mut i: usize = 0;
    while i < s.len()
        invariant
            i <= s.len(),
            forall|j: int| 0 <= j < i ==> (#[trigger] s@[j]).0@ != key@,
        decreases s.len() - i,
    {
        if same_text(s[i].0.as_str(), key) {
            proof {
                reveal(first_key_index);
            }
            let ghost w = choose|k: int| 0 <= k < s@.len() && (#[trigger] s@[k]).0@ == key@
                && forall|j: int| 0 <= j < k ==> (#[trigger] s@[j]).0@ != key@;
            assert(0 <= i < s@.len() && s@[i as int].0@ == key@);
            proof {
                if w < i {
                    assert(s@[w].0@ != key@);
                } else if w > i {
                    assert(s@[i as int].0@ != key@);
                }
            }
            return Some(i);
        }
        i = i + 1;
    }
    None
}

/// Whether `sep` occurs in `s` starting at `i`.
pub open spec fn occurs_at(s: Seq<char>, sep: Seq<char>, i: int) -> bool {
    0 <= i && i + sep.len() <= s.len() && s.subrange(i, i + sep.len()) == sep
}

/// The text before the first occurrence of `sep`, or all of `s` where it does
/// not occur: the first piece `str::split` yields.
pub open spec fn before_first(s: Seq<char>, sep: Seq<char>) -> Seq<char> {
    if exists|i: int| occurs_at(s, sep, i) {
        s.take(choose|i: int| occurs_at(s, sep, i) && forall|j: int| 0 <= j < i ==> !occurs_at(s, sep, j))
    } else {
        s
    }
}

fn occurs_at_exec(s: &Vec<char>, sep: &Vec<char>, i: usize) -> (r: bool)
    requires
        i <= s.len(),
    ensures
        r == occurs_at(s@, sep@, i as int),
{
    if sep.len() > s.len() - i {
        return false;
    }
    let mut k: usize = 0;
    while k < sep.len()
        invariant
            i + sep.len() <= s.len(),
            k <= sep.len(),
            forall|m: int| 0 <= m < k ==> s@[i + m] == sep@[m],
        decreases sep.len() - k,
    {
        if s[i + k] != sep[k] {
            assert(s@.subrange(i as int, i + sep.len())[k as int] != sep@[k as int]);
            return false;
        }
        k = k + 1;
    }
    assert(s@.subrange(i as int, i + sep.len()) =~= sep@);
    true
}

fn take_prefix(s: &Vec<char>, i: usize) -> (out: Vec<char>)
    requires
        i <= s.len(),
    ensures
        out@ == s@.take(i as int),
{
    let mut out: Vec<char> = Vec::new();
    let mut k: usize = 0;
    while k < i
        invariant
            i <= s.len(),
            k <= i,
            out@ == s@.take(k as int),
        decreases i - k,
    {
        out.push(s[k]);
        assert(s@.take(k + 1) =~= s@.take(k as int).push(s@[k as int]));
        k = k + 1;
    }
    out
}

proof fn lemma_first_occurrence(s: Seq<char>, sep: Seq<char>, i: int)
    requires
        occurs_at(s, sep, i),
        forall|j: int| 0 <= j < i ==> !occurs_at(s, sep, j),
    ensures
        before_first(s, sep) == s.take(i),
{
    let w = choose|k: int| occurs_at(s, sep, k) && forall|j: int| 0 <= j < k ==> !occurs_at(s, sep, j);
    if w < i {
        assert(!occurs_at(s, sep, w));
    } else if w > i {
        assert(!occurs_at(s, sep, i));
    }
}

/// The part of `s` before the first `sep`.
pub fn split_first(s: &Vec<char>, sep: &Vec<char>) -> (r: Vec<char>)
    ensures
        r@ == before_first(s@, sep@),
{
    let mut i: usize = 0;
    while i < s.len()
        invariant
            i <= s.len(),
            forall|j: int| 0 <= j < i ==> !occurs_at(s@, sep@, j),
        decreases s.len() - i,
    {
        if occurs_at_exec(s, sep, i) {
            proof {
                lemma_first_occurrence(s@, sep@, i as int);
            }
            return take_prefix(s, i);
        }
        i = i + 1;
    }
    if occurs_at_exec(s, sep, i) {
        proof {
            lemma_first_occurrence(s@, sep@, i as int);
        }
        return take_prefix(s, i);
    }
    assert forall|j: int| occurs_at(s@, sep@, j) implies false by {
        assert(0 <= j && j <= s@.len());
        if j < i {
        } else {
            assert(j == i);
        }
    }
    s.clone()
}

/// Where in the configuration a diagnostic points: the text before the
/// `: [[models.openrouter]]` marker of the message.
pub fn config_location(message: &str) -> (r: String)
    ensures
        r@ == before_first(message@, ": [[models.openrouter]]"@),
{
    let s = chars_of(message);
    let sep = chars_of(": [[models.openrouter]]");
    let out = split_first(&s, &sep);
    crate::text::string_of(&out)
}

/// The instant `DateTime::parse_from_rfc3339` reads from a text: whole
/// seconds since the epoch and the nanoseconds within that second.
pub uninterp spec fn rfc3339_instant(text: Seq<char>) -> Option<(i64, u32)>;

/// The instant at midnight UTC of the calendar date `NaiveDate::parse_from_str`
/// reads from a text in the `%Y-%m-%d` form.
pub uninterp spec fn calendar_date_instant(text: Seq<char>) -> Option<(i64, u32)>;

/// Trusted: chrono's `DateTime::parse_from_rfc3339`. The result is taken, as
/// chrono's `timestamp` and `timestamp_subsec_nanos` report it, to be a
/// function of the text alone; nothing more is claimed of the parser.
#[verifier::external_body]
pub(crate) fn parse_rfc3339(value: &str) -> (r: Option<(i64, u32)>)
    ensures
        r == rfc3339_instant(value@),
{
    match chrono::DateTime::parse_from_rfc3339(value) {
        Ok(t) => Some((t.timestamp(), t.timestamp_subsec_nanos())),
        Err(_) => None,
    }
}

/// Trusted: chrono's `NaiveDate::parse_from_str` with the `%Y-%m-%d` format,
/// then the start of that day in UTC. The result is taken to be a function of
/// the text alone; nothing more is claimed of the parser.
#[verifier::external_body]
fn parse_calendar_date(value: &str) -> (r: Option<(i64, u32)>)
    ensures
        r == calendar_date_instant(value@),
{
    match chrono::NaiveDate::parse_from_str(value, "%Y-%m-%d") {
        Ok(date) => match date.and_hms_opt(0, 0, 0) {
            Some(t) => Some((t.and_utc().timestamp(), t.and_utc().timestamp_subsec_nanos())),
            None => None,
        },
        Err(_) => None,
    }
}

/// An RFC 3339 timestamp, or else a bare calendar date taken at midnight UTC.
pub open spec fn timestamp_instant(text: Seq<char>) -> Option<(i64, u32)> {
    match rfc3339_instant(text) {
        Some(t) => Some(t),
        None => calendar_date_instant(text),
    }
}

/// Reads a metadata timestamp.
pub fn parse_timestamp(value: &str) -> (r: Option<(i64, u32)>)
    ensures
        r == timestamp_instant(value@),
{
    match parse_rfc3339(value) {
        Some(t) => Some(t),
        None => parse_calendar_date(value),
    }
}

/// Whether instant `a` is not later than instant `b`.
pub open spec fn instant_le(a: (i64, u32), b: (i64, u32)) -> bool {
    a.0 < b.0 || (a.0 == b.0 && a.1 <= b.1)
}

/// What the public model list reported of one model when it was observed.
pub struct ObservedModel {
    pub display_name: String,
    pub capabilities: ModelCatalogCapabilities,
    pub observed_at: String,
    pub source: String,
    pub expires_at: Option<String>,
}

/// An observed model as plain values.
pub struct ObservedView {
    pub display_name: Seq<char>,
    pub capabilities: CapabilitiesView,
    pub observed_at: Seq<char>,
    pub source: Seq<char>,
    pub expires_at: Option<Seq<char>>,
}

impl View for ObservedModel {
    type V = ObservedView;

    open spec fn view(&self) -> ObservedView {
        ObservedView {
            display_name: self.display_name@,
            capabilities: self.capabilities@,
            observed_at: self.observed_at@,
            source: self.source@,
            expires_at: optional_text(self.expires_at),
        }
    }
}

/// The last public metadata snapshot: the models found, keyed by model id, and
/// the ids the list did not hold, with when that was observed.
pub struct MetadataCache {
    pub version: u8,
    pub observed_at: Option<String>,
    pub etag: Option<String>,
    pub models: Vec<(String, ObservedModel)>,
    pub missing_models: Vec<(String, String)>,
}

/// Whether metadata with this expiry is expired at `now`; an expiry that does
/// not parse never expires.
pub open spec fn is_expired(meta: Option<ObservedView>, now: (i64, u32)) -> bool {
    match meta {
        Some(m) => match m.expires_at {
            Some(text) => match timestamp_instant(text) {
                Some(e) => instant_le(e, now),
                None => false,
            },
            None => false,
        },
        None => false,
    }
}

/// A catalog entry.
pub struct ModelCatalogEntry {
    pub target_id: String,
    pub provider: String,
    pub model_id: String,
    pub display_name: String,
    pub source: ModelCatalogSource,
    pub enabled: bool,
    pub availability: ModelCatalogAvailability,
    pub capabilities: ModelCatalogCapabilities,
    pub metadata_observed_at: Option<String>,
    pub metadata_source: Option<String>,
    pub diagnostic: Option<String>,
}

/// A catalog entry as plain values.
pub struct EntryView {
    pub target_id: Seq<char>,
    pub provider: Seq<char>,
    pub model_id: Seq<char>,
    pub display_name: Seq<char>,
    pub source: ModelCatalogSource,
    pub enabled: bool,
    pub availability: ModelCatalogAvailability,
    pub capabilities: CapabilitiesView,
    pub metadata_observed_at: Option<Seq<char>>,
    pub metadata_source: Option<Seq<char>>,
    pub diagnostic: Option<Seq<char>>,
}

impl View for ModelCatalogEntry {
    type V = EntryView;

    open spec fn view(&self) -> EntryView {
        EntryView {
            target_id: self.target_id@,
            provider: self.provider@,
            model_id: self.model_id@,
            display_name: self.display_name@,
            source: self.source,
            enabled: self.enabled,
            availability: self.availability,
            capabilities: self.capabilities@,
            metadata_observed_at: optional_text(self.metadata_observed_at),
            metadata_source: optional_text(self.metadata_source),
            diagnostic: optional_text(self.diagnostic),
        }
    }
}

/// Whether new turns may go to a model: a routing policy the adapter cannot
/// honour, a disabled entry, expired or unlisted metadata block it; known
/// capabilities need only a credential; unknown ones are unverified.
pub open spec fn availability_of(
    c: CandidateView,
    meta: Option<ObservedView>,
    unavailable_at: Option<Seq<char>>,
    expired: bool,
    credential_configured: bool,
) -> ModelCatalogAvailability {
    if c.routing_configured {
        ModelCatalogAvailability::Unavailable
    } else if !c.enabled {
        ModelCatalogAvailability::Unavailable
    } else if expired {
        ModelCatalogAvailability::Expired
    } else if unavailable_at is Some {
        ModelCatalogAvailability::Unavailable
    } else if meta is Some || c.builtin_capabilities is Some {
        if credential_configured {
            ModelCatalogAvailability::Ready
        } else {
            ModelCatalogAvailability::CredentialRequired
        }
    } else if credential_configured {
        ModelCatalogAvailability::Unverified
    } else {
        ModelCatalogAvailability::CredentialRequired
    }
}

/// The explanation shown beside an entry, in the same order of precedence.
pub open spec fn diagnostic_of(
    c: CandidateView,
    meta: Option<ObservedView>,
    unavailable_at: Option<Seq<char>>,
    expired: bool,
    credential_configured: bool,
) -> Option<Seq<char>> {
    if c.routing_configured {
        Some("This routing policy is not admitted by the current Responses adapter, so new turns are blocked rather than sent without it."@)
    } else if !c.enabled {
        Some("Disabled in config.toml; existing sessions retain their pinned target."@)
    } else if expired {
        Some("OpenRouter metadata reports this model as expired; new turns are blocked."@)
    } else if unavailable_at is Some {
        Some("OpenRouter did not list this slug when metadata was checked "@ + unavailable_at->0
            + "; new turns are blocked."@)
    } else if meta is None && c.builtin_capabilities is None {
        Some("OpenRouter metadata has not been verified. Only text input is admitted until refresh succeeds."@)
    } else if !credential_configured {
        Some("OpenRouter API key required for new turns."@)
    } else {
        None
    }
}

/// The catalog entry of one candidate, given what the metadata says of it.
pub open spec fn entry_of(
    c: CandidateView,
    meta: Option<ObservedView>,
    unavailable_at: Option<Seq<char>>,
    expired: bool,
    credential_configured: bool,
) -> EntryView {
    let base = match meta {
        Some(m) => m.capabilities,
        None => match c.builtin_capabilities {
            Some(b) => b,
            None => default_capabilities(),
        },
    };
    EntryView {
        target_id: c.target_id,
        provider: "openrouter"@,
        model_id: c.model_id,
        display_name: match c.display_name {
            Some(d) => d,
            None => match meta {
                Some(m) => m.display_name,
                None => c.model_id,
            },
        },
        source: c.source,
        enabled: c.enabled,
        availability: availability_of(c, meta, unavailable_at, expired, credential_configured),
        capabilities: narrowed_capabilities(base, c.ui),
        metadata_observed_at: match meta {
            Some(m) => Some(m.observed_at),
            None => None,
        },
        metadata_source: match meta {
            Some(m) => Some(m.source),
            None => if c.builtin_capabilities is Some { Some("builtin"@) } else { None },
        },
        diagnostic: diagnostic_of(c, meta, unavailable_at, expired, credential_configured),
    }
}

/// A catalog entry is ready for new turns only when nothing blocks it: no
/// unadmitted routing policy, enabled, not expired or unlisted, its
/// capabilities known, and a credential configured.
pub proof fn law_only_unblocked_entries_are_ready(
    c: CandidateView,
    meta: Option<ObservedView>,
    unavailable_at: Option<Seq<char>>,
    expired: bool,
    credential_configured: bool,
)
    ensures
        entry_of(c, meta, unavailable_at, expired, credential_configured).availability == ModelCatalogAvailability::Ready
            <==> (!c.routing_configured && c.enabled && !expired && unavailable_at is None
                && (meta is Some || c.builtin_capabilities is Some) && credential_configured),
        entry_of(c, meta, unavailable_at, expired, credential_configured).availability == ModelCatalogAvailability::Ready
            ==> entry_of(c, meta, unavailable_at, expired, credential_configured).diagnostic is None,
{
}

pub open spec fn optional_observed(o: Option<&ObservedModel>) -> Option<ObservedView> {
    match o {
        Some(m) => Some(m@),
        None => None,
    }
}

pub open spec fn optional_ref_text(o: Option<&String>) -> Option<Seq<char>> {
    match o {
        Some(s) => Some(s@),
        None => None,
    }
}

/// Projects one candidate into a catalog entry.
pub fn project_entry(
    candidate: &Candidate,
    metadata: Option<&ObservedModel>,
    unavailable_at: Option<&String>,
    expired: bool,
    credential_configured: bool,
) -> (e: ModelCatalogEntry)
    ensures
        e@ == entry_of(
            candidate@,
            optional_observed(metadata),
            optional_ref_text(unavailable_at),
            expired,
            credential_configured,
        ),
{
    let availability = if candidate.routing_configured {
        ModelCatalogAvailability::Unavailable
    } else if !candidate.enabled {
        ModelCatalogAvailability::Unavailable
    } else if expired {
        ModelCatalogAvailability::Expired
    } else if unavailable_at.is_some() {
        ModelCatalogAvailability::Unavailable
    } else if metadata.is_some() || candidate.builtin_capabilities.is_some() {
        if credential_configured {
            ModelCatalogAvailability::Ready
        } else {
            ModelCatalogAvailability::CredentialRequired
        }
    } else if credential_configured {
        ModelCatalogAvailability::Unverified
    } else {
        ModelCatalogAvailability::CredentialRequired
    };
    let mut capabilities = match metadata {
        Some(m) => m.capabilities.clone(),
        None => match &candidate.builtin_capabilities {
            Some(b) => b.clone(),
            None => ModelCatalogCapabilities::default(),
        },
    };
    narrow_reasoning_capability(&mut capabilities, candidate.ui.as_ref());
    let diagnostic = if candidate.routing_configured {
        Some(String::from_str("This routing policy is not admitted by the current Responses adapter, so new turns are blocked rather than sent without it."))
    } else if !candidate.enabled {
        Some(String::from_str("Disabled in config.toml; existing sessions retain their pinned target."))
    } else if expired {
        Some(String::from_str("OpenRouter metadata reports this model as expired; new turns are blocked."))
    } else if let Some(observed_at) = unavailable_at {
        Some(crate::text::concat3(
            "OpenRouter did not list this slug when metadata was checked ",
            observed_at.as_str(),
            "; new turns are blocked.",
        ))
    } else if metadata.is_none() && candidate.builtin_capabilities.is_none() {
        Some(String::from_str("OpenRouter metadata has not been verified. Only text input is admitted until refresh succeeds."))
    } else if !credential_configured {
        Some(String::from_str("OpenRouter API key required for new turns."))
    } else {
        None
    };
    let display_name = match &candidate.display_name {
        Some(d) => d.clone(),
        None => match metadata {
            Some(m) => m.display_name.clone(),
            None => candidate.model_id.clone(),
        },
    };
    let metadata_observed_at = match metadata {
        Some(m) => Some(m.observed_at.clone()),
        None => None,
    };
    let metadata_source = match metadata {
        Some(m) => Some(m.source.clone()),
        None => if candidate.builtin_capabilities.is_some() {
            Some(String::from_str("builtin"))
        } else {
            None
        },
    };
    ModelCatalogEntry {
        target_id: candidate.target_id.clone(),
        provider: String::from_str("openrouter"),
        model_id: candidate.model_id.clone(),
        display_name,
        source: candidate.source,
        enabled: candidate.enabled,
        availability,
        capabilities,
        metadata_observed_at,
        metadata_source,
        diagnostic,
    }
}

/// A problem met while building the catalog, and where it points.
pub struct ModelCatalogDiagnostic {
    pub location: String,
    pub message: String,
}

/// The catalog handed to the picker.
pub struct ModelCatalog {
    pub entries: Vec<ModelCatalogEntry>,
    pub diagnostics: Vec<ModelCatalogDiagnostic>,
    pub generated_at: String,
}

/// What the metadata snapshot observed of a model id.
pub open spec fn meta_of(cache: Option<&MetadataCache>, key: Seq<char>) -> Option<ObservedView> {
    match cache {
        Some(c) => match entry_for(c.models@, key) {
            Some(m) => Some(m@),
            None => None,
        },
        None => None,
    }
}

/// When the metadata snapshot found a model id missing from the list.
pub open spec fn missing_of(cache: Option<&MetadataCache>, key: Seq<char>) -> Option<Seq<char>> {
    match cache {
        Some(c) => match entry_for(c.missing_models@, key) {
            Some(t) => Some(t@),
            None => None,
        },
        None => None,
    }
}

/// The entry the catalog shows for a candidate.
pub open spec fn catalog_entry(
    c: CandidateView,
    cache: Option<&MetadataCache>,
    now: (i64, u32),
    credential_configured: bool,
) -> EntryView {
    let meta = meta_of(cache, c.model_id);
    entry_of(c, meta, missing_of(cache, c.model_id), is_expired(meta, now), credential_configured)
}

/// The configuration marker that separates a location from a message.
pub open spec fn config_marker() -> Seq<char> {
    ": [[models.openrouter]]"@
}

/// Builds the catalog from the configuration, the last metadata snapshot,
/// what a refresh reported, whether a credential is configured, and the time.
pub fn project_catalog(
    config: ConfiguredModels,
    cache: Option<&MetadataCache>,
    refresh_diagnostics: Vec<String>,
    credential_configured: bool,
    now: (i64, u32),
    generated_at: String,
) -> (r: ModelCatalog)
    ensures
        r.generated_at@ == generated_at@,
        r.diagnostics@.len() == config.diagnostics@.len() + refresh_diagnostics@.len(),
        forall|i: int| 0 <= i < config.diagnostics@.len() ==> {
            &&& (#[trigger] r.diagnostics@[i]).location@ == before_first(config.diagnostics@[i]@, config_marker())
            &&& r.diagnostics@[i].message@ == config.diagnostics@[i]@
        },
        forall|i: int| 0 <= i < refresh_diagnostics@.len() ==> {
            &&& (#[trigger] r.diagnostics@[config.diagnostics@.len() + i]).location@ == "OpenRouter metadata"@
            &&& r.diagnostics@[config.diagnostics@.len() + i].message@ == refresh_diagnostics@[i]@
        },
        r.entries@.len() == candidate_list(config.models@).len(),
        forall|i: int| 0 <= i < r.entries@.len() ==> (#[trigger] r.entries@[i])@ == catalog_entry(
            candidate_list(config.models@)[i], cache, now, credential_configured),
{
    let mut diagnostics: Vec<ModelCatalogDiagnostic> = Vec::new();
    let mut i: usize = 0;
    while i < config.diagnostics.len()
        invariant
            i <= config.diagnostics@.len(),
            diagnostics@.len() == i,
            forall|k: int| 0 <= k < i ==> {
                &&& (#[trigger] diagnostics@[k]).location@ == before_first(config.diagnostics@[k]@, config_marker())
                &&& diagnostics@[k].message@ == config.diagnostics@[k]@
            },
        decreases config.diagnostics@.len() - i,
    {
        let message = &config.diagnostics[i];
        diagnostics.push(ModelCatalogDiagnostic {
            location: config_location(message.as_str()),
            message: message.clone(),
        });
        i = i + 1;
    }
    let mut j: usize = 0;
    while j < refresh_diagnostics.len()
        invariant
            j <= refresh_diagnostics@.len(),
            diagnostics@.len() == config.diagnostics@.len() + j,
            forall|k: int| 0 <= k < config.diagnostics@.len() ==> {
                &&& (#[trigger] diagnostics@[k]).location@ == before_first(config.diagnostics@[k]@, config_marker())
                &&& diagnostics@[k].message@ == config.diagnostics@[k]@
            },
            forall|k: int| 0 <= k < j ==> {
                &&& (#[trigger] diagnostics@[config.diagnostics@.len() + k]).location@ == "OpenRouter metadata"@
                &&& diagnostics@[config.diagnostics@.len() + k].message@ == refresh_diagnostics@[k]@
            },
        decreases refresh_diagnostics@.len() - j,
    {
        diagnostics.push(ModelCatalogDiagnostic {
            location: String::from_str("OpenRouter metadata"),
            message: refresh_diagnostics[j].clone(),
        });
        j = j + 1;
    }
    let all = candidates(config.models.as_slice());
    let mut entries: Vec<ModelCatalogEntry> = Vec::new();
    let mut n: usize = 0;
    while n < all.len()
        invariant
            n <= all@.len(),
            candidate_views(all@) == candidate_list(config.models@),
            entries@.len() == n,
            forall|k: int| 0 <= k < n ==> (#[trigger] entries@[k])@ == catalog_entry(
                candidate_list(config.models@)[k], cache, now, credential_configured),
        decreases all@.len() - n,
    {
        let candidate = &all[n];
        assert(candidate@ == candidate_list(config.models@)[n as int]);
        let metadata = match cache {
            Some(c) => match position_of(&c.models, candidate.model_id.as_str()) {
                Some(p) => Some(&c.models[p].1),
                None => None,
            },
            None => None,
        };
        let unavailable_at = match cache {
            Some(c) => match position_of(&c.missing_models, candidate.model_id.as_str()) {
                Some(p) => Some(&c.missing_models[p].1),
                None => None,
            },
            None => None,
        };
        assert(optional_observed(metadata) == meta_of(cache, candidate@.model_id));
        assert(optional_ref_text(unavailable_at) == missing_of(cache, candidate@.model_id));
        let expired = match metadata {
            Some(m) => match &m.expires_at {
                Some(text) => match parse_timestamp(text.as_str()) {
                    Some(e) => e.0 < now.0 || (e.0 == now.0 && e.1 <= now.1),
                    None => false,
                },
                None => false,
            },
            None => false,
        };
        let entry = project_entry(candidate, metadata, unavailable_at, expired, credential_configured);
        entries.push(entry);
        n = n + 1;
    }
    ModelCatalog { entries, diagnostics, generated_at }
}

/// The largest completion the top provider serves.
pub struct OpenRouterTopProvider {
    pub max_completion_tokens: Option<u64>,
}

/// The modalities a model accepts and produces.
pub struct OpenRouterArchitecture {
    pub input_modalities: Vec<String>,
    pub output_modalities: Vec<String>,
}

/// One model of the public model list.
pub struct OpenRouterApiModel {
    pub id: String,
    pub name: Option<String>,
    pub context_length: Option<u64>,
    pub top_provider: Option<OpenRouterTopProvider>,
    pub architecture: Option<OpenRouterArchitecture>,
    pub supported_parameters: Vec<String>,
    pub expires_at: Option<String>,
}

/// Whether a model lists `name` among its parameters, ignoring ASCII case.
pub open spec fn has_parameter(params: Seq<String>, name: Seq<char>) -> bool {
    exists|i: int| 0 <= i < params.len() && ascii_lower_seq((#[trigger] params[i])@) == name
}

/// Effort control where `reasoning_effort` is listed, binary control where
/// only `reasoning` or `include_reasoning` is, none otherwise.
pub open spec fn reasoning_of(params: Seq<String>) -> ModelCatalogReasoningControl {
    if has_parameter(params, "reasoning_effort"@) {
        ModelCatalogReasoningControl::Effort
    } else if has_parameter(params, "reasoning"@) || has_parameter(params, "include_reasoning"@) {
        ModelCatalogReasoningControl::Binary
    } else {
        ModelCatalogReasoningControl::NoControl
    }
}

/// The listed modalities, or text alone where none are listed.
pub open spec fn modalities_or_text(listed: Seq<Seq<char>>) -> Seq<Seq<char>> {
    if listed.len() == 0 { seq!["text"@] } else { listed }
}

/// What a public list entry says of a model, observed at `observed_at`.
pub open spec fn observed_from_api(m: OpenRouterApiModel, observed_at: Seq<char>) -> ObservedView {
    let params = m.supported_parameters@;
    ObservedView {
        display_name: match m.name {
            Some(n) => n@,
            None => m.id@,
        },
        capabilities: CapabilitiesView {
            input_modalities: modalities_or_text(match m.architecture {
                Some(a) => texts_of(a.input_modalities@),
                None => Seq::empty(),
            }),
            output_modalities: modalities_or_text(match m.architecture {
                Some(a) => texts_of(a.output_modalities@),
                None => Seq::empty(),
            }),
            tools: has_parameter(params, "tools"@) || has_parameter(params, "tool_choice"@),
            reasoning_control: reasoning_of(params),
            default_reasoning: None,
            max_context_tokens: m.context_length,
            max_completion_tokens: match m.top_provider {
                Some(p) => p.max_completion_tokens,
                None => None,
            },
        },
        observed_at,
        source: "openrouter.models.v1"@,
        expires_at: optional_text(m.expires_at),
    }
}

fn lowered(s: &String) -> (r: String)
    ensures
        r@ == ascii_lower_seq(s@),
{
    let chars = chars_of(s.as_str());
    let lower = ascii_lowercase(&chars);
    string_of(&lower)
}

fn lists_parameter(lowered_params: &Vec<String>, params: &Vec<String>, name: &str) -> (r: bool)
    requires
        lowered_params@.len() == params@.len(),
        forall|i: int| 0 <= i < params@.len() ==> (#[trigger] lowered_params@[i])@ == ascii_lower_seq(params@[i]@),
    ensures
        r == has_parameter(params@, name@),
{
    let mut i: usize = 0;
    while i < lowered_params.len()
        invariant
            i <= lowered_params@.len(),
            lowered_params@.len() == params@.len(),
            forall|k: int| 0 <= k < params@.len() ==> (#[trigger] lowered_params@[k])@ == ascii_lower_seq(params@[k]@),
            forall|k: int| 0 <= k < i ==> ascii_lower_seq((#[trigger] params@[k])@) != name@,
        decreases lowered_params@.len() - i,
    {
        if same_text(lowered_params[i].as_str(), name) {
            assert(ascii_lower_seq(params@[i as int]@) == name@);
            return true;
        }
        i = i + 1;
    }
    false
}

fn texts_or_text(listed: Option<&Vec<String>>) -> (r: Vec<String>)
    ensures
        texts_of(r@) == modalities_or_text(match listed {
            Some(v) => texts_of(v@),
            None => Seq::empty(),
        }),
{
    let mut r = match listed {
        Some(v) => copy_strings(v.as_slice()),
        None => Vec::new(),
    };
    if r.len() == 0 {
        r.push(String::from_str("text"));
        assert(texts_of(r@) =~= seq!["text"@]);
    }
    r
}

impl ObservedModel {
    /// What a public list entry says of a model, observed at `observed_at`.
    pub fn from_api(model: &OpenRouterApiModel, observed_at: &str) -> (r: ObservedModel)
        ensures
            r@ == observed_from_api(*model, observed_at@),
    {
        let mut lowered_params: Vec<String> = Vec::new();
        let mut i: usize = 0;
        while i < model.supported_parameters.len()
            invariant
                i <= model.supported_parameters@.len(),
                lowered_params@.len() == i,
                forall|k: int| 0 <= k < i ==> (#[trigger] lowered_params@[k])@ == ascii_lower_seq(
                    model.supported_parameters@[k]@),
            decreases model.supported_parameters@.len() - i,
        {
            lowered_params.push(lowered(&model.supported_parameters[i]));
            i = i + 1;
        }
        let params = &model.supported_parameters;
        let reasoning_control = if lists_parameter(&lowered_params, params, "reasoning_effort") {
            ModelCatalogReasoningControl::Effort
        } else if lists_parameter(&lowered_params, params, "reasoning")
            || lists_parameter(&lowered_params, params, "include_reasoning") {
            ModelCatalogReasoningControl::Binary
        } else {
            ModelCatalogReasoningControl::NoControl
        };
        let tools = lists_parameter(&lowered_params, params, "tools")
            || lists_parameter(&lowered_params, params, "tool_choice");
        let input_modalities = texts_or_text(match &model.architecture {
            Some(a) => Some(&a.input_modalities),
            None => None,
        });
        let output_modalities = texts_or_text(match &model.architecture {
            Some(a) => Some(&a.output_modalities),
            None => None,
        });
        ObservedModel {
            display_name: match &model.name {
                Some(n) => n.clone(),
                None => model.id.clone(),
            },
            capabilities: ModelCatalogCapabilities {
                input_modalities,
                output_modalities,
                tools,
                reasoning_control,
                default_reasoning: None,
                max_context_tokens: model.context_length,
                max_completion_tokens: match &model.top_provider {
                    Some(p) => p.max_completion_tokens,
                    None => None,
                },
            },
            observed_at: String::from_str(observed_at),
            source: String::from_str("openrouter.models.v1"),
            expires_at: optional_copy(&model.expires_at),
        }
    }
}

proof fn lemma_first_key_is<V>(s: Seq<(String, V)>, key: Seq<char>, i: int)
    requires
        0 <= i < s.len(),
        s[i].0@ == key,
        forall|j: int| 0 <= j < i ==> (#[trigger] s[j]).0@ != key,
    ensures
        first_key_index(s, key) == Some(i),
{
    reveal(first_key_index);
    let w = choose|k: int| 0 <= k < s.len() && (#[trigger] s[k]).0@ == key
        && forall|j: int| 0 <= j < k ==> (#[trigger] s[j]).0@ != key;
    if w < i {
        assert(s[w].0@ != key);
    } else if w > i {
        assert(s[i].0@ != key);
    }
}

proof fn lemma_first_key_facts<V>(s: Seq<(String, V)>, key: Seq<char>)
    ensures
        match first_key_index(s, key) {
            Some(i) => 0 <= i < s.len() && s[i].0@ == key
                && forall|j: int| 0 <= j < i ==> (#[trigger] s[j]).0@ != key,
            None => forall|j: int| 0 <= j < s.len() ==> (#[trigger] s[j]).0@ != key,
        },
{
    reveal(first_key_index);
    if exists|i: int| 0 <= i < s.len() && (#[trigger] s[i]).0@ == key {
        let i0 = choose|i: int| 0 <= i < s.len() && (#[trigger] s[i]).0@ == key;
        lemma_least_key(s, key, i0);
    }
}

proof fn lemma_least_key<V>(s: Seq<(String, V)>, key: Seq<char>, i: int)
    requires
        0 <= i < s.len(),
        s[i].0@ == key,
    ensures
        exists|k: int| 0 <= k < s.len() && (#[trigger] s[k]).0@ == key
            && forall|j: int| 0 <= j < k ==> (#[trigger] s[j]).0@ != key,
    decreases i,
{
    if exists|j: int| 0 <= j < i && (#[trigger] s[j]).0@ == key {
        let j0 = choose|j: int| 0 <= j < i && (#[trigger] s[j]).0@ == key;
        lemma_least_key(s, key, j0);
    } else {
        assert(forall|j: int| 0 <= j < i ==> (#[trigger] s[j]).0@ != key);
    }
}

proof fn lemma_first_key_push<V>(s: Seq<(String, V)>, p: (String, V), key: Seq<char>)
    ensures
        first_key_index(s.push(p), key) == match first_key_index(s, key) {
            Some(i) => Some(i),
            None => if p.0@ == key { Some(s.len() as int) } else { None },
        },
{
    reveal(first_key_index);
    let t = s.push(p);
    lemma_first_key_facts(s, key);
    match first_key_index(s, key) {
        Some(i) => {
            assert forall|j: int| 0 <= j < i implies (#[trigger] t[j]).0@ != key by {
                assert(t[j] == s[j]);
            }
            assert(t[i] == s[i]);
            lemma_first_key_is(t, key, i);
        },
        None => {
            if p.0@ == key {
                assert forall|j: int| 0 <= j < s.len() implies (#[trigger] t[j]).0@ != key by {
                    assert(t[j] == s[j]);
                }
                lemma_first_key_is(t, key, s.len() as int);
            } else {
                assert forall|j: int| 0 <= j < t.len() implies (#[trigger] t[j]).0@ != key by {
                    if j < s.len() {
                        assert(t[j] == s[j]);
                    }
                }
            }
        },
    }
}

/// The last index of the public list whose id is `key`: a list collected into
/// a map by id keeps the last model of each id.
pub open spec fn last_id_index(api: Seq<OpenRouterApiModel>, key: Seq<char>) -> Option<int> {
    if exists|i: int| 0 <= i < api.len() && (#[trigger] api[i]).id@ == key {
        Some(choose|i: int| 0 <= i < api.len() && (#[trigger] api[i]).id@ == key
            && forall|j: int| i < j < api.len() ==> (#[trigger] api[j]).id@ != key)
    } else {
        None
    }
}

fn last_with_id(api: &[OpenRouterApiModel], key: &str) -> (r: Option<usize>)
    ensures
        match r {
            Some(i) => last_id_index(api@, key@) == Some(i as int) && i < api@.len(),
            None => last_id_index(api@, key@) is None,
        },
{
    let mut i: usize = api.len();
    while i > 0
        invariant
            i <= api@.len(),
            forall|j: int| i <= j < api@.len() ==> (#[trigger] api@[j]).id@ != key@,
        decreases i,
    {
        i = i - 1;
        if same_text(api[i].id.as_str(), key) {
            proof {
                let w = choose|k: int| 0 <= k < api@.len() && (#[trigger] api@[k]).id@ == key@
                    && forall|j: int| k < j < api@.len() ==> (#[trigger] api@[j]).id@ != key@;
                assert(api@[i as int].id@ == key@);
                if w < i {
                    assert(api@[i as int].id@ != key@);
                } else if w > i {
                    assert(api@[w].id@ != key@);
                }
            }
            return Some(i);
        }
    }
    None
}

/// Whether the picker wants metadata for a model id: some candidate names it
/// and it is not a provider-owned preset alias.
pub open spec fn wanted(cands: Seq<CandidateView>, key: Seq<char>) -> bool {
    &&& !has_prefix(key, "@preset/"@)
    &&& exists|i: int| 0 <= i < cands.len() && (#[trigger] cands[i]).model_id == key
}

/// What a refresh records as observed for a model id.
pub open spec fn expected_observed(
    api: Seq<OpenRouterApiModel>,
    cands: Seq<CandidateView>,
    key: Seq<char>,
    observed_at: Seq<char>,
) -> Option<ObservedView> {
    if wanted(cands, key) {
        match last_id_index(api, key) {
            Some(i) => Some(observed_from_api(api[i], observed_at)),
            None => None,
        }
    } else {
        None
    }
}

/// What a refresh records as missing for a model id: when it was checked.
pub open spec fn expected_missing(
    api: Seq<OpenRouterApiModel>,
    cands: Seq<CandidateView>,
    key: Seq<char>,
    observed_at: Seq<char>,
) -> Option<Seq<char>> {
    if wanted(cands, key) && last_id_index(api, key) is None {
        Some(observed_at)
    } else {
        None
    }
}

pub open spec fn observed_entry(models: Seq<(String, ObservedModel)>, key: Seq<char>) -> Option<ObservedView> {
    match entry_for(models, key) {
        Some(m) => Some(m@),
        None => None,
    }
}

pub open spec fn missing_entry(missing: Seq<(String, String)>, key: Seq<char>) -> Option<Seq<char>> {
    match entry_for(missing, key) {
        Some(t) => Some(t@),
        None => None,
    }
}

proof fn lemma_wanted_push(before: Seq<CandidateView>, c: CandidateView, key: Seq<char>)
    ensures
        wanted(before.push(c), key) == (wanted(before, key) || (c.model_id == key
            && !has_prefix(key, "@preset/"@))),
{
    let after = before.push(c);
    if exists|i: int| 0 <= i < after.len() && (#[trigger] after[i]).model_id == key {
        let k = choose|i: int| 0 <= i < after.len() && (#[trigger] after[i]).model_id == key;
        if k < before.len() {
            assert(before[k] == after[k]);
        }
    }
    if exists|i: int| 0 <= i < before.len() && (#[trigger] before[i]).model_id == key {
        let k = choose|i: int| 0 <= i < before.len() && (#[trigger] before[i]).model_id == key;
        assert(before[k] == after[k]);
    }
    if c.model_id == key {
        assert(after[before.len() as int] == c);
    }
}

proof fn lemma_models_push(
    api: Seq<OpenRouterApiModel>,
    before: Seq<CandidateView>,
    c: CandidateView,
    at: Seq<char>,
    old: Seq<(String, ObservedModel)>,
    pair: (String, ObservedModel),
    found: int,
)
    requires
        forall|key: Seq<char>| #[trigger] observed_entry(old, key) == expected_observed(api, before, key, at),
        first_key_index(old, c.model_id) is None,
        pair.0@ == c.model_id,
        !has_prefix(c.model_id, "@preset/"@),
        last_id_index(api, c.model_id) == Some(found),
        pair.1@ == observed_from_api(api[found], at),
    ensures
        forall|key: Seq<char>| #[trigger] observed_entry(old.push(pair), key) == expected_observed(
            api, before.push(c), key, at),
{
    let new = old.push(pair);
    assert forall|key: Seq<char>| #[trigger] observed_entry(new, key) == expected_observed(
        api, before.push(c), key, at) by {
        lemma_first_key_push(old, pair, key);
        lemma_wanted_push(before, c, key);
        if key == c.model_id {
            assert(first_key_index(new, key) == Some(old.len() as int));
            assert(new[old.len() as int] == pair);
            assert(entry_for(new, key) == Some(pair.1));
        } else {
            assert(observed_entry(old, key) == expected_observed(api, before, key, at));
            assert(first_key_index(new, key) == first_key_index(old, key));
            lemma_first_key_facts(old, key);
            if let Some(i) = first_key_index(old, key) {
                assert(new[i] == old[i]);
            }
            assert(entry_for(new, key) == entry_for(old, key));
        }
    }
}

proof fn lemma_models_keep(
    api: Seq<OpenRouterApiModel>,
    before: Seq<CandidateView>,
    c: CandidateView,
    at: Seq<char>,
    old: Seq<(String, ObservedModel)>,
)
    requires
        forall|key: Seq<char>| #[trigger] observed_entry(old, key) == expected_observed(api, before, key, at),
        has_prefix(c.model_id, "@preset/"@) || last_id_index(api, c.model_id) is None
            || first_key_index(old, c.model_id) is Some,
    ensures
        forall|key: Seq<char>| #[trigger] observed_entry(old, key) == expected_observed(
            api, before.push(c), key, at),
{
    assert forall|key: Seq<char>| #[trigger] observed_entry(old, key) == expected_observed(
        api, before.push(c), key, at) by {
        lemma_wanted_push(before, c, key);
        assert(observed_entry(old, key) == expected_observed(api, before, key, at));
    }
}

proof fn lemma_missing_push(
    api: Seq<OpenRouterApiModel>,
    before: Seq<CandidateView>,
    c: CandidateView,
    at: Seq<char>,
    old: Seq<(String, String)>,
    pair: (String, String),
)
    requires
        forall|key: Seq<char>| #[trigger] missing_entry(old, key) == expected_missing(api, before, key, at),
        first_key_index(old, c.model_id) is None,
        pair.0@ == c.model_id,
        !has_prefix(c.model_id, "@preset/"@),
        last_id_index(api, c.model_id) is None,
        pair.1@ == at,
    ensures
        forall|key: Seq<char>| #[trigger] missing_entry(old.push(pair), key) == expected_missing(
            api, before.push(c), key, at),
{
    let new = old.push(pair);
    assert forall|key: Seq<char>| #[trigger] missing_entry(new, key) == expected_missing(
        api, before.push(c), key, at) by {
        lemma_first_key_push(old, pair, key);
        lemma_wanted_push(before, c, key);
        if key == c.model_id {
            assert(first_key_index(new, key) == Some(old.len() as int));
            assert(new[old.len() as int] == pair);
            assert(entry_for(new, key) == Some(pair.1));
        } else {
            assert(missing_entry(old, key) == expected_missing(api, before, key, at));
            assert(first_key_index(new, key) == first_key_index(old, key));
            lemma_first_key_facts(old, key);
            if let Some(i) = first_key_index(old, key) {
                assert(new[i] == old[i]);
            }
            assert(entry_for(new, key) == entry_for(old, key));
        }
    }
}

proof fn lemma_missing_keep(
    api: Seq<OpenRouterApiModel>,
    before: Seq<CandidateView>,
    c: CandidateView,
    at: Seq<char>,
    old: Seq<(String, String)>,
)
    requires
        forall|key: Seq<char>| #[trigger] missing_entry(old, key) == expected_missing(api, before, key, at),
        has_prefix(c.model_id, "@preset/"@) || last_id_index(api, c.model_id) is Some
            || first_key_index(old, c.model_id) is Some,
    ensures
        forall|key: Seq<char>| #[trigger] missing_entry(old, key) == expected_missing(
            api, before.push(c), key, at),
{
    assert forall|key: Seq<char>| #[trigger] missing_entry(old, key) == expected_missing(
        api, before.push(c), key, at) by {
        lemma_wanted_push(before, c, key);
        assert(missing_entry(old, key) == expected_missing(api, before, key, at));
    }
}

/// The metadata cache a successful refresh of the public list produces for
/// the given candidates.
pub fn observe_models(
    api: &[OpenRouterApiModel],
    candidates: &[Candidate],
    observed_at: &str,
    etag: Option<String>,
) -> (r: MetadataCache)
    ensures
        r.version == 1,
        optional_text(r.observed_at) == Some(observed_at@),
        optional_text(r.etag) == optional_text(etag),
        forall|key: Seq<char>| #[trigger] observed_entry(r.models@, key) == expected_observed(
            api@, candidate_views(candidates@), key, observed_at@),
        forall|key: Seq<char>| #[trigger] missing_entry(r.missing_models@, key) == expected_missing(
            api@, candidate_views(candidates@), key, observed_at@),
{
    let ghost cands = candidate_views(candidates@);
    let mut models: Vec<(String, ObservedModel)> = Vec::new();
    let mut missing_models: Vec<(String, String)> = Vec::new();
    proof {
        reveal(first_key_index);
    }
    let mut i: usize = 0;
    while i < candidates.len()
        invariant
            i <= candidates@.len(),
            cands == candidate_views(candidates@),
            forall|key: Seq<char>| #[trigger] observed_entry(models@, key) == expected_observed(
                api@, cands.take(i as int), key, observed_at@),
            forall|key: Seq<char>| #[trigger] missing_entry(missing_models@, key) == expected_missing(
                api@, cands.take(i as int), key, observed_at@),
        decreases candidates@.len() - i,
    {
        let model_id = &candidates[i].model_id;
        let ghost c = cands[i as int];
        let ghost before = cands.take(i as int);
        assert(cands.take(i + 1) =~= before.push(c));
        assert(c.model_id == model_id@);
        let ghost old_models = models@;
        let ghost old_missing = missing_models@;
        if !starts_with(model_id.as_str(), "@preset/") {
            match last_with_id(api, model_id.as_str()) {
                Some(found) => {
                    if position_of(&models, model_id.as_str()).is_none() {
                        let observed = ObservedModel::from_api(&api[found], observed_at);
                        models.push((model_id.clone(), observed));
                        proof {
                            lemma_models_push(api@, before, c, observed_at@, old_models,
                                models@[old_models.len() as int], found as int);
                            assert(models@ == old_models.push(models@[old_models.len() as int]));
                        }
                    } else {
                        proof {
                            lemma_models_keep(api@, before, c, observed_at@, old_models);
                        }
                    }
                    proof {
                        lemma_missing_keep(api@, before, c, observed_at@, old_missing);
                    }
                },
                None => {
                    if position_of(&missing_models, model_id.as_str()).is_none() {
                        missing_models.push((model_id.clone(), String::from_str(observed_at)));
                        proof {
                            lemma_missing_push(api@, before, c, observed_at@, old_missing,
                                missing_models@[old_missing.len() as int]);
                            assert(missing_models@ == old_missing.push(missing_models@[old_missing.len() as int]));
                        }
                    } else {
                        proof {
                            lemma_missing_keep(api@, before, c, observed_at@, old_missing);
                        }
                    }
                    proof {
                        lemma_models_keep(api@, before, c, observed_at@, old_models);
                    }
                },
            }
        } else {
            proof {
                lemma_models_keep(api@, before, c, observed_at@, old_models);
                lemma_missing_keep(api@, before, c, observed_at@, old_missing);
            }
        }
        i = i + 1;
    }
    assert(cands.take(i as int) =~= cands);
    MetadataCache {
        version: 1,
        observed_at: Some(String::from_str(observed_at)),
        etag,
        models,
        missing_models,
    }
}

} // verus!
