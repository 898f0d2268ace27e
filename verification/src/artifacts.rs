//! Durable optimizer artifact declarations and bounded byte access.
//!
//! Events carry artifact references as loose JSON. Only a complete reference
//! (an object with a kind and a locator) declares an artifact; diagnostic
//! scalars stay on the event. Bytes are served only for declared artifacts of
//! a streamable media type, in bounded ranges.

use crate::json::{member, JsonValue, JsonView, NumberView};
use crate::text::{
    ascii_lower_seq, ascii_lowercase, chars_of, ends_with, has_prefix, has_suffix, same_text,
    starts_with, string_of, trim, trim_str,
};
use base64::Engine;
use vstd::prelude::*;

verus! {

// ---------------------------------------------------------------------------
// Reading loose references
// ---------------------------------------------------------------------------

pub open spec fn views_of(names: Seq<&str>) -> Seq<Seq<char>> {
    Seq::new(names.len(), |k: int| names[k]@)
}

pub open spec fn opt_text(o: Option<String>) -> Option<Seq<char>> {
    match o {
        Some(s) => Some(s@),
        None => None,
    }
}

/// A present member that is text and not blank, trimmed.
pub open spec fn nonblank_text(v: Option<JsonView>) -> Option<Seq<char>> {
    match v {
        Some(JsonView::Text(s)) => if trim(s).len() > 0 {
            Some(trim(s))
        } else {
            None
        },
        _ => None,
    }
}

/// The first of `names` under which `v` holds text that is not blank, trimmed.
pub open spec fn text_field(v: JsonView, names: Seq<Seq<char>>) -> Option<Seq<char>>
    decreases names.len(),
{
    if names.len() == 0 {
        None
    } else {
        match nonblank_text(member(v, names[0])) {
            Some(t) => Some(t),
            None => text_field(v, names.drop_first()),
        }
    }
}

/// The first of `names` under which `v` holds text, as it is.
pub open spec fn raw_text_field(v: JsonView, names: Seq<Seq<char>>) -> Option<Seq<char>>
    decreases names.len(),
{
    if names.len() == 0 {
        None
    } else {
        match member(v, names[0]) {
            Some(JsonView::Text(s)) => Some(s),
            _ => raw_text_field(v, names.drop_first()),
        }
    }
}

/// The first of `names` under which `v` holds anything at all.
pub open spec fn first_member(v: JsonView, names: Seq<Seq<char>>) -> Option<JsonView>
    decreases names.len(),
{
    if names.len() == 0 {
        None
    } else {
        match member(v, names[0]) {
            Some(x) => Some(x),
            None => first_member(v, names.drop_first()),
        }
    }
}

fn string_field(value: &JsonValue, names: &Vec<&str>) -> (r: Option<String>)
    ensures
        opt_text(r) == text_field(value@, views_of(names@)),
{
    let ghost all = views_of(names@);
    assert(all.subrange(0, all.len() as int) =~= all);
    let mut i: usize = 0;
    while i < names.len()
        invariant
            i <= names@.len(),
            all == views_of(names@),
            text_field(value@, all) == text_field(value@, all.subrange(i as int, all.len() as int)),
        decreases names@.len() - i,
    {
        let ghost rest = all.subrange(i as int, all.len() as int);
        assert(rest.drop_first() =~= all.subrange(i + 1, all.len() as int));
        assert(rest[0] == names@[i as int]@);
        if let Some(v) = value.get(names[i]) {
            if let Some(s) = v.as_text() {
                let t = trim_str(s.as_str());
                if !t.as_str().is_empty() {
                    return Some(t);
                }
            }
        }
        i = i + 1;
    }
    assert(all.subrange(i as int, all.len() as int).len() == 0);
    None
}

fn raw_string_field(value: &JsonValue, names: &Vec<&str>) -> (r: Option<String>)
    ensures
        opt_text(r) == raw_text_field(value@, views_of(names@)),
{
    let ghost all = views_of(names@);
    assert(all.subrange(0, all.len() as int) =~= all);
    let mut i: usize = 0;
    while i < names.len()
        invariant
            i <= names@.len(),
            all == views_of(names@),
            raw_text_field(value@, all) == raw_text_field(
                value@,
                all.subrange(i as int, all.len() as int),
            ),
        decreases names@.len() - i,
    {
        let ghost rest = all.subrange(i as int, all.len() as int);
        assert(rest.drop_first() =~= all.subrange(i + 1, all.len() as int));
        assert(rest[0] == names@[i as int]@);
        if let Some(v) = value.get(names[i]) {
            if let Some(s) = v.as_text() {
                return Some(s.clone());
            }
        }
        i = i + 1;
    }
    assert(all.subrange(i as int, all.len() as int).len() == 0);
    None
}

fn first_present<'a>(value: &'a JsonValue, names: &Vec<&str>) -> (r: Option<&'a JsonValue>)
    ensures
        match r {
            Some(x) => first_member(value@, views_of(names@)) == Some(x@),
            None => first_member(value@, views_of(names@)) is None,
        },
{
    let ghost all = views_of(names@);
    assert(all.subrange(0, all.len() as int) =~= all);
    let mut i: usize = 0;
    while i < names.len()
        invariant
            i <= names@.len(),
            all == views_of(names@),
            first_member(value@, all) == first_member(value@, all.subrange(i as int, all.len() as int)),
        decreases names@.len() - i,
    {
        let ghost rest = all.subrange(i as int, all.len() as int);
        assert(rest.drop_first() =~= all.subrange(i + 1, all.len() as int));
        assert(rest[0] == names@[i as int]@);
        if let Some(v) = value.get(names[i]) {
            return Some(v);
        }
        i = i + 1;
    }
    assert(all.subrange(i as int, all.len() as int).len() == 0);
    None
}

fn lowercase(s: &str) -> (r: String)
    ensures
        r@ == ascii_lower_seq(s@),
{
    let chars = chars_of(s);
    string_of(&ascii_lowercase(&chars))
}

// ---------------------------------------------------------------------------
// Media types
// ---------------------------------------------------------------------------

pub open spec fn media_type_names() -> Seq<Seq<char>> {
    seq!["mediaType"@, "media_type"@, "contentType"@, "content_type"@]
}

/// The media type a locator's extension implies, compared without case.
pub open spec fn inferred_media_type(locator: Seq<char>) -> Option<Seq<char>> {
    let path = ascii_lower_seq(locator);
    if has_suffix(path, ".mp4"@) {
        Some("video/mp4"@)
    } else if has_suffix(path, ".json"@) || has_suffix(path, ".jsonl"@) {
        Some("application/json"@)
    } else if has_suffix(path, ".png"@) {
        Some("image/png"@)
    } else {
        None
    }
}

/// A declared media type, lowercased, or else the one the locator implies.
pub open spec fn artifact_media_type(reference: JsonView, locator: Seq<char>) -> Option<Seq<char>> {
    match text_field(reference, media_type_names()) {
        Some(t) => Some(ascii_lower_seq(t)),
        None => inferred_media_type(locator),
    }
}

/// The media type of a reference, declared or inferred from its locator.
pub fn media_type(reference: &JsonValue, locator: &str) -> (r: Option<String>)
    ensures
        opt_text(r) == artifact_media_type(reference@, locator@),
{
    let names = vec!["mediaType", "media_type", "contentType", "content_type"];
    assert(views_of(names@) =~= media_type_names());
    if let Some(declared) = string_field(reference, &names) {
        return Some(lowercase(declared.as_str()));
    }
    let path = lowercase(locator);
    if ends_with(path.as_str(), ".mp4") {
        Some(String::from_str("video/mp4"))
    } else if ends_with(path.as_str(), ".json") || ends_with(path.as_str(), ".jsonl") {
        Some(String::from_str("application/json"))
    } else if ends_with(path.as_str(), ".png") {
        Some(String::from_str("image/png"))
    } else {
        None
    }
}


// ---------------------------------------------------------------------------
// Declarations carried by events
// ---------------------------------------------------------------------------

/// An optimizer event as far as the artifact index reads it.
#[derive(Debug)]
pub struct ArtifactEvent {
    pub optimizer_run_id: String,
    pub sequence_number: u64,
    pub occurred_at: String,
    pub item: Option<JsonValue>,
    pub delta: JsonValue,
    pub artifact_refs: Vec<JsonValue>,
}

pub open spec fn item_view(item: Option<JsonValue>) -> Option<JsonView> {
    match item {
        Some(v) => Some(v@),
        None => None,
    }
}

/// `a`, or else `b`.
pub open spec fn either(a: Option<Seq<char>>, b: Option<Seq<char>>) -> Option<Seq<char>> {
    if a is Some {
        a
    } else {
        b
    }
}

/// A non-blank text field of an optional object.
pub open spec fn text_field_of(v: Option<JsonView>, names: Seq<Seq<char>>) -> Option<Seq<char>> {
    match v {
        Some(x) => text_field(x, names),
        None => None,
    }
}

pub open spec fn rollout_names() -> Seq<Seq<char>> {
    seq!["rolloutId"@, "rollout_id"@]
}

/// The work item an event speaks of: a non-blank id of its item, or else an
/// id its delta carries as text.
pub open spec fn work_item_id_of(item: Option<JsonView>, delta: JsonView) -> Option<Seq<char>> {
    either(
        text_field_of(item, seq!["id"@, "workItemId"@, "work_item_id"@, "trialId"@, "trial_id"@]),
        raw_text_field(delta, seq!["workItemId"@, "work_item_id"@, "trialId"@, "trial_id"@]),
    )
}

/// The rollout an artifact belongs to: named by the reference itself, else by
/// the event's item, else by its delta, else by a container event the delta
/// carries.
pub open spec fn rollout_id_of(item: Option<JsonView>, delta: JsonView, reference: JsonView) -> Option<
    Seq<char>,
> {
    either(
        text_field(reference, rollout_names()),
        either(
            text_field_of(item, rollout_names()),
            either(
                raw_text_field(delta, rollout_names()),
                either(
                    text_field_of(member(delta, "container_event"@), seq!["rollout_id"@, "rolloutId"@]),
                    text_field_of(member(delta, "containerEvent"@), rollout_names()),
                ),
            ),
        ),
    )
}

fn string_field_of(value: Option<&JsonValue>, names: &Vec<&str>) -> (r: Option<String>)
    ensures
        opt_text(r) == text_field_of(
            match value {
                Some(v) => Some(v@),
                None => None,
            },
            views_of(names@),
        ),
{
    match value {
        Some(v) => string_field(v, names),
        None => None,
    }
}

/// The work item an event speaks of.
pub fn event_work_item_id(event: &ArtifactEvent) -> (r: Option<String>)
    ensures
        opt_text(r) == work_item_id_of(item_view(event.item), event.delta@),
{
    let item_names = vec!["id", "workItemId", "work_item_id", "trialId", "trial_id"];
    assert(views_of(item_names@) =~= seq!["id"@, "workItemId"@, "work_item_id"@, "trialId"@, "trial_id"@]);
    let delta_names = vec!["workItemId", "work_item_id", "trialId", "trial_id"];
    assert(views_of(delta_names@) =~= seq!["workItemId"@, "work_item_id"@, "trialId"@, "trial_id"@]);
    let from_item = match &event.item {
        Some(item) => string_field(item, &item_names),
        None => None,
    };
    if from_item.is_some() {
        return from_item;
    }
    raw_string_field(&event.delta, &delta_names)
}

/// The rollout an artifact reference belongs to.
pub fn event_rollout_id(event: &ArtifactEvent, reference: &JsonValue) -> (r: Option<String>)
    ensures
        opt_text(r) == rollout_id_of(item_view(event.item), event.delta@, reference@),
{
    let names = vec!["rolloutId", "rollout_id"];
    assert(views_of(names@) =~= rollout_names());
    let swapped = vec!["rollout_id", "rolloutId"];
    assert(views_of(swapped@) =~= seq!["rollout_id"@, "rolloutId"@]);
    let found = string_field(reference, &names);
    if found.is_some() {
        return found;
    }
    let found = match &event.item {
        Some(item) => string_field(item, &names),
        None => None,
    };
    if found.is_some() {
        return found;
    }
    let found = raw_string_field(&event.delta, &names);
    if found.is_some() {
        return found;
    }
    let found = string_field_of(event.delta.get("container_event"), &swapped);
    if found.is_some() {
        return found;
    }
    string_field_of(event.delta.get("containerEvent"), &names)
}

pub open spec fn kind_names() -> Seq<Seq<char>> {
    seq!["kind"@, "type"@]
}

pub open spec fn locator_names() -> Seq<Seq<char>> {
    seq!["id"@, "refId"@, "ref_id"@, "path"@, "uri"@, "casDigest"@, "cas_digest"@]
}

pub open spec fn artifact_id_names() -> Seq<Seq<char>> {
    seq!["artifactId"@, "artifact_id"@]
}

pub open spec fn digest_names() -> Seq<Seq<char>> {
    seq!["digest"@, "sha256"@, "casDigest"@, "cas_digest"@]
}

pub open spec fn byte_size_names() -> Seq<Seq<char>> {
    seq!["byteSize"@, "byte_size"@, "bytes"@]
}

/// The size a reference declares: its first size member, where that member
/// is a non-negative integer.
pub open spec fn declared_size(reference: JsonView) -> Option<u64> {
    match first_member(reference, byte_size_names()) {
        Some(JsonView::Number(NumberView::Unsigned(n))) => Some(n),
        _ => None,
    }
}

/// `n` as an `i64`, or the largest `i64` where it does not fit.
pub open spec fn saturating_i64(n: u64) -> i64 {
    if n <= i64::MAX as u64 {
        n as i64
    } else {
        i64::MAX
    }
}

/// Whether a reference declares an artifact: an object with a kind and a
/// locator, each non-blank text.
pub open spec fn declares_artifact(reference: JsonView) -> bool {
    &&& reference is Object
    &&& text_field(reference, kind_names()) is Some
    &&& text_field(reference, locator_names()) is Some
}

/// One artifact declaration, as the index stores it.
#[derive(Debug)]
pub struct ArtifactDeclaration {
    pub optimizer_run_id: String,
    pub artifact_id: String,
    pub sequence: i64,
    pub work_item_id: Option<String>,
    pub rollout_id: Option<String>,
    pub kind: String,
    pub locator: String,
    pub digest: Option<String>,
    pub media_type: Option<String>,
    /// The size the reference declares; where it declares none, the size of
    /// the located file is looked up instead.
    pub declared_byte_size: Option<u64>,
    pub declared_at: String,
}

/// What a reference of an event declares, or nothing where it is not a
/// complete declaration.
pub open spec fn declaration_matches(
    d: ArtifactDeclaration,
    event: ArtifactEvent,
    reference: JsonView,
) -> bool {
    let locator = text_field(reference, locator_names())->0;
    &&& d.optimizer_run_id@ == event.optimizer_run_id@
    &&& d.kind@ == text_field(reference, kind_names())->0
    &&& d.locator@ == locator
    &&& d.artifact_id@ == match text_field(reference, artifact_id_names()) {
        Some(a) => a,
        None => locator,
    }
    &&& opt_text(d.digest) == text_field(reference, digest_names())
    &&& opt_text(d.media_type) == artifact_media_type(reference, locator)
    &&& d.declared_byte_size == declared_size(reference)
    &&& d.sequence == saturating_i64(event.sequence_number)
    &&& opt_text(d.work_item_id) == work_item_id_of(item_view(event.item), event.delta@)
    &&& opt_text(d.rollout_id) == rollout_id_of(item_view(event.item), event.delta@, reference)
    &&& d.declared_at@ == event.occurred_at@
}

/// The artifact a reference of an event declares.
pub fn artifact_declaration(event: &ArtifactEvent, reference: &JsonValue) -> (r: Option<
    ArtifactDeclaration,
>)
    ensures
        r is Some <==> declares_artifact(reference@),
        match r {
            Some(d) => declaration_matches(d, *event, reference@),
            None => true,
        },
{
    if !matches!(reference, JsonValue::Object(_)) {
        return None;
    }
    let kind_keys = vec!["kind", "type"];
    assert(views_of(kind_keys@) =~= kind_names());
    let kind = match string_field(reference, &kind_keys) {
        Some(k) => k,
        None => return None,
    };
    let locator_keys = vec!["id", "refId", "ref_id", "path", "uri", "casDigest", "cas_digest"];
    assert(views_of(locator_keys@) =~= locator_names());
    let locator = match string_field(reference, &locator_keys) {
        Some(l) => l,
        None => return None,
    };
    let id_keys = vec!["artifactId", "artifact_id"];
    assert(views_of(id_keys@) =~= artifact_id_names());
    let artifact_id = match string_field(reference, &id_keys) {
        Some(a) => a,
        None => locator.clone(),
    };
    let digest_keys = vec!["digest", "sha256", "casDigest", "cas_digest"];
    assert(views_of(digest_keys@) =~= digest_names());
    let digest = string_field(reference, &digest_keys);
    let media = media_type(reference, locator.as_str());
    let size_keys = vec!["byteSize", "byte_size", "bytes"];
    assert(views_of(size_keys@) =~= byte_size_names());
    let declared_byte_size = match first_present(reference, &size_keys) {
        Some(v) => v.as_u64(),
        None => None,
    };
    let sequence: i64 = if event.sequence_number <= i64::MAX as u64 {
        event.sequence_number as i64
    } else {
        i64::MAX
    };
    Some(ArtifactDeclaration {
        optimizer_run_id: event.optimizer_run_id.clone(),
        artifact_id,
        sequence,
        work_item_id: event_work_item_id(event),
        rollout_id: event_rollout_id(event, reference),
        kind,
        locator,
        digest,
        media_type: media,
        declared_byte_size,
        declared_at: event.occurred_at.clone(),
    })
}

/// A size as the index stores it: one that does not fit an `i64` is not
/// stored.
pub fn stored_byte_size(size: Option<u64>) -> (r: Option<i64>)
    ensures
        r == match size {
            Some(n) => if n <= i64::MAX as u64 {
                Some(n as i64)
            } else {
                None
            },
            None => None,
        },
{
    match size {
        Some(n) => if n <= i64::MAX as u64 {
            Some(n as i64)
        } else {
            None
        },
        None => None,
    }
}

/// An artifact identity that an event declared again from another locator.
#[derive(Debug)]
pub struct ArtifactRedeclared {
    pub optimizer_run_id: String,
    pub artifact_id: String,
    pub existing_locator: String,
    pub locator: String,
}

/// A declaration that the index already holds is accepted again only from the
/// same locator: an artifact identity never moves.
pub fn check_redeclaration(declaration: &ArtifactDeclaration, existing_locator: &str) -> (r: Result<
    (),
    ArtifactRedeclared,
>)
    ensures
        r is Ok <==> existing_locator@ == declaration.locator@,
        match r {
            Err(e) => e.optimizer_run_id@ == declaration.optimizer_run_id@ && e.artifact_id@
                == declaration.artifact_id@ && e.existing_locator@ == existing_locator@
                && e.locator@ == declaration.locator@,
            Ok(_) => true,
        },
{
    if same_text(existing_locator, declaration.locator.as_str()) {
        Ok(())
    } else {
        Err(ArtifactRedeclared {
            optimizer_run_id: declaration.optimizer_run_id.clone(),
            artifact_id: declaration.artifact_id.clone(),
            existing_locator: String::from_str(existing_locator),
            locator: declaration.locator.clone(),
        })
    }
}

// ---------------------------------------------------------------------------
// Encodings
// ---------------------------------------------------------------------------

/// A six-bit value in the standard base64 alphabet.
pub open spec fn base64_digit(v: nat) -> char {
    if v < 26 {
        (65 + v) as char
    } else if v < 52 {
        (71 + v) as char
    } else if v < 62 {
        (v - 4) as char
    } else if v == 62 {
        '+'
    } else {
        '/'
    }
}

/// Standard padded base64: each group of three bytes becomes four digits, and
/// a final group of one or two bytes is padded with `=` to four characters.
pub open spec fn base64_of(bytes: Seq<u8>) -> Seq<char>
    decreases bytes.len(),
{
    if bytes.len() == 0 {
        Seq::empty()
    } else if bytes.len() == 1 {
        let a = bytes[0] as nat;
        seq![base64_digit(a / 4), base64_digit((a % 4) * 16), '=', '=']
    } else if bytes.len() == 2 {
        let (a, b) = (bytes[0] as nat, bytes[1] as nat);
        seq![base64_digit(a / 4), base64_digit((a % 4) * 16 + b / 16), base64_digit((b % 16) * 4), '=']
    } else {
        let (a, b, c) = (bytes[0] as nat, bytes[1] as nat, bytes[2] as nat);
        seq![
            base64_digit(a / 4),
            base64_digit((a % 4) * 16 + b / 16),
            base64_digit((b % 16) * 4 + c / 64),
            base64_digit(c % 64),
        ] + base64_of(bytes.subrange(3, bytes.len() as int))
    }
}

/// Trusted: `base64::engine::general_purpose::STANDARD.encode` renders the
/// bytes in the standard alphabet with padding, as `base64_of` spells out,
/// four characters for each started group of three bytes. It panics only
/// where that length overflows `usize`, which `requires` rules out.
#[verifier::external_body]
pub(crate) fn encode_base64(bytes: &[u8]) -> (r: String)
    requires
        bytes@.len() / 3 * 4 + 4 <= usize::MAX,
    ensures
        r@ == base64_of(bytes@),
        r@.len() == 4 * ((bytes@.len() + 2) / 3),
{
    base64::engine::general_purpose::STANDARD.encode(bytes)
}

/// Names the text that `Debug` renders for a string: the string quoted, with
/// quotes, backslashes and control characters escaped.
pub uninterp spec fn debug_text_of(s: Seq<char>) -> Seq<char>;

/// Trusted: `<str as Debug>::fmt`, through `format!("{:?}")`; the text depends
/// on the string alone.
#[verifier::external_body]
pub(crate) fn debug_text(s: &str) -> (r: String)
    ensures
        r@ == debug_text_of(s@),
{
    format!("{:?}", s)
}

// ---------------------------------------------------------------------------
// The index, read back
// ---------------------------------------------------------------------------

/// A declared artifact as the index returns it.
#[derive(Debug)]
pub struct RunArtifact {
    pub optimizer_run_id: String,
    pub artifact_id: String,
    pub sequence: u64,
    pub work_item_id: Option<String>,
    pub rollout_id: Option<String>,
    pub kind: String,
    pub locator: String,
    pub digest: Option<String>,
    pub media_type: Option<String>,
    pub byte_size: Option<u64>,
    pub metadata: JsonValue,
    pub declared_at: String,
}

impl RunArtifact {
    /// An artifact from its stored row; a negative stored number reads as
    /// zero.
    pub fn from_row(
        optimizer_run_id: String,
        artifact_id: String,
        sequence: i64,
        work_item_id: Option<String>,
        rollout_id: Option<String>,
        kind: String,
        locator: String,
        digest: Option<String>,
        media_type: Option<String>,
        byte_size: Option<i64>,
        metadata: JsonValue,
        declared_at: String,
    ) -> (r: RunArtifact)
        ensures
            r.optimizer_run_id == optimizer_run_id,
            r.artifact_id == artifact_id,
            r.sequence == (if sequence < 0 { 0 } else { sequence as u64 }),
            r.work_item_id == work_item_id,
            r.rollout_id == rollout_id,
            r.kind == kind,
            r.locator == locator,
            r.digest == digest,
            r.media_type == media_type,
            r.byte_size == match byte_size {
                Some(n) => Some(if n < 0 { 0u64 } else { n as u64 }),
                None => None,
            },
            r.metadata == metadata,
            r.declared_at == declared_at,
    {
        RunArtifact {
            optimizer_run_id,
            artifact_id,
            sequence: if sequence < 0 { 0 } else { sequence as u64 },
            work_item_id,
            rollout_id,
            kind,
            locator,
            digest,
            media_type,
            byte_size: match byte_size {
                Some(n) => Some(if n < 0 { 0 } else { n as u64 }),
                None => None,
            },
            metadata,
            declared_at,
        }
    }
}

pub const ARTIFACT_PAGE_SCHEMA_VERSION: &'static str = "optimizer_artifact_page.v1";

/// One page of a run's artifacts.
#[derive(Debug)]
pub struct ArtifactPage {
    pub schema_version: String,
    pub optimizer_run_id: String,
    pub after_sequence: u64,
    pub artifacts: Vec<RunArtifact>,
    pub next_sequence: u64,
}

/// The bounds a page query runs with: the cursor as an `i64`, the largest
/// `i64` where it does not fit, and the limit held between 1 and 500.
pub fn page_query(after_sequence: u64, limit: i64) -> (r: (i64, i64))
    ensures
        r.0 == saturating_i64(after_sequence),
        r.1 == (if limit < 1 {
            1
        } else if limit > 500 {
            500
        } else {
            limit
        }),
{
    let cursor: i64 = if after_sequence <= i64::MAX as u64 {
        after_sequence as i64
    } else {
        i64::MAX
    };
    let bounded: i64 = if limit < 1 {
        1
    } else if limit > 500 {
        500
    } else {
        limit
    };
    (cursor, bounded)
}

/// A page of artifacts; the next cursor is the last artifact's sequence, or
/// the cursor the page was read after where the page is empty.
pub fn artifact_page(optimizer_run_id: &str, after_sequence: u64, artifacts: Vec<RunArtifact>) -> (r:
    ArtifactPage)
    ensures
        r.schema_version@ == ARTIFACT_PAGE_SCHEMA_VERSION@,
        r.optimizer_run_id@ == optimizer_run_id@,
        r.after_sequence == after_sequence,
        r.artifacts@ == artifacts@,
        r.next_sequence == (if artifacts@.len() == 0 {
            after_sequence
        } else {
            artifacts@.last().sequence
        }),
{
    let next_sequence = if artifacts.len() == 0 {
        after_sequence
    } else {
        artifacts[artifacts.len() - 1].sequence
    };
    ArtifactPage {
        schema_version: String::from_str(ARTIFACT_PAGE_SCHEMA_VERSION),
        optimizer_run_id: String::from_str(optimizer_run_id),
        after_sequence,
        artifacts,
        next_sequence,
    }
}

// ---------------------------------------------------------------------------
// Byte ranges
// ---------------------------------------------------------------------------

pub const MAX_RANGE_BYTES: u64 = 1048576;

pub const ARTIFACT_RANGE_SCHEMA_VERSION: &'static str = "optimizer_artifact_range.v1";

/// The media types whose bytes may be streamed.
pub open spec fn safe_media_types() -> Seq<Seq<char>> {
    seq!["application/json"@, "image/png"@, "video/mp4"@]
}

/// Why a byte range was refused.
#[derive(Debug, PartialEq, Eq)]
pub enum RangeRefusal {
    LengthOutOfBounds,
    NoMediaType,
    NotStreamable(String),
    NotAbsolute,
    NotRegularFile,
    StartsBeyondEnd,
}

impl RangeRefusal {
    /// The refusal as the caller reads it.
    pub fn message(&self) -> (r: String)
        ensures
            r@ == match *self {
                RangeRefusal::LengthOutOfBounds => "artifact byte range length must be between 1 and 1048576"@,
                RangeRefusal::NoMediaType => "artifact has no declared or inferable media type"@,
                RangeRefusal::NotStreamable(t) => "artifact media type "@ + debug_text_of(t@) + " is not byte-streamable"@,
                RangeRefusal::NotAbsolute => "artifact locator is not an absolute local file"@,
                RangeRefusal::NotRegularFile => "artifact locator must be a regular non-symlink file"@,
                RangeRefusal::StartsBeyondEnd => "artifact byte range starts beyond end of file"@,
            },
    {
        match self {
            RangeRefusal::LengthOutOfBounds => String::from_str("artifact byte range length must be between 1 and 1048576"),
            RangeRefusal::NoMediaType => String::from_str("artifact has no declared or inferable media type"),
            RangeRefusal::NotStreamable(t) => {
                let quoted = debug_text(t.as_str());
                crate::text::concat3("artifact media type ", quoted.as_str(), " is not byte-streamable")
            },
            RangeRefusal::NotAbsolute => String::from_str("artifact locator is not an absolute local file"),
            RangeRefusal::NotRegularFile => String::from_str("artifact locator must be a regular non-symlink file"),
            RangeRefusal::StartsBeyondEnd => String::from_str("artifact byte range starts beyond end of file"),
        }
    }
}

/// A range is between one byte and the ceiling long.
pub fn check_range_length(length: u64) -> (r: Result<(), RangeRefusal>)
    ensures
        r is Ok <==> 1 <= length <= MAX_RANGE_BYTES,
        r matches Err(e) ==> e == RangeRefusal::LengthOutOfBounds,
{
    if length == 0 || length > MAX_RANGE_BYTES {
        Err(RangeRefusal::LengthOutOfBounds)
    } else {
        Ok(())
    }
}

/// Only an artifact with a streamable media type is served.
pub fn streamable_media_type(media_type: Option<&str>) -> (r: Result<(), RangeRefusal>)
    ensures
        r is Ok <==> (media_type matches Some(t) && safe_media_types().contains(t@)),
        match r {
            Err(RangeRefusal::NoMediaType) => media_type is None,
            Err(RangeRefusal::NotStreamable(t)) => media_type matches Some(m) && t@ == m@,
            Err(_) => false,
            Ok(_) => true,
        },
{
    match media_type {
        None => Err(RangeRefusal::NoMediaType),
        Some(t) => {
            let safe = same_text(t, "application/json") || same_text(t, "image/png") || same_text(
                t,
                "video/mp4",
            );
            proof {
                let s = safe_media_types();
                if s.contains(t@) {
                    let k = choose|k: int| 0 <= k < s.len() && s[k] == t@;
                    assert(0 <= k < 3);
                }
                assert(s[0] == "application/json"@ && s[1] == "image/png"@ && s[2] == "video/mp4"@);
            }
            if safe {
                Ok(())
            } else {
                Err(RangeRefusal::NotStreamable(String::from_str(t)))
            }
        },
    }
}

/// The local path a locator names, without a `file://` scheme.
pub fn locator_path(locator: &str) -> (r: String)
    ensures
        r@ == if has_prefix(locator@, "file://"@) {
            locator@.subrange(7, locator@.len() as int)
        } else {
            locator@
        },
{
    let chars = chars_of(locator);
    let scheme = chars_of("file://");
    proof {
        reveal_strlit("file://");
    }
    if crate::text::starts_with_chars(&chars, &scheme) {
        let mut rest: Vec<char> = Vec::new();
        let mut i: usize = 7;
        while i < chars.len()
            invariant
                7 <= i <= chars@.len(),
                rest@ == chars@.subrange(7, i as int),
            decreases chars@.len() - i,
        {
            rest.push(chars[i]);
            assert(chars@.subrange(7, i + 1) =~= chars@.subrange(7, i as int).push(chars@[i as int]));
            i = i + 1;
        }
        string_of(&rest)
    } else {
        String::from_str(locator)
    }
}

/// Where a range falls in a file of `total_bytes`: the bytes it covers, the
/// request cut at the end of the file, and whether it reaches that end. Only
/// a regular file that is not a link is read, and a range may not start past
/// its end.
pub fn file_range(is_symlink: bool, is_file: bool, total_bytes: u64, offset: u64, length: u64) -> (r:
    Result<(u64, bool), RangeRefusal>)
    ensures
        match r {
            Ok((byte_length, eof)) => {
                &&& !is_symlink && is_file && offset <= total_bytes
                &&& byte_length == if length < total_bytes - offset {
                    length
                } else {
                    (total_bytes - offset) as u64
                }
                &&& eof == (offset + byte_length >= total_bytes)
            },
            Err(e) => (e == RangeRefusal::NotRegularFile && (is_symlink || !is_file)) || (e
                == RangeRefusal::StartsBeyondEnd && !is_symlink && is_file && offset > total_bytes),
        },
{
    if is_symlink || !is_file {
        return Err(RangeRefusal::NotRegularFile);
    }
    if offset > total_bytes {
        return Err(RangeRefusal::StartsBeyondEnd);
    }
    let available = total_bytes - offset;
    let byte_length = if length < available {
        length
    } else {
        available
    };
    Ok((byte_length, offset + byte_length >= total_bytes))
}

/// A served byte range, its bytes in base64.
#[derive(Debug)]
pub struct ArtifactRange {
    pub schema_version: String,
    pub optimizer_run_id: String,
    pub artifact_id: String,
    pub media_type: String,
    pub offset: u64,
    pub byte_length: u64,
    pub total_bytes: u64,
    pub eof: bool,
    pub data_base64: String,
}

/// The range as served, from the bytes read at `offset`.
pub fn artifact_range(
    optimizer_run_id: &str,
    artifact_id: &str,
    media_type: &str,
    offset: u64,
    total_bytes: u64,
    eof: bool,
    bytes: &[u8],
) -> (r: ArtifactRange)
    requires
        bytes@.len() <= MAX_RANGE_BYTES,
    ensures
        r.schema_version@ == ARTIFACT_RANGE_SCHEMA_VERSION@,
        r.optimizer_run_id@ == optimizer_run_id@,
        r.artifact_id@ == artifact_id@,
        r.media_type@ == media_type@,
        r.offset == offset,
        r.byte_length == bytes@.len(),
        r.total_bytes == total_bytes,
        r.eof == eof,
        r.data_base64@ == base64_of(bytes@),
{
    ArtifactRange {
        schema_version: String::from_str(ARTIFACT_RANGE_SCHEMA_VERSION),
        optimizer_run_id: String::from_str(optimizer_run_id),
        artifact_id: String::from_str(artifact_id),
        media_type: String::from_str(media_type),
        offset,
        byte_length: bytes.len() as u64,
        total_bytes,
        eof,
        data_base64: encode_base64(bytes),
    }
}

} // verus!
