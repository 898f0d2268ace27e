//! The decisions of the one-way import of a retired local-runtime database:
//! where to look for one, whether a file is one, how imported records are
//! tallied and identified, and how a confirmed import plan is consumed.
//! Reading files and databases stays with the caller.

use crate::admission::canonical::{sha256, sha256_of};
use crate::json::{insert_entry, insert_sorted, JsonValue, JsonView};
use crate::text::{
    concat, concat3, decimal, has_prefix, hex_bytes, hex_text, i64_to_string, same_text,
    signed_decimal, text_prefix, u64_to_string,
};
use vstd::prelude::*;

verus! {

/// The schema a migration receipt carries.
pub const RECEIPT_SCHEMA: &'static str = "synth.legacy-migration-receipt.v1";

/// The tables of a legacy runtime database, in import order.
pub open spec fn expected_table_names() -> Seq<Seq<char>> {
    seq![
        "projects"@,
        "sessions"@,
        "runs"@,
        "events"@,
        "cursors"@,
        "containers"@,
        "traces"@,
        "visuals"@,
        "usage_ledger"@,
    ]
}

pub fn expected_tables() -> (r: Vec<&'static str>)
    ensures
        r@.map_values(|t: &'static str| t@) == expected_table_names(),
{
    let r = vec![
        "projects",
        "sessions",
        "runs",
        "events",
        "cursors",
        "containers",
        "traces",
        "visuals",
        "usage_ledger",
    ];
    assert(r@.map_values(|t: &'static str| t@) =~= expected_table_names());
    r
}

/// `rel` adjoined to `base`: an absolute `rel` replaces `base`, and exactly one
/// separator stands between the two.
pub open spec fn joined_path(base: Seq<char>, rel: Seq<char>) -> Seq<char> {
    if has_prefix(rel, "/"@) || base.len() == 0 {
        rel
    } else if has_prefix(base.subrange(base.len() - 1, base.len() as int), "/"@) {
        base + rel
    } else {
        base + "/"@ + rel
    }
}

pub fn join_path(base: &str, rel: &str) -> (r: String)
    ensures
        r@ == joined_path(base@, rel@),
{
    proof {
        reveal_strlit("/");
    }
    if crate::text::starts_with(rel, "/") {
        return String::from_str(rel);
    }
    let base_chars = crate::text::chars_of(base);
    if base_chars.len() == 0 {
        return String::from_str(rel);
    }
    let last = base_chars[base_chars.len() - 1];
    let ghost tail = base@.subrange(base@.len() - 1, base@.len() as int);
    assert(tail.len() == 1 && tail[0] == last);
    assert("/"@.len() == 1 && "/"@[0] == '/');
    assert(has_prefix(tail, "/"@) <==> last == '/') by {
        if last == '/' {
            assert(tail.subrange(0, 1) =~= "/"@);
        } else {
            assert(tail.subrange(0, 1)[0] != "/"@[0]);
        }
    }
    if last == '/' {
        concat(base, rel)
    } else {
        concat3(base, "/", rel)
    }
}

/// Where releases of the retired runtime kept their database, live data
/// directory first.
pub open spec fn legacy_candidate_paths(home: Seq<char>) -> Seq<Seq<char>> {
    let runtime = joined_path(home, ".synth-desktop/runtime"@);
    seq![
        joined_path(runtime, "data/runtime.sqlite3"@),
        joined_path(runtime, "runtime.sqlite3"@),
        joined_path(runtime, "mcp-data/runtime.sqlite3"@),
    ]
}

pub fn legacy_candidates_for_home(home: &str) -> (r: Vec<String>)
    ensures
        r@.map_values(|p: String| p@) == legacy_candidate_paths(home@),
{
    let runtime = join_path(home, ".synth-desktop/runtime");
    let r = vec![
        join_path(runtime.as_str(), "data/runtime.sqlite3"),
        join_path(runtime.as_str(), "runtime.sqlite3"),
        join_path(runtime.as_str(), "mcp-data/runtime.sqlite3"),
    ];
    assert(r@.map_values(|p: String| p@) =~= legacy_candidate_paths(home@));
    r
}

/// A stored path: an absolute one as is, a relative one under the source root.
pub fn resolve_legacy_path(raw: &str, source_root: &str) -> (r: String)
    ensures
        r@ == if has_prefix(raw@, "/"@) {
            raw@
        } else {
            joined_path(source_root@, raw@)
        },
{
    join_path(source_root, raw)
}

/// The event sources the current runtime knows; any other becomes `local`.
pub open spec fn normalized_source(source: Seq<char>) -> Seq<char> {
    if source == "remote"@ {
        "remote"@
    } else if source == "intern"@ {
        "intern"@
    } else if source == "codex"@ {
        "codex"@
    } else if source == "system"@ {
        "system"@
    } else if source == "mlx"@ {
        "mlx"@
    } else if source == "visual"@ {
        "visual"@
    } else {
        "local"@
    }
}

pub fn normalize_source(source: &str) -> (r: &'static str)
    ensures
        r@ == normalized_source(source@),
{
    if same_text(source, "remote") {
        "remote"
    } else if same_text(source, "intern") {
        "intern"
    } else if same_text(source, "codex") {
        "codex"
    } else if same_text(source, "system") {
        "system"
    } else if same_text(source, "mlx") {
        "mlx"
    } else if same_text(source, "visual") {
        "visual"
    } else {
        "local"
    }
}

/// What inspecting a candidate file found.
#[derive(Clone, Debug)]
pub struct LegacyDetection {
    pub source_path: String,
    pub exists: bool,
    pub is_legacy_runtime: bool,
    pub tables: Vec<String>,
    pub warnings: Vec<String>,
}

/// The warning for an expected table a database lacks.
pub open spec fn missing_table_warning(table: Seq<char>) -> Seq<char> {
    "legacy database has no "@ + table + " table; it will be skipped"@
}

/// The warnings for the expected tables among the first `n` that are absent.
pub open spec fn missing_table_warnings(tables: Seq<Seq<char>>, n: nat) -> Seq<Seq<char>>
    decreases n,
{
    if n == 0 || n > 9 {
        Seq::empty()
    } else {
        let before = missing_table_warnings(tables, (n - 1) as nat);
        let expected = expected_table_names()[n - 1];
        if tables.contains(expected) {
            before
        } else {
            before.push(missing_table_warning(expected))
        }
    }
}

/// The detection for a path that is not a file.
pub fn absent_detection(source_path: String) -> (r: LegacyDetection)
    ensures
        r.source_path@ == source_path@,
        !r.exists,
        !r.is_legacy_runtime,
        r.tables@.len() == 0,
        r.warnings@.len() == 0,
{
    LegacyDetection {
        source_path,
        exists: false,
        is_legacy_runtime: false,
        tables: Vec::new(),
        warnings: Vec::new(),
    }
}

/// The detection for an existing database with these tables: a legacy runtime
/// database has a `sessions` table and an `events` table of the legacy shape,
/// and each expected table it lacks is reported.
pub fn detection_from_tables(
    source_path: String,
    tables: Vec<String>,
    has_legacy_events: bool,
) -> (r: LegacyDetection)
    ensures
        r.source_path@ == source_path@,
        r.exists,
        r.is_legacy_runtime == (crate::text::texts_of(tables@).contains("sessions"@)
            && has_legacy_events),
        r.tables == tables,
        r.warnings@.map_values(|w: String| w@) == missing_table_warnings(
            crate::text::texts_of(tables@),
            9,
        ),
{
    let expected = expected_tables();
    assert(expected@.len() == expected_table_names().len());
    let has_sessions = crate::admission::pipeline::has_operation(tables.as_slice(), "sessions");
    let mut warnings: Vec<String> = Vec::new();
    let mut i: usize = 0;
    while i < expected.len()
        invariant
            i <= expected.len(),
            expected@.len() == 9,
            expected@.map_values(|t: &'static str| t@) == expected_table_names(),
            warnings@.map_values(|w: String| w@) == missing_table_warnings(
                crate::text::texts_of(tables@),
                i as nat,
            ),
        decreases expected.len() - i,
    {
        assert(expected@.map_values(|t: &'static str| t@)[i as int] == expected@[i as int]@);
        assert(expected_table_names()[i as int] == expected@[i as int]@);
        let ghost before = warnings@;
        let ghost prior = missing_table_warnings(crate::text::texts_of(tables@), i as nat);
        assert(missing_table_warnings(crate::text::texts_of(tables@), (i + 1) as nat) == if crate::text::texts_of(
            tables@,
        ).contains(expected@[i as int]@) {
            prior
        } else {
            prior.push(missing_table_warning(expected@[i as int]@))
        });
        if !crate::admission::pipeline::has_operation(tables.as_slice(), expected[i]) {
            warnings.push(concat3("legacy database has no ", expected[i], " table; it will be skipped"));
            assert(warnings@.map_values(|w: String| w@) =~= before.map_values(|w: String| w@).push(
                missing_table_warning(expected@[i as int]@),
            ));
        }
        i = i + 1;
    }
    LegacyDetection {
        source_path,
        exists: true,
        is_legacy_runtime: has_sessions && has_legacy_events,
        tables,
        warnings,
    }
}


// ---------------------------------------------------------------------------
// Identities and fingerprints
// ---------------------------------------------------------------------------

/// The lowercase hexadecimal SHA-256 of a text's UTF-8 bytes.
pub open spec fn text_sha256_hex(s: Seq<char>) -> Seq<char> {
    hex_bytes(sha256_of(vstd::utf8::encode_utf8(s)))
}

pub(crate) fn sha256_hex_of_text(s: &str) -> (r: String)
    ensures
        r@ == text_sha256_hex(s@),
        r@.len() == 64,
{
    let digest = sha256(s.as_bytes());
    proof {
        crate::text::lemma_hex_bytes_len(digest@);
    }
    hex_text(&digest)
}

/// The identity of a source database: the digest of its canonical path.
pub fn source_identity(canonical_path: &str) -> (r: String)
    ensures
        r@ == text_sha256_hex(canonical_path@),
{
    sha256_hex_of_text(canonical_path)
}

/// The fingerprint of a file's bytes.
pub fn fingerprint_bytes(bytes: &[u8]) -> (r: String)
    ensures
        r@ == "sha256:"@ + hex_bytes(sha256_of(bytes@)),
{
    let digest = sha256(bytes);
    let hex = hex_text(&digest);
    concat("sha256:", hex.as_str())
}

/// The content address of a copied file: the lowercase hexadecimal SHA-256
/// of its bytes, with no prefix.
pub fn content_digest(bytes: &[u8]) -> (r: String)
    ensures
        r@ == hex_bytes(sha256_of(bytes@)),
{
    let digest = sha256(bytes);
    hex_text(&digest)
}

/// Names the compact text `serde_json` prints for JSON text that parses
/// (`Value::to_string` of `from_str`), and none for text that does not.
pub uninterp spec fn serde_compact_text(raw: Seq<char>) -> Option<Seq<char>>;

/// Trusted: parses the text as a `serde_json::Value` and prints it back in
/// `serde_json`'s compact form; `None` where the text does not parse. The
/// result depends on the text alone.
#[verifier::external_body]
fn compact_json_text(raw: &str) -> (r: Option<String>)
    ensures
        match r {
            Some(t) => serde_compact_text(raw@) == Some(t@),
            None => serde_compact_text(raw@) is None,
        },
{
    serde_json::from_str::<serde_json::Value>(raw).ok().map(|value| value.to_string())
}

/// The digest of a normalised legacy JSON column: the normalised text, or
/// `{}` for a column that did not parse.
pub fn normalized_json_digest(normalized: Option<String>) -> (r: String)
    ensures
        r@ == text_sha256_hex(
            match normalized {
                Some(t) => t@,
                None => "{}"@,
            },
        ),
{
    match normalized {
        Some(t) => sha256_hex_of_text(t.as_str()),
        None => sha256_hex_of_text("{}"),
    }
}

/// The digest of a legacy JSON column: the text is normalised to
/// `serde_json`'s compact form before hashing, and a column that does not
/// parse counts as `{}`.
pub fn json_text_digest(raw: &str) -> (r: String)
    ensures
        r@ == text_sha256_hex(
            match serde_compact_text(raw@) {
                Some(t) => t,
                None => "{}"@,
            },
        ),
{
    normalized_json_digest(compact_json_text(raw))
}

/// The entries of a stored metadata column: those of its object, or none
/// where it held no object.
pub open spec fn metadata_entries(stored: Option<JsonValue>) -> Seq<(Seq<char>, JsonView)> {
    match stored {
        Some(v) => match v@ {
            JsonView::Object(entries) => entries,
            _ => Seq::empty(),
        },
        None => Seq::empty(),
    }
}

/// A metadata column with one key set, where there is a value for it: the
/// stored object (or an empty one, where the column held none) with `key`
/// written in key order, replacing an entry of the same key.
pub fn augmented_metadata(stored: Option<JsonValue>, key: &str, value: Option<JsonValue>) -> (r: JsonValue)
    ensures
        r@ == JsonView::Object(
            match value {
                Some(v) => insert_entry(metadata_entries(stored), key@, v@),
                None => metadata_entries(stored),
            },
        ),
{
    let mut entries: Vec<(String, JsonValue)> = match stored {
        Some(JsonValue::Object(entries)) => entries,
        _ => Vec::new(),
    };
    match value {
        Some(v) => {
            insert_sorted(&mut entries, String::from_str(key), v);
        },
        None => {},
    }
    JsonValue::Object(entries)
}

/// The bytes a legacy state fingerprint covers: for each file present, its
/// path then its contents.
pub open spec fn state_bytes(parts: Seq<(String, Vec<u8>)>) -> Seq<u8>
    decreases parts.len(),
{
    if parts.len() == 0 {
        Seq::empty()
    } else {
        state_bytes(parts.drop_last()) + vstd::utf8::encode_utf8(parts.last().0@) + parts.last().1@
    }
}

/// The fingerprint of a database together with its write-ahead log.
pub fn fingerprint_legacy_state(parts: &[(String, Vec<u8>)]) -> (r: String)
    ensures
        r@ == "sha256:"@ + hex_bytes(sha256_of(state_bytes(parts@))),
{
    let mut bytes: Vec<u8> = Vec::new();
    let mut i: usize = 0;
    while i < parts.len()
        invariant
            i <= parts.len(),
            bytes@ == state_bytes(parts@.subrange(0, i as int)),
        decreases parts.len() - i,
    {
        let path_bytes = parts[i].0.as_str().as_bytes();
        let mut k: usize = 0;
        let ghost start = bytes@;
        while k < path_bytes.len()
            invariant
                k <= path_bytes.len(),
                bytes@ == start + path_bytes@.subrange(0, k as int),
            decreases path_bytes.len() - k,
        {
            bytes.push(path_bytes[k]);
            assert(path_bytes@.subrange(0, k + 1) =~= path_bytes@.subrange(0, k as int).push(
                path_bytes@[k as int],
            ));
            k = k + 1;
        }
        let content = &parts[i].1;
        let ghost middle = bytes@;
        let mut m: usize = 0;
        while m < content.len()
            invariant
                m <= content.len(),
                bytes@ == middle + content@.subrange(0, m as int),
            decreases content.len() - m,
        {
            bytes.push(content[m]);
            assert(content@.subrange(0, m + 1) =~= content@.subrange(0, m as int).push(
                content@[m as int],
            ));
            m = m + 1;
        }
        proof {
            let t = parts@.subrange(0, i + 1);
            assert(t.drop_last() =~= parts@.subrange(0, i as int));
            assert(path_bytes@.subrange(0, path_bytes@.len() as int) =~= path_bytes@);
            assert(content@.subrange(0, content@.len() as int) =~= content@);
            assert(bytes@ =~= state_bytes(t));
        }
        i = i + 1;
    }
    assert(parts@.subrange(0, parts@.len() as int) =~= parts@);
    fingerprint_bytes(bytes.as_slice())
}

/// A stable identity for an imported event, from its source, session and
/// sequence, so a retried import finds it again.
pub fn stable_event_id(source_identity: &str, session: &str, sequence: i64) -> (r: String)
    ensures
        r@ == "evt_legacy_"@ + text_sha256_hex(
            source_identity@ + ":"@ + session@ + ":"@ + signed_decimal(sequence as int),
        ).subrange(0, 32),
{
    let sequence_text = i64_to_string(sequence);
    let head = concat3(source_identity, ":", session);
    let raw = concat3(head.as_str(), ":", sequence_text.as_str());
    let hex = sha256_hex_of_text(raw.as_str());
    let short = text_prefix(hex.as_str(), 32);
    concat("evt_legacy_", short.as_str())
}

/// The id of the migration of a source: `legacy_` and the identity's first
/// twenty-four characters.
pub fn migration_id(source_identity: &str) -> (r: String)
    requires
        source_identity@.len() >= 24,
    ensures
        r@ == "legacy_"@ + source_identity@.subrange(0, 24),
{
    let short = text_prefix(source_identity, 24);
    concat("legacy_", short.as_str())
}

/// The runtime setting under which a source's receipt is stored.
pub fn receipt_setting_key(source_identity: &str) -> (r: String)
    ensures
        r@ == "legacy_migration:"@ + source_identity@,
{
    concat("legacy_migration:", source_identity)
}

/// The order in which imported rows are deleted for a manual rollback:
/// dependents before what they depend on.
pub open spec fn rollback_delete_order() -> Seq<Seq<char>> {
    seq![
        "visual_revisions"@,
        "visuals"@,
        "usage_ledger"@,
        "traces"@,
        "containers"@,
        "source_cursors"@,
        "events"@,
        "runs"@,
        "sessions"@,
        "projects"@,
    ]
}

pub fn delete_order() -> (r: Vec<String>)
    ensures
        r@.map_values(|t: String| t@) == rollback_delete_order(),
{
    let r = vec![
        String::from_str("visual_revisions"),
        String::from_str("visuals"),
        String::from_str("usage_ledger"),
        String::from_str("traces"),
        String::from_str("containers"),
        String::from_str("source_cursors"),
        String::from_str("events"),
        String::from_str("runs"),
        String::from_str("sessions"),
        String::from_str("projects"),
    ];
    assert(r@.map_values(|t: String| t@) =~= rollback_delete_order());
    r
}

/// The write-ahead-log and shared-memory companions of a database path.
pub fn sidecar_paths(path: &str) -> (r: (String, String))
    ensures
        r.0@ == path@ + "-wal"@,
        r.1@ == path@ + "-shm"@,
{
    (concat(path, "-wal"), concat(path, "-shm"))
}


// ---------------------------------------------------------------------------
// Tallies
// ---------------------------------------------------------------------------

/// What happened to the rows of one table.
#[derive(Clone, Copy, Debug, PartialEq, Eq, Structural)]
pub struct EntityCount {
    pub found: u64,
    pub imported: u64,
    pub existing: u64,
    pub skipped: u64,
}

pub open spec fn zero_count() -> EntityCount {
    EntityCount { found: 0, imported: 0, existing: 0, skipped: 0 }
}

impl Default for EntityCount {
    fn default() -> (r: Self)
        ensures
            r == zero_count(),
    {
        EntityCount { found: 0, imported: 0, existing: 0, skipped: 0 }
    }
}

/// Which count an observation bumps.
#[derive(Clone, Copy, Debug, PartialEq, Eq, Structural)]
pub enum Outcome {
    Found,
    Imported,
    Existing,
    Skipped,
}

pub open spec fn count_field(c: EntityCount, o: Outcome) -> u64 {
    match o {
        Outcome::Found => c.found,
        Outcome::Imported => c.imported,
        Outcome::Existing => c.existing,
        Outcome::Skipped => c.skipped,
    }
}

pub open spec fn bumped(c: EntityCount, o: Outcome) -> EntityCount {
    match o {
        Outcome::Found => EntityCount { found: (c.found + 1) as u64, ..c },
        Outcome::Imported => EntityCount { imported: (c.imported + 1) as u64, ..c },
        Outcome::Existing => EntityCount { existing: (c.existing + 1) as u64, ..c },
        Outcome::Skipped => EntityCount { skipped: (c.skipped + 1) as u64, ..c },
    }
}

/// The first entry named `name`.
pub open spec fn entry_index<V>(entries: Seq<(String, V)>, name: Seq<char>, i: int) -> Option<int>
    decreases entries.len() - i,
{
    if i < 0 || i >= entries.len() {
        None
    } else if entries[i].0@ == name {
        Some(i)
    } else {
        entry_index(entries, name, i + 1)
    }
}

/// The counts after one observation of `table`: its entry bumped, or a new
/// entry appended.
pub open spec fn counts_after(counts: Seq<(String, EntityCount)>, table: Seq<char>, o: Outcome) -> Seq<
    (Seq<char>, EntityCount),
> {
    let view = counts.map_values(|e: (String, EntityCount)| (e.0@, e.1));
    match entry_index(counts, table, 0) {
        Some(i) => view.update(i, (table, bumped(counts[i].1, o))),
        None => view.push((table, bumped(zero_count(), o))),
    }
}

/// The current value of one count of `table`.
pub open spec fn current_count(counts: Seq<(String, EntityCount)>, table: Seq<char>, o: Outcome) -> u64 {
    match entry_index(counts, table, 0) {
        Some(i) => count_field(counts[i].1, o),
        None => 0,
    }
}

/// The running tally of an import: counts per table, warnings, and the ids
/// inserted per table (what a manual rollback deletes).
#[derive(Debug)]
pub struct ImportTally {
    pub counts: Vec<(String, EntityCount)>,
    pub warnings: Vec<String>,
    pub imported_ids: Vec<(String, Vec<String>)>,
}

proof fn lemma_entry_index<V>(entries: Seq<(String, V)>, name: Seq<char>, j: int)
    ensures
        entry_index(entries, name, j) matches Some(i) ==> j <= i < entries.len() && entries[i].0@
            == name,
    decreases entries.len() - j,
{
    if 0 <= j < entries.len() && entries[j].0@ != name {
        lemma_entry_index(entries, name, j + 1);
    }
}

/// An entry is found exactly when some entry from `j` on carries the name.
proof fn lemma_entry_index_absent<V>(entries: Seq<(String, V)>, name: Seq<char>, j: int)
    requires
        0 <= j,
    ensures
        entry_index(entries, name, j) is None <==> forall|k: int|
            j <= k < entries.len() ==> #[trigger] entries[k].0@ != name,
    decreases entries.len() - j,
{
    if j < entries.len() {
        lemma_entry_index_absent(entries, name, j + 1);
        if entry_index(entries, name, j) is None {
            assert forall|k: int| j <= k < entries.len() implies #[trigger] entries[k].0@ != name by {
                if k > j {
                    assert(entries[k].0@ != name);
                }
            }
        }
    }
}

fn find_entry<V>(entries: &Vec<(String, V)>, name: &str) -> (r: Option<usize>)
    ensures
        match r {
            Some(i) => entry_index(entries@, name@, 0) == Some(i as int) && i < entries@.len()
                && entries@[i as int].0@ == name@,
            None => entry_index(entries@, name@, 0) is None,
        },
{
    let mut i: usize = 0;
    while i < entries.len()
        invariant
            i <= entries.len(),
            entry_index(entries@, name@, 0) == entry_index(entries@, name@, i as int),
        decreases entries.len() - i,
    {
        if same_text(entries[i].0.as_str(), name) {
            proof {
                lemma_entry_index(entries@, name@, i as int);
            }
            return Some(i);
        }
        i = i + 1;
    }
    None
}

impl ImportTally {
    /// A tally with every expected table at zero and the detection's warnings.
    pub fn new(warnings: Vec<String>) -> (r: Self)
        ensures
            r.counts@.map_values(|e: (String, EntityCount)| (e.0@, e.1)) == expected_table_names().map_values(
                |t: Seq<char>| (t, zero_count()),
            ),
            r.warnings == warnings,
            r.imported_ids@.len() == 0,
    {
        let tables = expected_tables();
        let mut counts: Vec<(String, EntityCount)> = Vec::new();
        let mut i: usize = 0;
        while i < tables.len()
            invariant
                i <= tables.len(),
                tables@.map_values(|t: &'static str| t@) == expected_table_names(),
                counts@.len() == i,
                forall|k: int|
                    0 <= k < i ==> (#[trigger] counts@[k]).0@ == tables@[k]@ && counts@[k].1
                        == zero_count(),
            decreases tables.len() - i,
        {
            counts.push((String::from_str(tables[i]), EntityCount::default()));
            i = i + 1;
        }
        assert(counts@.map_values(|e: (String, EntityCount)| (e.0@, e.1)) =~= expected_table_names().map_values(
            |t: Seq<char>| (t, zero_count()),
        )) by {
            assert forall|k: int| 0 <= k < counts@.len() implies expected_table_names()[k] == tables@[k]@ by {
                assert(tables@.map_values(|t: &'static str| t@)[k] == tables@[k]@);
            }
        }
        ImportTally { counts, warnings, imported_ids: Vec::new() }
    }

    fn bump(&mut self, table: &str, outcome: Outcome)
        requires
            current_count(old(self).counts@, table@, outcome) < u64::MAX,
        ensures
            final(self).counts@.map_values(|e: (String, EntityCount)| (e.0@, e.1)) == counts_after(
                old(self).counts@,
                table@,
                outcome,
            ),
            final(self).warnings == old(self).warnings,
            final(self).imported_ids == old(self).imported_ids,
    {
        let ghost before = self.counts@;
        match find_entry(&self.counts, table) {
            Some(i) => {
                let (name, count) = self.counts.remove(i);
                let next = match outcome {
                    Outcome::Found => EntityCount { found: count.found + 1, ..count },
                    Outcome::Imported => EntityCount { imported: count.imported + 1, ..count },
                    Outcome::Existing => EntityCount { existing: count.existing + 1, ..count },
                    Outcome::Skipped => EntityCount { skipped: count.skipped + 1, ..count },
                };
                self.counts.insert(i, (name, next));
                assert(self.counts@.map_values(|e: (String, EntityCount)| (e.0@, e.1)) =~= counts_after(
                    before,
                    table@,
                    outcome,
                ));
            },
            None => {
                let base = EntityCount::default();
                let next = match outcome {
                    Outcome::Found => EntityCount { found: 1, ..base },
                    Outcome::Imported => EntityCount { imported: 1, ..base },
                    Outcome::Existing => EntityCount { existing: 1, ..base },
                    Outcome::Skipped => EntityCount { skipped: 1, ..base },
                };
                self.counts.push((String::from_str(table), next));
                assert(self.counts@.map_values(|e: (String, EntityCount)| (e.0@, e.1)) =~= counts_after(
                    before,
                    table@,
                    outcome,
                ));
            },
        }
    }

    /// A source row of `table` was read.
    pub fn found(&mut self, table: &str)
        requires
            current_count(old(self).counts@, table@, Outcome::Found) < u64::MAX,
        ensures
            final(self).counts@.map_values(|e: (String, EntityCount)| (e.0@, e.1)) == counts_after(
                old(self).counts@,
                table@,
                Outcome::Found,
            ),
            final(self).warnings == old(self).warnings,
            final(self).imported_ids == old(self).imported_ids,
    {
        self.bump(table, Outcome::Found);
    }

    /// A row already present in the destination was left as it was.
    pub fn existing(&mut self, table: &str)
        requires
            current_count(old(self).counts@, table@, Outcome::Existing) < u64::MAX,
        ensures
            final(self).counts@.map_values(|e: (String, EntityCount)| (e.0@, e.1)) == counts_after(
                old(self).counts@,
                table@,
                Outcome::Existing,
            ),
            final(self).warnings == old(self).warnings,
            final(self).imported_ids == old(self).imported_ids,
    {
        self.bump(table, Outcome::Existing);
    }

    /// A row could not be imported; the reason joins the warnings.
    pub fn skipped(&mut self, table: &str, warning: String)
        requires
            current_count(old(self).counts@, table@, Outcome::Skipped) < u64::MAX,
        ensures
            final(self).counts@.map_values(|e: (String, EntityCount)| (e.0@, e.1)) == counts_after(
                old(self).counts@,
                table@,
                Outcome::Skipped,
            ),
            final(self).warnings@ == old(self).warnings@.push(warning),
            final(self).imported_ids == old(self).imported_ids,
    {
        self.bump(table, Outcome::Skipped);
        self.warnings.push(warning);
    }

    /// A row was inserted under `id`; the id is kept for rollback.
    pub fn imported(&mut self, table: &str, id: String)
        requires
            current_count(old(self).counts@, table@, Outcome::Imported) < u64::MAX,
        ensures
            final(self).counts@.map_values(|e: (String, EntityCount)| (e.0@, e.1)) == counts_after(
                old(self).counts@,
                table@,
                Outcome::Imported,
            ),
            final(self).warnings == old(self).warnings,
            match entry_index(old(self).imported_ids@, table@, 0) {
                Some(i) => final(self).imported_ids@.len() == old(self).imported_ids@.len()
                    && final(self).imported_ids@[i].0@ == table@
                    && final(self).imported_ids@[i].1@ == old(self).imported_ids@[i].1@.push(id)
                    && forall|k: int|
                    0 <= k < old(self).imported_ids@.len() && k != i ==> #[trigger] final(self).imported_ids@[k]
                        == old(self).imported_ids@[k],
                None => final(self).imported_ids@.len() == old(self).imported_ids@.len() + 1
                    && final(self).imported_ids@.last().0@ == table@
                    && final(self).imported_ids@.last().1@ == seq![id]
                    && forall|k: int|
                    0 <= k < old(self).imported_ids@.len() ==> #[trigger] final(self).imported_ids@[k]
                        == old(self).imported_ids@[k],
            },
    {
        self.bump(table, Outcome::Imported);
        match find_entry(&self.imported_ids, table) {
            Some(i) => {
                let (name, mut ids) = self.imported_ids.remove(i);
                ids.push(id);
                self.imported_ids.insert(i, (name, ids));
            },
            None => {
                let mut ids: Vec<String> = Vec::new();
                ids.push(id);
                self.imported_ids.push((String::from_str(table), ids));
            },
        }
    }
}


// ---------------------------------------------------------------------------
// Plans and confirmation
// ---------------------------------------------------------------------------

/// The phrase an operator types to confirm an import of `total` records.
pub fn confirmation_phrase(total: u64) -> (r: String)
    ensures
        r@ == "IMPORT "@ + decimal(total as nat) + " LEGACY RECORDS"@,
{
    let count = u64_to_string(total);
    concat3("IMPORT ", count.as_str(), " LEGACY RECORDS")
}

pub open spec fn counts_total(counts: Seq<(String, u64)>) -> nat
    decreases counts.len(),
{
    if counts.len() == 0 {
        0
    } else {
        counts_total(counts.drop_last()) + counts.last().1 as nat
    }
}

proof fn lemma_counts_total_prefix(counts: Seq<(String, u64)>, i: int)
    requires
        0 <= i <= counts.len(),
    ensures
        counts_total(counts.subrange(0, i)) <= counts_total(counts),
    decreases counts.len() - i,
{
    if i < counts.len() {
        lemma_counts_total_prefix(counts, i + 1);
        assert(counts.subrange(0, i + 1).drop_last() =~= counts.subrange(0, i));
    } else {
        assert(counts.subrange(0, i) =~= counts);
    }
}

/// The number of records an import plan estimates.
pub fn estimated_total(counts: &[(String, u64)]) -> (r: u64)
    requires
        counts_total(counts@) <= u64::MAX,
    ensures
        r == counts_total(counts@),
{
    let mut total: u64 = 0;
    let mut i: usize = 0;
    while i < counts.len()
        invariant
            i <= counts.len(),
            counts_total(counts@) <= u64::MAX,
            total == counts_total(counts@.subrange(0, i as int)),
        decreases counts.len() - i,
    {
        proof {
            lemma_counts_total_prefix(counts@, i + 1);
            assert(counts@.subrange(0, i + 1).drop_last() =~= counts@.subrange(0, i as int));
        }
        total = total + counts[i].1;
        i = i + 1;
    }
    assert(counts@.subrange(0, counts@.len() as int) =~= counts@);
    total
}

/// Why a candidate cannot be planned for import: it does not exist, is not a
/// legacy runtime database, was already imported, or has no fingerprint.
/// Otherwise the fingerprint the plan is confirmed against.
pub open spec fn plan_outcome(
    source_display: Seq<char>,
    exists: bool,
    is_legacy: bool,
    already_migrated: bool,
    fingerprint: Option<String>,
) -> Result<Seq<char>, Seq<char>> {
    if !exists {
        Err("legacy database does not exist: "@ + source_display)
    } else if !is_legacy {
        Err("selected file is not a recognized Python local-runtime database"@)
    } else if already_migrated {
        Err("this legacy database already has a completed migration receipt"@)
    } else {
        match fingerprint {
            Some(f) => Ok(f@),
            None => Err("recognized legacy database has no fingerprint"@),
        }
    }
}

/// Only a fresh, recognised legacy database with a fingerprint is planned,
/// and its plan carries that fingerprint: a missing file, a file of another
/// kind, one without a fingerprint, and one that already has a completed
/// migration receipt are all refused.
pub proof fn law_only_an_unmigrated_legacy_database_is_planned(
    source_display: Seq<char>,
    exists: bool,
    is_legacy: bool,
    already_migrated: bool,
    fingerprint: Option<String>,
)
    ensures
        already_migrated ==> plan_outcome(source_display, exists, is_legacy, already_migrated, fingerprint) is Err,
        plan_outcome(source_display, exists, is_legacy, already_migrated, fingerprint) is Ok <==> (exists
            && is_legacy && !already_migrated && fingerprint is Some),
        plan_outcome(source_display, exists, is_legacy, already_migrated, fingerprint) matches Ok(f)
            ==> fingerprint matches Some(g) && f == g@,
{
}

pub fn plan_fingerprint(
    source_display: &str,
    exists: bool,
    is_legacy: bool,
    already_migrated: bool,
    fingerprint: Option<String>,
) -> (r: Result<String, String>)
    ensures
        match r {
            Ok(f) => plan_outcome(source_display@, exists, is_legacy, already_migrated, fingerprint)
                == Ok::<Seq<char>, Seq<char>>(f@),
            Err(m) => plan_outcome(source_display@, exists, is_legacy, already_migrated, fingerprint)
                == Err::<Seq<char>, Seq<char>>(m@),
        },
{
    if !exists {
        return Err(concat("legacy database does not exist: ", source_display));
    }
    if !is_legacy {
        return Err(String::from_str("selected file is not a recognized Python local-runtime database"));
    }
    if already_migrated {
        return Err(String::from_str("this legacy database already has a completed migration receipt"));
    }
    match fingerprint {
        Some(f) => Ok(f),
        None => Err(String::from_str("recognized legacy database has no fingerprint")),
    }
}

/// Why an import may not start: the source is missing, is not a legacy
/// runtime database, or is the destination itself.
pub open spec fn import_refusal(source_display: Seq<char>, exists: bool, is_legacy: bool, same_file: bool) -> Option<
    Seq<char>,
> {
    if !exists {
        Some("legacy database does not exist: "@ + source_display)
    } else if !is_legacy {
        Some("not a recognized Python local-runtime database: "@ + source_display)
    } else if same_file {
        Some("source and destination databases must be different"@)
    } else {
        None
    }
}

pub fn check_import(source_display: &str, exists: bool, is_legacy: bool, same_file: bool) -> (r: Result<
    (),
    String,
>)
    ensures
        match r {
            Ok(_) => import_refusal(source_display@, exists, is_legacy, same_file) is None,
            Err(m) => import_refusal(source_display@, exists, is_legacy, same_file) == Some(m@),
        },
{
    if !exists {
        return Err(concat("legacy database does not exist: ", source_display));
    }
    if !is_legacy {
        return Err(concat("not a recognized Python local-runtime database: ", source_display));
    }
    if same_file {
        return Err(String::from_str("source and destination databases must be different"));
    }
    Ok(())
}

/// A confirmed plan applies only to the source it was confirmed against.
pub fn check_unchanged(current_fingerprint: &str, confirmed_fingerprint: &str) -> (r: Result<
    (),
    String,
>)
    ensures
        match r {
            Ok(_) => current_fingerprint@ == confirmed_fingerprint@,
            Err(m) => current_fingerprint@ != confirmed_fingerprint@ && m@
                == "legacy database changed after confirmation; inspect and confirm again"@,
        },
{
    if same_text(current_fingerprint, confirmed_fingerprint) {
        Ok(())
    } else {
        Err(String::from_str("legacy database changed after confirmation; inspect and confirm again"))
    }
}

/// A plan awaiting confirmation.
#[derive(Debug)]
pub struct PendingPlan {
    pub source_db: String,
    pub source_fingerprint: String,
    pub confirmation_phrase: String,
    /// Expiry, in milliseconds since the Unix epoch.
    pub expires_at: i64,
}

impl Clone for PendingPlan {
    fn clone(&self) -> (r: Self)
        ensures
            r == *self,
    {
        PendingPlan {
            source_db: self.source_db.clone(),
            source_fingerprint: self.source_fingerprint.clone(),
            confirmation_phrase: self.confirmation_phrase.clone(),
            expires_at: self.expires_at,
        }
    }
}

/// Why a confirmation was refused.
#[derive(Clone, Copy, Debug, PartialEq, Eq, Structural)]
pub enum ConfirmationRefusal {
    TokenInvalidOrExpired,
    PhraseMismatch,
}

pub open spec fn refusal_text(r: ConfirmationRefusal) -> Seq<char> {
    match r {
        ConfirmationRefusal::TokenInvalidOrExpired => "migration confirmation token is invalid or expired"@,
        ConfirmationRefusal::PhraseMismatch => "migration confirmation phrase does not match"@,
    }
}

impl ConfirmationRefusal {
    pub fn message(self) -> (r: &'static str)
        ensures
            r@ == refusal_text(self),
    {
        match self {
            ConfirmationRefusal::TokenInvalidOrExpired => "migration confirmation token is invalid or expired",
            ConfirmationRefusal::PhraseMismatch => "migration confirmation phrase does not match",
        }
    }
}

/// The plans that have not expired at `now`, in order.
pub open spec fn live_plans(plans: Seq<(String, PendingPlan)>, now: i64) -> Seq<(String, PendingPlan)>
    decreases plans.len(),
{
    if plans.len() == 0 {
        Seq::empty()
    } else {
        let before = live_plans(plans.drop_last(), now);
        if plans.last().1.expires_at > now {
            before.push(plans.last())
        } else {
            before
        }
    }
}

/// No token names two plans.
pub open spec fn tokens_unique(plans: Seq<(String, PendingPlan)>) -> bool {
    forall|i: int, j: int|
        0 <= i < plans.len() && 0 <= j < plans.len() && i != j ==> #[trigger] plans[i].0@
            != #[trigger] plans[j].0@
}

/// Every plan still live was among the plans.
proof fn lemma_live_plans_from(plans: Seq<(String, PendingPlan)>, now: i64)
    ensures
        live_plans(plans, now).len() <= plans.len(),
        forall|k: int|
            0 <= k < live_plans(plans, now).len() ==> exists|j: int|
                0 <= j < plans.len() && #[trigger] live_plans(plans, now)[k] == plans[j],
        tokens_unique(plans) ==> tokens_unique(live_plans(plans, now)),
    decreases plans.len(),
{
    if plans.len() > 0 {
        let front = plans.drop_last();
        lemma_live_plans_from(front, now);
        let before = live_plans(front, now);
        let live = live_plans(plans, now);
        assert forall|k: int| 0 <= k < live.len() implies exists|j: int|
            0 <= j < plans.len() && #[trigger] live[k] == plans[j] by {
            if k < before.len() {
                let j = choose|j: int| 0 <= j < front.len() && before[k] == front[j];
                assert(live[k] == before[k]);
                assert(plans[j] == front[j]);
            } else {
                assert(live[k] == plans[plans.len() - 1]);
            }
        }
        if tokens_unique(plans) {
            assert(tokens_unique(front)) by {
                assert forall|i: int, j: int|
                    0 <= i < front.len() && 0 <= j < front.len() && i != j implies #[trigger] front[i].0@
                        != #[trigger] front[j].0@ by {
                    assert(front[i] == plans[i] && front[j] == plans[j]);
                }
            }
            assert forall|i: int, j: int|
                0 <= i < live.len() && 0 <= j < live.len() && i != j implies #[trigger] live[i].0@
                    != #[trigger] live[j].0@ by {
                if i < before.len() && j < before.len() {
                    assert(live[i] == before[i] && live[j] == before[j]);
                } else if i < before.len() {
                    let a = choose|a: int| 0 <= a < front.len() && before[i] == front[a];
                    assert(live[i] == plans[a]);
                    assert(live[j] == plans[plans.len() - 1]);
                } else {
                    let a = choose|a: int| 0 <= a < front.len() && before[j] == front[a];
                    assert(live[j] == plans[a]);
                    assert(live[i] == plans[plans.len() - 1]);
                }
            }
        }
    }
}

/// Removing a plan keeps the tokens unique, and leaves no plan under the
/// removed plan's token.
proof fn lemma_remove_plan(plans: Seq<(String, PendingPlan)>, i: int)
    requires
        tokens_unique(plans),
        0 <= i < plans.len(),
    ensures
        tokens_unique(plans.remove(i)),
        entry_index(plans.remove(i), plans[i].0@, 0) is None,
{
    let rest = plans.remove(i);
    assert forall|a: int, b: int|
        0 <= a < rest.len() && 0 <= b < rest.len() && a != b implies #[trigger] rest[a].0@
            != #[trigger] rest[b].0@ by {
        let x = if a < i { a } else { a + 1 };
        let y = if b < i { b } else { b + 1 };
        assert(rest[a] == plans[x] && rest[b] == plans[y]);
    }
    assert forall|k: int| 0 <= k < rest.len() implies #[trigger] rest[k].0@ != plans[i].0@ by {
        let x = if k < i { k } else { k + 1 };
        assert(rest[k] == plans[x]);
    }
    lemma_entry_index_absent(rest, plans[i].0@, 0);
}

/// A plan that a confirmation consumed can no longer be withdrawn: once
/// `take_confirmed` has removed the plan its token named, no plan is left
/// under that token, so `cancel` of it answers `false` and removes nothing.
pub proof fn law_consumed_plan_cannot_be_cancelled(
    plans: Seq<(String, PendingPlan)>,
    token: Seq<char>,
    now: i64,
)
    requires
        tokens_unique(plans),
        entry_index(live_plans(plans, now), token, 0) is Some,
    ensures
        ({
            let live = live_plans(plans, now);
            let i = entry_index(live, token, 0)->0;
            &&& tokens_unique(live.remove(i))
            &&& entry_index(live.remove(i), token, 0) is None
        }),
{
    let live = live_plans(plans, now);
    lemma_live_plans_from(plans, now);
    let i = entry_index(live, token, 0)->0;
    lemma_entry_index(live, token, 0);
    lemma_remove_plan(live, i);
}

/// Plans awaiting confirmation, by token; each token appears once.
#[derive(Debug)]
pub struct PlanRegistry {
    pub plans: Vec<(String, PendingPlan)>,
}

impl PlanRegistry {
    /// Each token names at most one plan.
    pub open spec fn well_formed(&self) -> bool {
        tokens_unique(self.plans@)
    }

    pub fn new() -> (r: Self)
        ensures
            r.plans@.len() == 0,
            r.well_formed(),
    {
        PlanRegistry { plans: Vec::new() }
    }

    /// Records a plan under its token, replacing any plan the token named.
    pub fn insert(&mut self, token: String, plan: PendingPlan)
        requires
            old(self).well_formed(),
        ensures
            final(self).well_formed(),
            match entry_index(old(self).plans@, token@, 0) {
                Some(i) => final(self).plans@ == old(self).plans@.update(i, (token, plan)),
                None => final(self).plans@ == old(self).plans@.push((token, plan)),
            },
    {
        let ghost before = self.plans@;
        match find_entry(&self.plans, token.as_str()) {
            Some(i) => {
                self.plans.set(i, (token, plan));
                assert forall|a: int, b: int|
                    0 <= a < self.plans@.len() && 0 <= b < self.plans@.len() && a != b implies #[trigger] self.plans@[a].0@
                        != #[trigger] self.plans@[b].0@ by {
                    assert(a != i ==> self.plans@[a] == before[a]);
                    assert(b != i ==> self.plans@[b] == before[b]);
                }
            },
            None => {
                proof {
                    lemma_entry_index_absent(before, token@, 0);
                }
                self.plans.push((token, plan));
                assert forall|a: int, b: int|
                    0 <= a < self.plans@.len() && 0 <= b < self.plans@.len() && a != b implies #[trigger] self.plans@[a].0@
                        != #[trigger] self.plans@[b].0@ by {
                    assert(a < before.len() ==> self.plans@[a] == before[a]);
                    assert(b < before.len() ==> self.plans@[b] == before[b]);
                }
            },
        }
    }

    /// Consumes the plan a confirmation names. Expired plans are dropped
    /// first; a missing token or a phrase that does not match is refused and
    /// consumes nothing; a matching confirmation removes its plan, so a plan
    /// is applied at most once.
    pub fn take_confirmed(&mut self, token: &str, phrase: &str, now: i64) -> (r: Result<
        PendingPlan,
        ConfirmationRefusal,
    >)
        requires
            old(self).well_formed(),
        ensures
            final(self).well_formed(),
            ({
                let live = live_plans(old(self).plans@, now);
                match entry_index(live, token@, 0) {
                    None => r == Err::<PendingPlan, ConfirmationRefusal>(
                        ConfirmationRefusal::TokenInvalidOrExpired,
                    ) && final(self).plans@ == live,
                    Some(i) => if live[i].1.confirmation_phrase@ != phrase@ {
                        r == Err::<PendingPlan, ConfirmationRefusal>(ConfirmationRefusal::PhraseMismatch)
                            && final(self).plans@ == live
                    } else {
                        r == Ok::<PendingPlan, ConfirmationRefusal>(live[i].1) && final(self).plans@
                            == live.remove(i)
                    },
                }
            }),
    {
        let mut live: Vec<(String, PendingPlan)> = Vec::new();
        let mut i: usize = 0;
        while i < self.plans.len()
            invariant
                i <= self.plans.len(),
                self.plans@ == old(self).plans@,
                live@ == live_plans(self.plans@.subrange(0, i as int), now),
            decreases self.plans.len() - i,
        {
            let ghost t = self.plans@.subrange(0, i + 1);
            assert(t.drop_last() =~= self.plans@.subrange(0, i as int));
            if self.plans[i].1.expires_at > now {
                live.push((self.plans[i].0.clone(), self.plans[i].1.clone()));
            }
            i = i + 1;
        }
        assert(self.plans@.subrange(0, self.plans@.len() as int) =~= self.plans@);
        proof {
            lemma_live_plans_from(self.plans@, now);
        }
        self.plans = live;
        match find_entry(&self.plans, token) {
            None => Err(ConfirmationRefusal::TokenInvalidOrExpired),
            Some(k) => {
                if !same_text(self.plans[k].1.confirmation_phrase.as_str(), phrase) {
                    return Err(ConfirmationRefusal::PhraseMismatch);
                }
                proof {
                    lemma_remove_plan(self.plans@, k as int);
                }
                let (_, plan) = self.plans.remove(k);
                Ok(plan)
            },
        }
    }

    /// Withdraws a plan; whether one was withdrawn.
    pub fn cancel(&mut self, token: &str) -> (r: bool)
        requires
            old(self).well_formed(),
        ensures
            final(self).well_formed(),
            match entry_index(old(self).plans@, token@, 0) {
                Some(i) => r && final(self).plans@ == old(self).plans@.remove(i),
                None => !r && final(self).plans@ == old(self).plans@,
            },
    {
        match find_entry(&self.plans, token) {
            Some(i) => {
                proof {
                    lemma_remove_plan(self.plans@, i as int);
                }
                self.plans.remove(i);
                true
            },
            None => false,
        }
    }
}


// ---------------------------------------------------------------------------
// Records handed to the desktop
// ---------------------------------------------------------------------------

/// Where an import reads from, keeps its backup, and stores content.
pub struct LegacyMigrationOptions {
    pub source_db: String,
    pub backup_dir: String,
    /// The runtime's store directory (the parent of `blobs`, `traces`, ...).
    pub content_root: String,
}

/// What a manual, auditable rollback needs: the ids this import inserted per
/// destination table, and the order in which to delete them.
pub struct RollbackMetadata {
    pub source_database: String,
    pub backup_database: String,
    pub receipt_path: String,
    pub imported_ids: Vec<(String, Vec<String>)>,
    pub delete_order: Vec<String>,
}

/// The record of one completed import.
pub struct MigrationReceipt {
    pub schema_version: String,
    pub migration_id: String,
    pub source_database: String,
    pub source_fingerprint: String,
    pub destination_database: String,
    pub started_at: String,
    pub completed_at: String,
    pub already_applied: bool,
    pub counts: Vec<(String, EntityCount)>,
    pub warnings: Vec<String>,
    pub integrity_check: String,
    pub foreign_key_violations: u64,
    pub rollback: RollbackMetadata,
}

/// A database the desktop offers to import.
pub struct LegacyCandidate {
    pub detection: LegacyDetection,
    pub source_fingerprint: Option<String>,
    pub already_migrated: bool,
}

/// A plan an operator confirms before an import starts.
pub struct MigrationPlan {
    pub confirmation_token: String,
    pub confirmation_phrase: String,
    pub source_database: String,
    pub source_fingerprint: String,
    pub destination_database: String,
    pub backup_directory: String,
    pub expires_at: String,
    pub estimated_counts: Vec<(String, u64)>,
    pub warnings: Vec<String>,
}

/// An operator's confirmation of a plan.
pub struct MigrationApplyRequest {
    pub confirmation_token: String,
    pub confirmation_phrase: String,
}

/// Whether a cancellation removed a pending plan.
pub struct MigrationCancelResult {
    pub cancelled: bool,
}

/// The warning given when a live legacy database still has WAL/SHM sidecars.
pub open spec fn sidecar_warning() -> Seq<char> {
    "SQLite WAL/SHM sidecars are present. Apply uses a consistent snapshot and imports only from that backup; close the legacy Python runtime first when possible so the confirmed counts cannot change before snapshotting."@
}

/// What the desktop shows of a candidate: for a legacy runtime database the
/// sidecar warning where sidecars are present, its fingerprint, and whether a
/// receipt for it exists; a file of another kind carries neither.
pub fn inspected_candidate(
    detection: LegacyDetection,
    sidecars_present: bool,
    fingerprint: Option<String>,
    has_receipt: bool,
) -> (r: LegacyCandidate)
    ensures
        r.detection.source_path == detection.source_path,
        r.detection.exists == detection.exists,
        r.detection.is_legacy_runtime == detection.is_legacy_runtime,
        r.detection.tables == detection.tables,
        r.detection.warnings@.map_values(|w: String| w@) == if detection.is_legacy_runtime && sidecars_present {
            detection.warnings@.map_values(|w: String| w@).push(sidecar_warning())
        } else {
            detection.warnings@.map_values(|w: String| w@)
        },
        r.source_fingerprint == if detection.is_legacy_runtime { fingerprint } else { None },
        r.already_migrated == (detection.is_legacy_runtime && has_receipt),
{
    let mut detection = detection;
    let ghost before = detection.warnings@;
    if detection.is_legacy_runtime && sidecars_present {
        detection.warnings.push(String::from_str(
            "SQLite WAL/SHM sidecars are present. Apply uses a consistent snapshot and imports only from that backup; close the legacy Python runtime first when possible so the confirmed counts cannot change before snapshotting.",
        ));
        assert(detection.warnings@.map_values(|w: String| w@) =~= before.map_values(|w: String| w@).push(
            sidecar_warning(),
        ));
    }
    let legacy = detection.is_legacy_runtime;
    LegacyCandidate {
        detection,
        source_fingerprint: if legacy { fingerprint } else { None },
        already_migrated: legacy && has_receipt,
    }
}

/// How long an unconfirmed plan stays valid, in milliseconds.
pub const PLAN_TTL_MILLIS: i64 = 600_000;

/// Plans an import of a candidate: refuses one that cannot be planned
/// (`plan_outcome`), and otherwise returns the plan shown to the operator and
/// the pending plan kept until confirmation, which expires ten minutes from
/// `now`.
pub fn prepare_plan(
    candidate: LegacyCandidate,
    source_db: &str,
    estimated_counts: Vec<(String, u64)>,
    confirmation_token: String,
    destination_database: String,
    backup_directory: String,
    now: i64,
    expires_at_text: String,
) -> (r: Result<(MigrationPlan, PendingPlan), String>)
    requires
        now <= i64::MAX - PLAN_TTL_MILLIS,
        counts_total(estimated_counts@) <= u64::MAX,
    ensures
        match r {
            Ok((plan, pending)) => {
                &&& plan_outcome(source_db@, candidate.detection.exists, candidate.detection.is_legacy_runtime,
                    candidate.already_migrated, candidate.source_fingerprint) == Ok::<Seq<char>, Seq<char>>(
                    plan.source_fingerprint@)
                &&& plan.confirmation_phrase@ == "IMPORT "@ + decimal(counts_total(estimated_counts@))
                    + " LEGACY RECORDS"@
                &&& plan.confirmation_token@ == confirmation_token@
                &&& plan.source_database@ == source_db@
                &&& plan.destination_database@ == destination_database@
                &&& plan.backup_directory@ == backup_directory@
                &&& plan.expires_at@ == expires_at_text@
                &&& plan.estimated_counts == estimated_counts
                &&& plan.warnings == candidate.detection.warnings
                &&& pending.source_db@ == source_db@
                &&& pending.source_fingerprint@ == plan.source_fingerprint@
                &&& pending.confirmation_phrase@ == plan.confirmation_phrase@
                &&& pending.expires_at == now + PLAN_TTL_MILLIS
            },
            Err(m) => plan_outcome(source_db@, candidate.detection.exists, candidate.detection.is_legacy_runtime,
                candidate.already_migrated, candidate.source_fingerprint) == Err::<Seq<char>, Seq<char>>(m@),
        },
{
    let source_fingerprint = match plan_fingerprint(
        source_db,
        candidate.detection.exists,
        candidate.detection.is_legacy_runtime,
        candidate.already_migrated,
        candidate.source_fingerprint,
    ) {
        Ok(f) => f,
        Err(m) => return Err(m),
    };
    let total = estimated_total(estimated_counts.as_slice());
    let phrase = confirmation_phrase(total);
    let pending = PendingPlan {
        source_db: String::from_str(source_db),
        source_fingerprint: source_fingerprint.clone(),
        confirmation_phrase: phrase.clone(),
        expires_at: now + PLAN_TTL_MILLIS,
    };
    let plan = MigrationPlan {
        confirmation_token,
        confirmation_phrase: phrase,
        source_database: String::from_str(source_db),
        source_fingerprint,
        destination_database,
        backup_directory,
        expires_at: expires_at_text,
        estimated_counts,
        warnings: candidate.detection.warnings,
    };
    Ok((plan, pending))
}

/// Why a finished import may not be committed: the destination's integrity
/// check did not report `ok`, or foreign keys are violated.
pub open spec fn integrity_refusal(integrity_check: Seq<char>, foreign_key_violations: u64) -> Option<Seq<char>> {
    if integrity_check != "ok"@ {
        Some("destination integrity check failed: "@ + integrity_check)
    } else if foreign_key_violations > 0 {
        Some("destination has "@ + decimal(foreign_key_violations as nat) + " foreign-key violations"@)
    } else {
        None
    }
}

/// Checks the destination after the import, before it is committed.
pub fn check_integrity(integrity_check: &str, foreign_key_violations: u64) -> (r: Result<(), String>)
    ensures
        match r {
            Ok(_) => integrity_refusal(integrity_check@, foreign_key_violations) is None,
            Err(m) => integrity_refusal(integrity_check@, foreign_key_violations) == Some(m@),
        },
{
    if !same_text(integrity_check, "ok") {
        return Err(concat("destination integrity check failed: ", integrity_check));
    }
    if foreign_key_violations > 0 {
        let n = u64_to_string(foreign_key_violations);
        return Err(concat3("destination has ", n.as_str(), " foreign-key violations"));
    }
    Ok(())
}

/// A stored receipt read back for a source that was already imported: the
/// same receipt, marked as already applied.
pub fn reopened_receipt(receipt: MigrationReceipt) -> (r: MigrationReceipt)
    ensures
        r.already_applied,
        r == (MigrationReceipt { already_applied: true, ..receipt }),
{
    let mut receipt = receipt;
    receipt.already_applied = true;
    receipt
}

/// The receipt of an import that passed its integrity checks: the tally's
/// counts, warnings and inserted ids, no foreign-key violations, and the
/// rollback delete order.
pub fn completed_receipt(
    migration_id: String,
    source_database: String,
    source_fingerprint: String,
    destination_database: String,
    started_at: String,
    completed_at: String,
    tally: ImportTally,
    integrity_check: String,
    backup_database: String,
    receipt_path: String,
) -> (r: MigrationReceipt)
    ensures
        r.schema_version@ == RECEIPT_SCHEMA@,
        r.migration_id == migration_id,
        r.source_database@ == source_database@,
        r.source_fingerprint == source_fingerprint,
        r.destination_database == destination_database,
        r.started_at == started_at,
        r.completed_at == completed_at,
        !r.already_applied,
        r.counts == tally.counts,
        r.warnings == tally.warnings,
        r.integrity_check == integrity_check,
        r.foreign_key_violations == 0,
        r.rollback.source_database@ == source_database@,
        r.rollback.backup_database == backup_database,
        r.rollback.receipt_path == receipt_path,
        r.rollback.imported_ids == tally.imported_ids,
        r.rollback.delete_order@.map_values(|t: String| t@) == rollback_delete_order(),
{
    let rollback = RollbackMetadata {
        source_database: source_database.clone(),
        backup_database,
        receipt_path,
        imported_ids: tally.imported_ids,
        delete_order: delete_order(),
    };
    MigrationReceipt {
        schema_version: String::from_str(RECEIPT_SCHEMA),
        migration_id,
        source_database,
        source_fingerprint,
        destination_database,
        started_at,
        completed_at,
        already_applied: false,
        counts: tally.counts,
        warnings: tally.warnings,
        integrity_check,
        foreign_key_violations: 0,
        rollback,
    }
}


// ---------------------------------------------------------------------------
// Per-row import rules
// ---------------------------------------------------------------------------

/// The warning for a reference to a row that is not in the destination; the
/// reference is imported as null.
pub fn missing_reference_warning(owner: &str, owner_id: &str, column: &str, id: &str) -> (r: String)
    ensures
        r@ == owner@ + " "@ + owner_id@ + " has missing "@ + column@ + " "@ + id@ + "; imported as null"@,
{
    let mut r = concat3(owner, " ", owner_id);
    r.append(" has missing ");
    r.append(column);
    r.append(" ");
    r.append(id);
    r.append("; imported as null");
    r
}

/// The warning for a run whose session is not in the destination.
pub fn orphan_run_warning(run_id: &str, session_id: &str) -> (r: String)
    ensures
        r@ == "run "@ + run_id@ + " references missing session "@ + session_id@,
{
    let mut r = concat3("run ", run_id, " references missing session ");
    r.append(session_id);
    r
}

/// The row an event is known by in warnings: `session/sequence`.
pub fn event_label(session_id: &str, sequence: i64) -> (r: String)
    ensures
        r@ == session_id@ + "/"@ + signed_decimal(sequence as int),
{
    let n = i64_to_string(sequence);
    concat3(session_id, "/", n.as_str())
}

/// The warning for an event or cursor whose session is not in the destination.
pub fn orphan_row_warning(kind: &str, label: &str) -> (r: String)
    ensures
        r@ == kind@ + " "@ + label@ + " references a missing session"@,
{
    let mut r = concat3(kind, " ", label);
    r.append(" references a missing session");
    r
}

/// What an imported cursor is recorded as: `session:source`.
pub fn cursor_import_id(session_id: &str, source: &str) -> (r: String)
    ensures
        r@ == session_id@ + ":"@ + source@,
{
    concat3(session_id, ":", source)
}

/// A run's last update: when it completed, else started, else was created.
pub fn run_updated_at(completed: Option<String>, started: Option<String>, created: String) -> (r: String)
    ensures
        r@ == match completed {
            Some(c) => c@,
            None => match started {
                Some(s) => s@,
                None => created@,
            },
        },
{
    match completed {
        Some(c) => c,
        None => match started {
            Some(s) => s,
            None => created,
        },
    }
}

/// A stored content path worth copying: present and not blank.
pub fn content_path(raw: Option<&str>) -> (r: Option<&str>)
    ensures
        match raw {
            Some(s) => if crate::text::trim(s@).len() > 0 { r == Some(s) } else { r is None },
            None => r is None,
        },
{
    match raw {
        Some(s) => if crate::text::trim_str(s).as_str().is_empty() {
            None
        } else {
            Some(s)
        },
        None => None,
    }
}

/// Where imported content lives: under its kind, a two-character fan-out
/// directory, and its lowercase hexadecimal digest.
pub fn content_destination(content_root: &str, kind: &str, digest_hex: &str) -> (r: String)
    requires
        digest_hex@.len() >= 2,
    ensures
        r@ == joined_path(joined_path(joined_path(content_root@, kind@), digest_hex@.take(2)), digest_hex@),
{
    let chars = crate::text::chars_of(digest_hex);
    let mut fan: Vec<char> = Vec::new();
    fan.push(chars[0]);
    fan.push(chars[1]);
    assert(fan@ =~= digest_hex@.take(2));
    let fan = crate::text::string_of(&fan);
    let first = join_path(content_root, kind);
    let second = join_path(first.as_str(), fan.as_str());
    join_path(second.as_str(), digest_hex)
}

/// The warning for a content file that is not there.
pub fn missing_content_warning(owner_id: &str, path: &str) -> (r: String)
    ensures
        r@ == owner_id@ + " content file is missing: "@ + path@,
{
    concat3(owner_id, " content file is missing: ", path)
}

/// The warning for content whose recorded digest differs, ignoring ASCII case,
/// from the digest of its bytes.
pub fn digest_mismatch_warning(owner_id: &str, expected: &str, actual: &str) -> (r: Option<String>)
    ensures
        match r {
            Some(w) => crate::text::ascii_lower_seq(expected@) != crate::text::ascii_lower_seq(actual@)
                && w@ == owner_id@ + " content digest mismatch: recorded "@ + expected@ + ", actual "@ + actual@,
            None => crate::text::ascii_lower_seq(expected@) == crate::text::ascii_lower_seq(actual@),
        },
{
    let a = crate::text::ascii_lowercase(&crate::text::chars_of(expected));
    let b = crate::text::ascii_lowercase(&crate::text::chars_of(actual));
    if crate::text::chars_equal(&a, &b) {
        None
    } else {
        let mut w = concat3(owner_id, " content digest mismatch: recorded ", expected);
        w.append(", actual ");
        w.append(actual);
        Some(w)
    }
}

/// How an imported visual renders: from its copied source where it has one,
/// else from its template.
pub fn renderer_kind(has_content: bool) -> (r: &'static str)
    ensures
        r@ == if has_content { "tsx"@ } else { "template"@ },
{
    if has_content {
        "tsx"
    } else {
        "template"
    }
}

/// Where an imported usage record's cost came from.
pub fn usage_cost_source(has_cost: bool) -> (r: &'static str)
    ensures
        r@ == if has_cost { "provider_reported"@ } else { "none"@ },
{
    if has_cost {
        "provider_reported"
    } else {
        "none"
    }
}

/// The request id an imported ledger row is recorded under.
pub fn usage_request_id(id: &str) -> (r: String)
    ensures
        r@ == "legacy-ledger:"@ + id@,
{
    concat("legacy-ledger:", id)
}

} // verus!
