//! Addressing the Synth Cloud hosted optimizer service: its base URL, the
//! query of a run listing, and how a listing reply is read. The requests
//! themselves are sent by the host.

use crate::json::{copy_json, entries_of, field, items_of, lemma_entries_of, member, object_of, text_value, JsonValue, JsonView};
use crate::text::{chars_of, concat, concat3, decimal, hex_char_upper, hex_digit_upper, i64_to_string, same_text, signed_decimal, string_of, trim, trim_chars, u64_to_string};
use vstd::prelude::*;

verus! {

/// Characters a query value carries as they are.
pub open spec fn url_safe(c: char) -> bool {
    ('A' <= c && c <= 'Z') || ('a' <= c && c <= 'z') || ('0' <= c && c <= '9') || c == '-'
        || c == '_' || c == '.' || c == '~' || c == ','
}

/// One character of a query value: itself where it is safe, else `%` and two
/// uppercase hexadecimal digits of its low byte.
pub open spec fn encoded_char(c: char) -> Seq<char> {
    if url_safe(c) {
        seq![c]
    } else {
        let b = (c as u32) % 256;
        seq!['%', hex_digit_upper((b / 16) as nat), hex_digit_upper((b % 16) as nat)]
    }
}

/// A query value, encoded character by character.
pub open spec fn url_encoded(s: Seq<char>) -> Seq<char>
    decreases s.len(),
{
    if s.len() == 0 {
        Seq::empty()
    } else {
        url_encoded(s.drop_last()) + encoded_char(s.last())
    }
}

/// Percent-encodes a query value.
pub fn urlencoding_lite(value: &str) -> (r: String)
    ensures
        r@ == url_encoded(value@),
{
    let chars = chars_of(value);
    let mut out: Vec<char> = Vec::new();
    let mut i: usize = 0;
    while i < chars.len()
        invariant
            i <= chars@.len(),
            chars@ == value@,
            out@ == url_encoded(chars@.take(i as int)),
        decreases chars@.len() - i,
    {
        let c = chars[i];
        assert(chars@.take(i + 1).drop_last() =~= chars@.take(i as int));
        assert(chars@.take(i + 1).last() == c);
        let safe = ('A' <= c && c <= 'Z') || ('a' <= c && c <= 'z') || ('0' <= c && c <= '9')
            || c == '-' || c == '_' || c == '.' || c == '~' || c == ',';
        if safe {
            out.push(c);
        } else {
            let b: u32 = (c as u32) % 256;
            out.push('%');
            out.push(hex_char_upper((b / 16) as u8));
            out.push(hex_char_upper((b % 16) as u8));
        }
        assert(out@ =~= url_encoded(chars@.take(i + 1)));
        i = i + 1;
    }
    assert(chars@.take(i as int) =~= chars@);
    string_of(&out)
}

/// A URL with every trailing `/` removed.
pub open spec fn without_trailing_slashes(s: Seq<char>) -> Seq<char>
    decreases s.len(),
{
    if s.len() > 0 && s.last() == '/' {
        without_trailing_slashes(s.drop_last())
    } else {
        s
    }
}

/// The service base URL: the backend URL without trailing slashes.
pub fn cloud_base_url(backend_url: &str) -> (r: String)
    ensures
        r@ == without_trailing_slashes(backend_url@),
{
    let chars = chars_of(backend_url);
    let mut end: usize = chars.len();
    assert(chars@.take(end as int) =~= chars@);
    while end > 0 && chars[end - 1] == '/'
        invariant
            end <= chars@.len(),
            without_trailing_slashes(chars@) == without_trailing_slashes(chars@.take(end as int)),
        decreases end,
    {
        assert(chars@.take(end as int).drop_last() =~= chars@.take(end - 1));
        end = end - 1;
    }
    assert(chars@.take(chars@.len() as int) =~= chars@);
    let mut out: Vec<char> = Vec::new();
    let mut k: usize = 0;
    while k < end
        invariant
            end <= chars@.len(),
            k <= end,
            out@ == chars@.take(k as int),
        decreases end - k,
    {
        out.push(chars[k]);
        assert(chars@.take(k + 1) =~= chars@.take(k as int).push(chars@[k as int]));
        k = k + 1;
    }
    string_of(&out)
}

/// The query of a run listing: `algorithm`, `status` and `limit`, each where
/// given, joined by `&`.
pub open spec fn runs_query(algorithm: Option<Seq<char>>, status: Option<Seq<char>>, limit: Option<i64>) -> Seq<Seq<char>> {
    let a = match algorithm {
        Some(v) => seq!["algorithm="@ + url_encoded(v)],
        None => Seq::empty(),
    };
    let s = match status {
        Some(v) => seq!["status="@ + url_encoded(v)],
        None => Seq::empty(),
    };
    let l = match limit {
        Some(n) => seq!["limit="@ + signed_decimal(n as int)],
        None => Seq::empty(),
    };
    a + s + l
}

/// Parts joined by `&`.
pub open spec fn joined(parts: Seq<Seq<char>>) -> Seq<char>
    decreases parts.len(),
{
    if parts.len() == 0 {
        Seq::empty()
    } else if parts.len() == 1 {
        parts[0]
    } else {
        joined(parts.drop_last()) + "&"@ + parts.last()
    }
}

/// The URL of a run listing.
pub open spec fn runs_list_url_text(base: Seq<char>, algorithm: Option<Seq<char>>, status: Option<Seq<char>>, limit: Option<i64>) -> Seq<char> {
    let q = runs_query(algorithm, status, limit);
    let path = base + "/api/v1/optimizers/runs"@;
    if q.len() == 0 { path } else { path + "?"@ + joined(q) }
}

/// The URL with the query parts given so far.
pub open spec fn url_with(path: Seq<char>, parts: Seq<Seq<char>>) -> Seq<char> {
    if parts.len() == 0 { path } else { path + "?"@ + joined(parts) }
}

proof fn lemma_url_step(path: Seq<char>, before: Seq<Seq<char>>, part: Seq<char>)
    ensures
        url_with(path, before) + (if before.len() == 0 { "?"@ } else { "&"@ }) + part == url_with(
            path,
            before.push(part),
        ),
{
    let after = before.push(part);
    assert(after.drop_last() =~= before);
    if before.len() == 0 {
        assert(joined(after) == after[0]);
    } else {
        assert(joined(after) == joined(before) + "&"@ + part);
        assert(path + "?"@ + joined(before) + "&"@ + part =~= path + "?"@ + (joined(before) + "&"@ + part));
    }
}

fn push_part(url: &mut String, first: bool, part: &str)
    ensures
        final(url)@ == old(url)@ + (if first { "?"@ } else { "&"@ }) + part@,
{
    if first {
        url.append("?");
    } else {
        url.append("&");
    }
    url.append(part);
}

/// Builds the URL of a run listing.
pub fn runs_list_url(base: &str, algorithm: Option<&str>, status: Option<&str>, limit: Option<i64>) -> (r: String)
    ensures
        r@ == runs_list_url_text(
            base@,
            match algorithm { Some(a) => Some(a@), None => None },
            match status { Some(s) => Some(s@), None => None },
            limit,
        ),
{
    let ghost a = match algorithm { Some(a) => Some(a@), None => None };
    let ghost s = match status { Some(s) => Some(s@), None => None };
    let ghost path = base@ + "/api/v1/optimizers/runs"@;
    let mut url = crate::text::concat(base, "/api/v1/optimizers/runs");
    let mut count: usize = 0;
    let ghost mut parts: Seq<Seq<char>> = Seq::empty();
    if let Some(v) = algorithm {
        let enc = urlencoding_lite(v);
        let part = crate::text::concat("algorithm=", enc.as_str());
        push_part(&mut url, count == 0, part.as_str());
        proof {
            lemma_url_step(path, parts, part@);
            parts = parts.push(part@);
        }
        count = count + 1;
    }
    assert(url@ == url_with(path, parts) && count == parts.len());
    if let Some(v) = status {
        let enc = urlencoding_lite(v);
        let part = crate::text::concat("status=", enc.as_str());
        push_part(&mut url, count == 0, part.as_str());
        proof {
            lemma_url_step(path, parts, part@);
            parts = parts.push(part@);
        }
        count = count + 1;
    }
    assert(url@ == url_with(path, parts) && count == parts.len());
    if let Some(n) = limit {
        let digits = i64_to_string(n);
        let part = crate::text::concat("limit=", digits.as_str());
        push_part(&mut url, count == 0, part.as_str());
        proof {
            lemma_url_step(path, parts, part@);
            parts = parts.push(part@);
        }
    }
    assert(parts =~= runs_query(a, s, limit));
    url
}

/// The runs of a listing reply: the reply itself where it is an array, its
/// `runs` where that is one, else the reply as a single run.
pub open spec fn listed_runs(payload: JsonView) -> Seq<JsonView> {
    match payload {
        JsonView::Array(items) => items,
        _ => match member(payload, "runs"@) {
            Some(JsonView::Array(items)) => items,
            _ => seq![payload],
        },
    }
}

pub(crate) fn copy_items(items: &Vec<JsonValue>) -> (r: Vec<JsonValue>)
    ensures
        items_of(r@) == crate::json::items_view(items@, items@.len() as nat),
{
    proof {
        crate::json::lemma_items_view_len(items@, items@.len() as nat);
    }
    let mut r: Vec<JsonValue> = Vec::new();
    let mut i: usize = 0;
    while i < items.len()
        invariant
            i <= items@.len(),
            crate::json::items_view(items@, items@.len() as nat).len() == items@.len(),
            forall|k: int| 0 <= k < items@.len() ==> #[trigger] crate::json::items_view(items@, items@.len() as nat)[k] == items@[k]@,
            r@.len() == i,
            forall|k: int| 0 <= k < i ==> (#[trigger] r@[k])@ == items@[k]@,
        decreases items@.len() - i,
    {
        r.push(copy_json(&items[i]));
        i = i + 1;
    }
    proof {
        crate::json::lemma_items_of(r@);
    }
    assert(items_of(r@) =~= crate::json::items_view(items@, items@.len() as nat));
    r
}

/// Reads a run listing reply.
pub fn runs_of_payload(payload: &JsonValue) -> (r: Vec<JsonValue>)
    ensures
        items_of(r@) == listed_runs(payload@),
{
    if let Some(items) = payload.as_items() {
        return copy_items(items);
    }
    match payload.get("runs") {
        Some(runs) => match runs.as_items() {
            Some(items) => return copy_items(items),
            None => {},
        },
        None => {},
    }
    let r = vec![copy_json(payload)];
    proof {
        crate::json::lemma_items_of(r@);
    }
    assert(items_of(r@) =~= seq![payload@]);
    r
}


// ---------------------------------------------------------------------------
// Creating a run
// ---------------------------------------------------------------------------

/// The service's name of an algorithm: the aliases of GO-EX map to `go-ex`.
pub open spec fn cloud_algorithm(a: Seq<char>) -> Seq<char> {
    if a == "gelo"@ || a == "goex"@ || a == "go_ex"@ {
        "go-ex"@
    } else {
        a
    }
}

/// How a run's configuration travels: TOML text where the configuration
/// carries `config_toml` as text, else its `config_json` member, else the
/// configuration itself where it is an object; nothing else is accepted.
pub open spec fn run_config_entry(config: JsonView) -> Option<(Seq<char>, JsonView)> {
    match member(config, "config_toml"@) {
        Some(JsonView::Text(t)) => Some(("config_toml"@, JsonView::Text(t))),
        _ => match member(config, "config_json"@) {
            Some(c) => Some(("config_json"@, c)),
            None => if config is Object {
                Some(("config_json"@, config))
            } else {
                None
            },
        },
    }
}

/// The body that creates a hosted run.
pub open spec fn create_run_view(
    algorithm: Seq<char>,
    config: JsonView,
    project_id: Option<Seq<char>>,
    run_id: Option<Seq<char>>,
) -> Option<JsonView> {
    match run_config_entry(config) {
        None => None,
        Some(entry) => Some(
            JsonView::Object(
                seq![("algorithm"@, JsonView::Text(cloud_algorithm(algorithm)))] + match run_id {
                    Some(r) => seq![("run_id"@, JsonView::Text(r)), ("idempotency_key"@, JsonView::Text(r))],
                    None => Seq::empty(),
                } + match project_id {
                    Some(p) => seq![("project_id"@, JsonView::Text(p))],
                    None => Seq::empty(),
                } + seq![entry],
            ),
        ),
    }
}

/// The service's name of an algorithm.
pub fn normalized_algorithm(algorithm: &str) -> (r: &str)
    ensures
        r@ == cloud_algorithm(algorithm@),
{
    if same_text(algorithm, "gelo") || same_text(algorithm, "goex") || same_text(algorithm, "go_ex") {
        "go-ex"
    } else {
        algorithm
    }
}

/// Builds the body that creates a hosted run; a run id is also the
/// idempotency key.
pub fn create_run_body(
    algorithm: &str,
    config: &JsonValue,
    project_id: Option<&str>,
    run_id: Option<&str>,
) -> (r: Result<JsonValue, String>)
    ensures
        match create_run_view(
            algorithm@,
            config@,
            match project_id {
                Some(p) => Some(p@),
                None => None,
            },
            match run_id {
                Some(x) => Some(x@),
                None => None,
            },
        ) {
            Some(v) => r matches Ok(b) && b@ == v,
            None => r matches Err(m) && m@ == "cloud create requires config_toml or config_json"@,
        },
{
    let config_entry = match config.get("config_toml") {
        Some(t) if t.as_text().is_some() => field("config_toml", copy_json(t)),
        _ => match config.get("config_json") {
            Some(c) => field("config_json", copy_json(c)),
            None => if matches!(config, JsonValue::Object(_)) {
                field("config_json", copy_json(config))
            } else {
                return Err(String::from_str("cloud create requires config_toml or config_json"));
            },
        },
    };
    let mut entries: Vec<(String, JsonValue)> = Vec::new();
    entries.push(field("algorithm", text_value(normalized_algorithm(algorithm))));
    if let Some(id) = run_id {
        entries.push(field("run_id", text_value(id)));
        entries.push(field("idempotency_key", text_value(id)));
    }
    if let Some(p) = project_id {
        entries.push(field("project_id", text_value(p)));
    }
    entries.push(config_entry);
    let ghost es = entries@;
    let r = object_of(entries);
    proof {
        lemma_entries_of(es);
        let want = create_run_view(
            algorithm@,
            config@,
            match project_id {
                Some(p) => Some(p@),
                None => None,
            },
            match run_id {
                Some(x) => Some(x@),
                None => None,
            },
        );
        if let Some(JsonView::Object(w)) = want {
            assert(entries_of(es) =~= w);
        }
    }
    Ok(r)
}

// ---------------------------------------------------------------------------
// Event replay
// ---------------------------------------------------------------------------

/// A page size: 500 where none is asked, held between 1 and 5000.
pub open spec fn event_page_limit(limit: Option<i64>) -> i64 {
    let n = match limit {
        Some(n) => n,
        None => 500,
    };
    if n < 1 {
        1
    } else if n > 5000 {
        5000
    } else {
        n
    }
}

fn page_limit(limit: Option<i64>) -> (r: i64)
    ensures
        r == event_page_limit(limit),
{
    let n = match limit {
        Some(n) => n,
        None => 500,
    };
    if n < 1 {
        1
    } else if n > 5000 {
        5000
    } else {
        n
    }
}

/// The URL that backfills a run's events after a sequence number.
pub fn events_url(base: &str, run_id: &str, after_seq: u64, limit: Option<i64>) -> (r: String)
    ensures
        r@ == base@ + "/api/v1/optimizers/runs/"@ + run_id@ + "/events?after_seq="@ + decimal(
            after_seq as nat,
        ) + "&limit="@ + signed_decimal(event_page_limit(limit) as int) + "&stream=false"@,
{
    let head = concat3(base, "/api/v1/optimizers/runs/", run_id);
    let head = concat(head.as_str(), "/events?after_seq=");
    let after = u64_to_string(after_seq);
    let head = concat3(head.as_str(), after.as_str(), "&limit=");
    let n = i64_to_string(page_limit(limit));
    concat3(head.as_str(), n.as_str(), "&stream=false")
}

/// The URL that replays a run's training events after a sequence number.
pub fn training_events_url(base: &str, run_id: &str, after_sequence: u64, limit: Option<i64>) -> (r:
    String)
    ensures
        r@ == base@ + "/api/v1/optimizers/runs/"@ + run_id@ + "/training-events?after_sequence="@
            + decimal(after_sequence as nat) + "&limit="@ + signed_decimal(
            event_page_limit(limit) as int,
        ),
{
    let head = concat3(base, "/api/v1/optimizers/runs/", run_id);
    let head = concat(head.as_str(), "/training-events?after_sequence=");
    let after = u64_to_string(after_sequence);
    let head = concat3(head.as_str(), after.as_str(), "&limit=");
    let n = i64_to_string(page_limit(limit));
    concat(head.as_str(), n.as_str())
}

/// The events of a replay reply parsed as one JSON value: the reply itself
/// where it is an array, its `events` where that is one, else the reply as a
/// single event.
pub open spec fn replayed_events(payload: JsonView) -> Seq<JsonView> {
    match payload {
        JsonView::Array(items) => items,
        _ => match member(payload, "events"@) {
            Some(JsonView::Array(items)) => items,
            _ => seq![payload],
        },
    }
}

/// Reads a replay reply that parsed as one JSON value.
pub fn events_of_payload(payload: &JsonValue) -> (r: Vec<JsonValue>)
    ensures
        items_of(r@) == replayed_events(payload@),
{
    if let Some(items) = payload.as_items() {
        return copy_items(items);
    }
    match payload.get("events") {
        Some(events) => match events.as_items() {
            Some(items) => return copy_items(items),
            None => {},
        },
        None => {},
    }
    let r = vec![copy_json(payload)];
    proof {
        crate::json::lemma_items_of(r@);
    }
    assert(items_of(r@) =~= seq![payload@]);
    r
}

/// The rows of a training-event replay: its `events` where that is an array,
/// else the reply where it is one; anything else is not a replay.
pub open spec fn training_rows(payload: JsonView) -> Option<Seq<JsonView>> {
    match member(payload, "events"@) {
        Some(JsonView::Array(items)) => Some(items),
        _ => match payload {
            JsonView::Array(items) => Some(items),
            _ => None,
        },
    }
}

/// Reads a training-event replay.
pub fn training_rows_of(payload: &JsonValue) -> (r: Result<Vec<JsonValue>, String>)
    ensures
        match training_rows(payload@) {
            Some(rows) => r matches Ok(v) && items_of(v@) == rows,
            None => r matches Err(m) && m@ == "cloud training event replay is not an event array"@,
        },
{
    match payload.get("events") {
        Some(events) => match events.as_items() {
            Some(items) => return Ok(copy_items(items)),
            None => {},
        },
        None => {},
    }
    match payload.as_items() {
        Some(items) => Ok(copy_items(items)),
        None => Err(String::from_str("cloud training event replay is not an event array")),
    }
}

/// A text cut at each newline: the lines ended so far and the line under way.
pub open spec fn line_split(s: Seq<char>) -> (Seq<Seq<char>>, Seq<char>)
    decreases s.len(),
{
    if s.len() == 0 {
        (Seq::empty(), Seq::empty())
    } else {
        let before = line_split(s.drop_last());
        if s.last() == '\n' {
            (before.0.push(before.1), Seq::empty())
        } else {
            (before.0, before.1.push(s.last()))
        }
    }
}

/// The lines that are not blank, trimmed.
pub open spec fn nonblank_trimmed(lines: Seq<Seq<char>>) -> Seq<Seq<char>>
    decreases lines.len(),
{
    if lines.len() == 0 {
        Seq::empty()
    } else {
        let rest = nonblank_trimmed(lines.drop_last());
        if trim(lines.last()).len() > 0 {
            rest.push(trim(lines.last()))
        } else {
            rest
        }
    }
}

/// The records of a newline-delimited reply: each line that is not blank,
/// trimmed.
pub open spec fn ndjson_records(text: Seq<char>) -> Seq<Seq<char>> {
    let split = line_split(text);
    nonblank_trimmed(split.0.push(split.1))
}

/// Splits a newline-delimited reply into its records.
pub fn ndjson_lines(text: &str) -> (r: Vec<String>)
    ensures
        crate::text::texts_of(r@) == ndjson_records(text@),
{
    let chars = chars_of(text);
    let mut kept: Vec<String> = Vec::new();
    let mut current: Vec<char> = Vec::new();
    let mut i: usize = 0;
    while i < chars.len()
        invariant
            i <= chars@.len(),
            chars@ == text@,
            crate::text::texts_of(kept@) == nonblank_trimmed(line_split(chars@.take(i as int)).0),
            current@ == line_split(chars@.take(i as int)).1,
        decreases chars@.len() - i,
    {
        let c = chars[i];
        let ghost prefix = chars@.take(i as int);
        let ghost next = chars@.take(i + 1);
        assert(next.drop_last() =~= prefix);
        assert(next.last() == c);
        if c == '\n' {
            let ghost done = line_split(prefix).0;
            let trimmed = trim_chars(&current);
            assert(done.push(current@).drop_last() =~= done);
            if trimmed.len() > 0 {
                let ghost before = kept@;
                kept.push(string_of(&trimmed));
                assert(crate::text::texts_of(kept@) =~= crate::text::texts_of(before).push(trimmed@));
            }
            current = Vec::new();
        } else {
            current.push(c);
        }
        i = i + 1;
    }
    assert(chars@.take(chars@.len() as int) =~= chars@);
    let ghost split = line_split(chars@);
    assert(split.0.push(current@).drop_last() =~= split.0);
    let trimmed = trim_chars(&current);
    if trimmed.len() > 0 {
        let ghost before = kept@;
        kept.push(string_of(&trimmed));
        assert(crate::text::texts_of(kept@) =~= crate::text::texts_of(before).push(trimmed@));
    }
    kept
}

/// Texts joined by commas.
pub open spec fn comma_joined(parts: Seq<Seq<char>>) -> Seq<char>
    decreases parts.len(),
{
    if parts.len() == 0 {
        Seq::empty()
    } else if parts.len() == 1 {
        parts[0]
    } else {
        comma_joined(parts.drop_last()) + ","@ + parts.last()
    }
}

/// The URL that reads several state slices of a run at once.
pub fn state_batch_url(base: &str, run_id: &str, slices: &Vec<String>) -> (r: String)
    ensures
        r@ == base@ + "/api/v1/optimizers/runs/"@ + run_id@ + "/state/batch?slices="@ + url_encoded(
            comma_joined(crate::text::texts_of(slices@)),
        ),
{
    let ghost all = crate::text::texts_of(slices@);
    let mut joined_text = String::from_str("");
    proof {
        reveal_strlit("");
    }
    let mut i: usize = 0;
    assert(all.take(0) =~= Seq::<Seq<char>>::empty());
    while i < slices.len()
        invariant
            i <= slices@.len(),
            all == crate::text::texts_of(slices@),
            joined_text@ == comma_joined(all.take(i as int)),
        decreases slices@.len() - i,
    {
        let ghost next = all.take(i as int + 1);
        assert(next.drop_last() =~= all.take(i as int));
        assert(next.last() == slices@[i as int]@);
        if i == 0 {
            joined_text = String::from_str(slices[0].as_str());
        } else {
            joined_text = concat3(joined_text.as_str(), ",", slices[i].as_str());
        }
        i = i + 1;
    }
    assert(all.take(slices@.len() as int) =~= all);
    let head = concat3(base, "/api/v1/optimizers/runs/", run_id);
    let head = concat(head.as_str(), "/state/batch?slices=");
    let enc = urlencoding_lite(joined_text.as_str());
    concat(head.as_str(), enc.as_str())
}

// ---------------------------------------------------------------------------
// Saved LoRA checkpoint search
// ---------------------------------------------------------------------------

/// A search of saved LoRA checkpoints.
#[derive(Debug, Default)]
pub struct CheckpointQuery {
    pub scope: Option<String>,
    pub search: Option<String>,
    pub provider: Option<String>,
    pub checkpoint_kind: Option<String>,
    pub base_model: Option<String>,
    pub run_id: Option<String>,
    pub attempt_id: Option<String>,
    pub source_checkpoint_id: Option<String>,
    pub optimizer_algorithm: Option<String>,
    pub status: Option<String>,
    pub tags: Option<Vec<String>>,
    pub limit: Option<i64>,
    pub offset: Option<u64>,
}

pub open spec fn opt_view(o: Option<String>) -> Option<Seq<char>> {
    match o {
        Some(s) => Some(s@),
        None => None,
    }
}

/// A filter parameter, where its value is given and not blank.
pub open spec fn filter_param(name: Seq<char>, value: Option<Seq<char>>) -> Seq<Seq<char>> {
    match value {
        Some(v) => if trim(v).len() > 0 {
            seq![name + "="@ + url_encoded(trim(v))]
        } else {
            Seq::empty()
        },
        None => Seq::empty(),
    }
}

/// One `tags` parameter for each tag that is not blank.
pub open spec fn tag_params(tags: Seq<Seq<char>>) -> Seq<Seq<char>>
    decreases tags.len(),
{
    if tags.len() == 0 {
        Seq::empty()
    } else {
        tag_params(tags.drop_last()) + filter_param("tags"@, Some(tags.last()))
    }
}

/// The first 32 tags of a query.
pub open spec fn searched_tags(tags: Option<Vec<String>>) -> Seq<Seq<char>> {
    match tags {
        Some(t) => {
            let all = crate::text::texts_of(t@);
            if all.len() > 32 {
                all.take(32)
            } else {
                all
            }
        },
        None => Seq::empty(),
    }
}

/// The page size of a search: 50 where none is asked, held between 1 and 100.
pub open spec fn search_limit(limit: Option<i64>) -> i64 {
    let n = match limit {
        Some(n) => n,
        None => 50,
    };
    if n < 1 {
        1
    } else if n > 100 {
        100
    } else {
        n
    }
}

/// The parameters of a checkpoint search: the scope (all by default), each
/// filter that is given and not blank, each tag that is not blank among the
/// first 32, then the page.
pub open spec fn checkpoint_search_params(q: CheckpointQuery) -> Seq<Seq<char>> {
    seq![
        "scope="@ + url_encoded(
            match q.scope {
                Some(s) => s@,
                None => "all"@,
            },
        ),
    ] + filter_param("q"@, opt_view(q.search)) + filter_param("provider"@, opt_view(q.provider))
        + filter_param("checkpoint_kind"@, opt_view(q.checkpoint_kind)) + filter_param(
        "base_model"@,
        opt_view(q.base_model),
    ) + filter_param("run_id"@, opt_view(q.run_id)) + filter_param(
        "attempt_id"@,
        opt_view(q.attempt_id),
    ) + filter_param("source_checkpoint_id"@, opt_view(q.source_checkpoint_id)) + filter_param(
        "optimizer_algorithm"@,
        opt_view(q.optimizer_algorithm),
    ) + filter_param("status"@, opt_view(q.status)) + tag_params(searched_tags(q.tags)) + seq![
        "limit="@ + signed_decimal(search_limit(q.limit) as int),
        "offset="@ + decimal(
            match q.offset {
                Some(n) => n,
                None => 0,
            } as nat,
        ),
    ]
}

fn push_filter(parts: &mut Vec<String>, name: &str, value: &Option<String>)
    ensures
        crate::text::texts_of(final(parts)@) == crate::text::texts_of(old(parts)@) + filter_param(
            name@,
            opt_view(*value),
        ),
{
    let ghost before = parts@;
    if let Some(v) = value {
        let t = crate::text::trim_str(v.as_str());
        if !t.as_str().is_empty() {
            let enc = urlencoding_lite(t.as_str());
            parts.push(concat3(name, "=", enc.as_str()));
            assert(crate::text::texts_of(parts@) =~= crate::text::texts_of(before) + filter_param(
                name@,
                opt_view(*value),
            ));
            return;
        }
    }
    assert(crate::text::texts_of(parts@) =~= crate::text::texts_of(before) + filter_param(
        name@,
        opt_view(*value),
    ));
}

fn join_parts(parts: &Vec<String>) -> (r: String)
    ensures
        r@ == joined(crate::text::texts_of(parts@)),
{
    let ghost all = crate::text::texts_of(parts@);
    let mut out = String::from_str("");
    proof {
        reveal_strlit("");
    }
    let mut i: usize = 0;
    assert(all.take(0) =~= Seq::<Seq<char>>::empty());
    while i < parts.len()
        invariant
            i <= parts@.len(),
            all == crate::text::texts_of(parts@),
            out@ == joined(all.take(i as int)),
        decreases parts@.len() - i,
    {
        let ghost next = all.take(i as int + 1);
        assert(next.drop_last() =~= all.take(i as int));
        assert(next.last() == parts@[i as int]@);
        if i == 0 {
            out = String::from_str(parts[0].as_str());
        } else {
            out = concat3(out.as_str(), "&", parts[i].as_str());
        }
        i = i + 1;
    }
    assert(all.take(parts@.len() as int) =~= all);
    out
}

/// The URL of a saved LoRA checkpoint search.
pub fn checkpoint_search_url(base: &str, query: &CheckpointQuery) -> (r: String)
    ensures
        r@ == base@ + "/api/v1/optimizers/checkpoints?"@ + joined(checkpoint_search_params(*query)),
{
    let mut parts: Vec<String> = Vec::new();
    let scope = match &query.scope {
        Some(s) => urlencoding_lite(s.as_str()),
        None => urlencoding_lite("all"),
    };
    parts.push(concat("scope=", scope.as_str()));
    let ghost scope_part = seq![
        "scope="@ + url_encoded(
            match &query.scope {
                Some(s) => s@,
                None => "all"@,
            },
        ),
    ];
    assert(crate::text::texts_of(parts@) =~= scope_part);
    push_filter(&mut parts, "q", &query.search);
    push_filter(&mut parts, "provider", &query.provider);
    push_filter(&mut parts, "checkpoint_kind", &query.checkpoint_kind);
    push_filter(&mut parts, "base_model", &query.base_model);
    push_filter(&mut parts, "run_id", &query.run_id);
    push_filter(&mut parts, "attempt_id", &query.attempt_id);
    push_filter(&mut parts, "source_checkpoint_id", &query.source_checkpoint_id);
    push_filter(&mut parts, "optimizer_algorithm", &query.optimizer_algorithm);
    push_filter(&mut parts, "status", &query.status);
    let ghost head = crate::text::texts_of(parts@);
    if let Some(tags) = &query.tags {
        let ghost all = crate::text::texts_of(tags@);
        let count: usize = if tags.len() > 32 {
            32
        } else {
            tags.len()
        };
        let mut i: usize = 0;
        assert(all.take(0) =~= Seq::<Seq<char>>::empty());
        while i < count
            invariant
                i <= count,
                count <= tags@.len(),
                all == crate::text::texts_of(tags@),
                crate::text::texts_of(parts@) == head + tag_params(all.take(i as int)),
            decreases count - i,
        {
            let ghost next = all.take(i as int + 1);
            assert(next.drop_last() =~= all.take(i as int));
            assert(next.last() == tags@[i as int]@);
            push_filter(&mut parts, "tags", &Some(tags[i].clone()));
            assert(crate::text::texts_of(parts@) =~= head + tag_params(next));
            i = i + 1;
        }
        assert(all.take(count as int) =~= searched_tags(query.tags));
    } else {
        assert(head + tag_params(Seq::empty()) =~= head);
    }
    let limit = match query.limit {
        Some(n) => n,
        None => 50,
    };
    let bounded: i64 = if limit < 1 {
        1
    } else if limit > 100 {
        100
    } else {
        limit
    };
    let offset: u64 = match query.offset {
        Some(n) => n,
        None => 0,
    };
    let ghost before_page = crate::text::texts_of(parts@);
    assert(before_page == head + tag_params(searched_tags(query.tags)));
    let limit_part = concat("limit=", i64_to_string(bounded).as_str());
    let offset_part = concat("offset=", u64_to_string(offset).as_str());
    let ghost page = seq![limit_part@, offset_part@];
    parts.push(limit_part);
    parts.push(offset_part);
    assert(crate::text::texts_of(parts@) =~= before_page + page);
    assert(page =~= seq![
        "limit="@ + signed_decimal(search_limit(query.limit) as int),
        "offset="@ + decimal(
            match query.offset {
                Some(n) => n,
                None => 0,
            } as nat,
        ),
    ]);
    assert(crate::text::texts_of(parts@) =~= checkpoint_search_params(*query));
    let joined_text = join_parts(&parts);
    concat(concat(base, "/api/v1/optimizers/checkpoints?").as_str(), joined_text.as_str())
}

} // verus!
