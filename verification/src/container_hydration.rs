//! What a container probe decides from what it observed: whether cached
//! contract metadata is due for a refresh, and which task family the service
//! itself advertises. Only advertised values are used: a family is never
//! inferred from a caller's name, port or URL.

use crate::json::{member, JsonValue, JsonView};
use crate::limits::CONTAINER_METADATA_REFRESH;
use crate::model_catalog::{occurs_at, parse_rfc3339, rfc3339_instant};
use crate::recipe_start::text_member;
use crate::text::{ascii_lower_seq, ascii_lowercase, chars_of, has_prefix, starts_with, string_of};
use vstd::prelude::*;

verus! {

/// Whether cached metadata hydrated at `hydrated` is due for a refresh at
/// `now`: at least the refresh interval has passed.
pub open spec fn refresh_elapsed(hydrated: (i64, u32), now: (i64, u32)) -> bool {
    let interval = (CONTAINER_METADATA_REFRESH / 1000) as int;
    hydrated.0 + interval < now.0 || (hydrated.0 + interval == now.0 && hydrated.1 <= now.1)
}

/// A probe refreshes contract metadata when asked to, when the cached
/// metadata carries no readable `hydratedAt` time, or when that time is at
/// least the refresh interval old.
pub open spec fn refresh_due(force: bool, metadata: JsonView, now: (i64, u32)) -> bool {
    force || match text_member(metadata, "hydratedAt"@) {
        Some(t) => match rfc3339_instant(t) {
            Some(h) => refresh_elapsed(h, now),
            None => true,
        },
        None => true,
    }
}

pub fn metadata_refresh_due(force: bool, metadata: &JsonValue, now: (i64, u32)) -> (r: bool)
    ensures
        r == refresh_due(force, metadata@, now),
{
    if force {
        return true;
    }
    let stamp = match metadata.get("hydratedAt") {
        Some(v) => match v.as_text() {
            Some(t) => t,
            None => return true,
        },
        None => return true,
    };
    match parse_rfc3339(stamp.as_str()) {
        Some(h) => {
            let interval: i128 = 300;
            assert(interval == CONTAINER_METADATA_REFRESH / 1000);
            let due_at = h.0 as i128 + interval;
            if due_at < now.0 as i128 {
                true
            } else if due_at == now.0 as i128 {
                h.1 <= now.1
            } else {
                false
            }
        },
        None => true,
    }
}

/// Whether `needle` occurs in `s`.
pub open spec fn contains_text(s: Seq<char>, needle: Seq<char>) -> bool {
    exists|i: int| occurs_at(s, needle, i)
}

/// The first known family a runtime id names, ignoring ASCII case.
pub open spec fn family_in_runtime_id(runtime_id: Seq<char>) -> Option<Seq<char>> {
    let lower = ascii_lower_seq(runtime_id);
    if contains_text(lower, "banking77"@) {
        Some("banking77"@)
    } else if contains_text(lower, "healthbench"@) {
        Some("healthbench"@)
    } else if contains_text(lower, "craftax"@) {
        Some("craftax"@)
    } else if contains_text(lower, "alfworld"@) {
        Some("alfworld"@)
    } else {
        None
    }
}

/// The family a runtime id names is one of the known families, and it
/// occurs (ignoring ASCII case) in that id; an id in which some known family
/// occurs always names one, and an id in which none occurs names none. Where
/// several occur, `banking77` comes first, then `healthbench`, `craftax` and
/// `alfworld`.
pub proof fn law_a_runtime_id_names_a_family_it_contains(runtime_id: Seq<char>)
    ensures
        family_in_runtime_id(runtime_id) matches Some(f) ==> (f == "banking77"@ || f == "healthbench"@
            || f == "craftax"@ || f == "alfworld"@) && contains_text(ascii_lower_seq(runtime_id), f),
        family_in_runtime_id(runtime_id) is None <==> !contains_text(ascii_lower_seq(runtime_id), "banking77"@)
            && !contains_text(ascii_lower_seq(runtime_id), "healthbench"@) && !contains_text(
            ascii_lower_seq(runtime_id),
            "craftax"@,
        ) && !contains_text(ascii_lower_seq(runtime_id), "alfworld"@),
        family_in_runtime_id(runtime_id) != Some("banking77"@) ==> !contains_text(
            ascii_lower_seq(runtime_id),
            "banking77"@,
        ),
        family_in_runtime_id(runtime_id) matches Some(f) && f != "banking77"@ && f != "healthbench"@
            ==> !contains_text(ascii_lower_seq(runtime_id), "healthbench"@),
        family_in_runtime_id(runtime_id) == Some("alfworld"@) ==> !contains_text(
            ascii_lower_seq(runtime_id),
            "craftax"@,
        ),
{
    reveal_strlit("banking77");
    reveal_strlit("healthbench");
    reveal_strlit("craftax");
    reveal_strlit("alfworld");
}

/// The service's own family field: the first of `env_family`, `task_family`
/// and `runtime_family` that is present, read where it is text.
pub open spec fn declared_family(info: JsonView) -> Option<Seq<char>> {
    if member(info, "env_family"@) is Some {
        text_member(info, "env_family"@)
    } else if member(info, "task_family"@) is Some {
        text_member(info, "task_family"@)
    } else {
        text_member(info, "runtime_family"@)
    }
}

/// `runtime.runtime_id`, where it is text.
pub open spec fn runtime_id_of(info: JsonView) -> Option<Seq<char>> {
    match member(info, "runtime"@) {
        Some(rt) => text_member(rt, "runtime_id"@),
        None => None,
    }
}

/// The task family a container advertises: the live-evaluation family its
/// info classifies as, else its declared family, else the family its runtime
/// id names, else the `env_family` its health payload reports.
pub open spec fn advertised_family(
    classified: Option<Seq<char>>,
    info: Option<JsonView>,
    health: JsonView,
) -> Option<Seq<char>> {
    if info is Some && classified is Some {
        classified
    } else if info matches Some(i) && declared_family(i) is Some {
        declared_family(info->0)
    } else if info matches Some(i) && runtime_id_of(i) matches Some(id) && family_in_runtime_id(id) is Some {
        family_in_runtime_id(runtime_id_of(info->0)->0)
    } else {
        match member(health, "payload"@) {
            Some(p) => text_member(p, "env_family"@),
            None => None,
        }
    }
}

fn text_of_member(v: &JsonValue, key: &str) -> (r: Option<String>)
    ensures
        match r {
            Some(t) => text_member(v@, key@) == Some(t@),
            None => text_member(v@, key@) is None,
        },
{
    match v.get(key) {
        Some(m) => match m.as_text() {
            Some(t) => Some(t.clone()),
            None => None,
        },
        None => None,
    }
}

pub(crate) fn occurs_exec(s: &Vec<char>, needle: &str) -> (r: bool)
    ensures
        r == contains_text(s@, needle@),
{
    let n = chars_of(needle);
    let mut i: usize = 0;
    while i < s.len()
        invariant
            i <= s@.len(),
            n@ == needle@,
            forall|j: int| 0 <= j < i ==> !occurs_at(s@, needle@, j),
        decreases s@.len() - i,
    {
        if occurs_here(s, &n, i) {
            return true;
        }
        i = i + 1;
    }
    let found = occurs_here(s, &n, i);
    proof {
        if !found {
            assert forall|j: int| !occurs_at(s@, needle@, j) by {
                if occurs_at(s@, needle@, j) {
                    assert(j <= s@.len());
                    if j < i {
                    } else {
                        assert(j == i);
                    }
                }
            }
        }
    }
    found
}

fn occurs_here(s: &Vec<char>, needle: &Vec<char>, i: usize) -> (r: bool)
    requires
        i <= s.len(),
    ensures
        r == occurs_at(s@, needle@, i as int),
{
    if needle.len() > s.len() - i {
        return false;
    }
    let mut k: usize = 0;
    while k < needle.len()
        invariant
            i + needle.len() <= s.len(),
            k <= needle.len(),
            forall|m: int| 0 <= m < k ==> s@[i + m] == needle@[m],
        decreases needle.len() - k,
    {
        if s[i + k] != needle[k] {
            assert(s@.subrange(i as int, i + needle.len())[k as int] != needle@[k as int]);
            return false;
        }
        k = k + 1;
    }
    assert(s@.subrange(i as int, i + needle.len()) =~= needle@);
    true
}

fn runtime_family(runtime_id: &str) -> (r: Option<String>)
    ensures
        match r {
            Some(f) => family_in_runtime_id(runtime_id@) == Some(f@),
            None => family_in_runtime_id(runtime_id@) is None,
        },
{
    let chars = chars_of(runtime_id);
    let lower = ascii_lowercase(&chars);
    if occurs_exec(&lower, "banking77") {
        Some(String::from_str("banking77"))
    } else if occurs_exec(&lower, "healthbench") {
        Some(String::from_str("healthbench"))
    } else if occurs_exec(&lower, "craftax") {
        Some(String::from_str("craftax"))
    } else if occurs_exec(&lower, "alfworld") {
        Some(String::from_str("alfworld"))
    } else {
        None
    }
}

/// The task family a probed container advertises.
pub fn advertised_task_family(
    classified: Option<String>,
    info: Option<&JsonValue>,
    health: &JsonValue,
) -> (r: Option<String>)
    ensures
        match r {
            Some(f) => advertised_family(
                match classified { Some(c) => Some(c@), None => None },
                match info { Some(i) => Some(i@), None => None },
                health@,
            ) == Some(f@),
            None => advertised_family(
                match classified { Some(c) => Some(c@), None => None },
                match info { Some(i) => Some(i@), None => None },
                health@,
            ) is None,
        },
{
    if let Some(i) = info {
        if let Some(c) = classified {
            return Some(c);
        }
        let declared = if i.get("env_family").is_some() {
            text_of_member(i, "env_family")
        } else if i.get("task_family").is_some() {
            text_of_member(i, "task_family")
        } else {
            text_of_member(i, "runtime_family")
        };
        if declared.is_some() {
            return declared;
        }
        match i.get("runtime") {
            Some(rt) => match text_of_member(rt, "runtime_id") {
                Some(id) => match runtime_family(id.as_str()) {
                    Some(f) => return Some(f),
                    None => {},
                },
                None => {},
            },
            None => {},
        }
    }
    match health.get("payload") {
        Some(p) => text_of_member(p, "env_family"),
        None => None,
    }
}


// ---------------------------------------------------------------------------
// Registration
// ---------------------------------------------------------------------------

/// A container is registered only at an HTTP or HTTPS base URL.
pub fn check_registration_url(base_url: &str) -> (r: Result<(), String>)
    ensures
        r is Ok <==> has_prefix(base_url@, "http://"@) || has_prefix(base_url@, "https://"@),
        r matches Err(m) ==> m@ == "container baseUrl must start with http:// or https://"@,
{
    if starts_with(base_url, "http://") || starts_with(base_url, "https://") {
        Ok(())
    } else {
        Err(String::from_str("container baseUrl must start with http:// or https://"))
    }
}

/// A hydrated container whose live evaluation failed over its frame stream
/// is refused, with that error; any other container may be registered.
pub fn registration_refusal(metadata: &JsonValue) -> (r: Option<String>)
    ensures
        match text_member(metadata@, "liveEvalError"@) {
            Some(e) => if contains_text(e, "live_frames"@) {
                r matches Some(m) && m@ == e
            } else {
                r is None
            },
            None => r is None,
        },
{
    match text_of_member(metadata, "liveEvalError") {
        Some(error) => {
            let chars = chars_of(error.as_str());
            if occurs_exec(&chars, "live_frames") {
                Some(error)
            } else {
                None
            }
        },
        None => None,
    }
}

} // verus!
