//! The body of an inline request as a tool call or IPC message carries it.
//! A caller may wrap the request under `request` and may send its own session
//! fields beside it; neither may travel into the specification as an unknown
//! field, so they are removed before the body is read as a request.

use crate::json::{copy_json, entries_of, json_view, lemma_entries_of, lookup, member, JsonValue, JsonView};
use crate::text::same_text;
use vstd::prelude::*;

verus! {

/// The host's own fields, which are never part of a request.
pub open spec fn host_fields() -> Seq<Seq<char>> {
    seq![
        "sessionRef"@,
        "session_ref"@,
        "openVisual"@,
        "open_visual"@,
        "idempotencyKey"@,
        "idempotency_key"@,
        "request"@,
    ]
}

pub open spec fn is_request_entry(e: (Seq<char>, JsonView)) -> bool {
    !host_fields().contains(e.0)
}

/// The request a tool body carries: the member `request` where there is one,
/// else the body itself, with every host field of an object removed.
pub open spec fn tool_request_view(body: JsonView) -> JsonView {
    let v = match member(body, "request"@) {
        Some(inner) => inner,
        None => body,
    };
    match v {
        JsonView::Object(entries) => JsonView::Object(entries.filter(|e: (Seq<char>, JsonView)| is_request_entry(e))),
        other => other,
    }
}

fn is_host_field(key: &str) -> (r: bool)
    ensures
        r == host_fields().contains(key@),
{
    let r = same_text(key, "sessionRef") || same_text(key, "session_ref") || same_text(
        key,
        "openVisual",
    ) || same_text(key, "open_visual") || same_text(key, "idempotencyKey") || same_text(
        key,
        "idempotency_key",
    ) || same_text(key, "request");
    proof {
        let h = host_fields();
        assert(h[0] == "sessionRef"@ && h[1] == "session_ref"@ && h[2] == "openVisual"@ && h[3]
            == "open_visual"@ && h[4] == "idempotencyKey"@ && h[5] == "idempotency_key"@ && h[6]
            == "request"@);
        if h.contains(key@) {
            let k = choose|k: int| 0 <= k < h.len() && h[k] == key@;
            assert(0 <= k < 7);
        }
    }
    r
}

proof fn lemma_filtered_lookup(entries: Seq<(Seq<char>, JsonView)>, key: Seq<char>)
    requires
        host_fields().contains(key),
    ensures
        lookup(entries.filter(|e: (Seq<char>, JsonView)| is_request_entry(e)), key) is None,
    decreases entries.len(),
{
    let p = |e: (Seq<char>, JsonView)| is_request_entry(e);
    let f = entries.filter(p);
    if entries.len() == 0 {
        reveal(Seq::filter);
        assert(f.len() == 0);
    } else {
        let init = entries.drop_last();
        lemma_filtered_lookup(init, key);
        assert(entries =~= init.push(entries.last()));
        init.lemma_filter_push(entries.last(), p);
        if p(entries.last()) {
            assert(f.drop_last() =~= init.filter(p));
            assert(f.last().0 != key);
        }
    }
}

/// The request of a tool body, as `tool_request_view` says; no host field
/// survives in it.
pub fn tool_arguments_body(body: JsonValue) -> (r: JsonValue)
    ensures
        r@ == tool_request_view(body@),
        forall|k: Seq<char>| host_fields().contains(k) ==> member(r@, k) is None,
{
    let v = match body.get("request") {
        Some(inner) => copy_json(inner),
        None => body,
    };
    let ghost vv = v@;
    let r = match v {
        JsonValue::Object(entries) => {
            let ghost p = |e: (Seq<char>, JsonView)| is_request_entry(e);
            let ghost all = entries_of(entries@);
            proof {
                lemma_entries_of(entries@);
            }
            let mut kept: Vec<(String, JsonValue)> = Vec::new();
            let mut i: usize = 0;
            while i < entries.len()
                invariant
                    p == (|e: (Seq<char>, JsonView)| is_request_entry(e)),
                    all == entries_of(entries@),
                    all.len() == entries@.len(),
                    forall|k: int|
                        0 <= k < entries@.len() ==> #[trigger] all[k] == (
                            entries@[k].0@,
                            json_view(entries@[k].1),
                        ),
                    i <= entries@.len(),
                    entries_of(kept@) == all.take(i as int).filter(p),
                decreases entries@.len() - i,
            {
                let ghost before = kept@;
                proof {
                    assert(all.take(i as int + 1) =~= all.take(i as int).push(all[i as int]));
                    all.take(i as int).lemma_filter_push(all[i as int], p);
                    lemma_entries_of(before);
                }
                let host = is_host_field(entries[i].0.as_str());
                assert(all[i as int].0 == entries@[i as int].0@);
                if !host {
                    let key = entries[i].0.clone();
                    let value = copy_json(&entries[i].1);
                    kept.push((key, value));
                    proof {
                        lemma_entries_of(kept@);
                        assert(entries_of(kept@) =~= entries_of(before).push(all[i as int]));
                    }
                    assert(entries_of(kept@) == all.take(i as int + 1).filter(p));
                } else {
                    assert(entries_of(kept@) == all.take(i as int + 1).filter(p));
                }
                i = i + 1;
            }
            proof {
                assert(all.take(entries@.len() as int) =~= all);
            }
            JsonValue::Object(kept)
        },
        other => other,
    };
    proof {
        assert forall|k: Seq<char>| host_fields().contains(k) implies member(r@, k) is None by {
            if let JsonView::Object(es) = vv {
                lemma_filtered_lookup(es, k);
            }
        }
    }
    r
}

} // verus!
