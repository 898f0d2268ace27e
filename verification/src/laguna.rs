//! The published Laguna finetune: what Settings shows of it, and the checks a
//! download makes before the adapter is registered.

use crate::json::{entries_of, field, object_of, text_value, text_view, unsigned_value, count_view, JsonValue, JsonView};
use crate::text::{concat, concat3, same_text};
use vstd::prelude::*;

verus! {

/// What the Settings surface renders for the published finetune.
pub struct LagunaAdapterStatus {
    pub model_id: String,
    pub title: String,
    pub digest: String,
    pub installed: bool,
    pub download_bytes: u64,
    pub base_revision: String,
    /// False when the installed weights are a different revision. The adapter
    /// is shown either way; only the action is refused.
    pub base_matches: bool,
}

/// The status of an adapter: whether it is installed, and whether its base
/// revision is the installed one.
pub fn adapter_status(
    model_id: &str,
    title: &str,
    digest: &str,
    installed: bool,
    download_bytes: u64,
    base_revision: &str,
    installed_base_revision: &str,
) -> (r: LagunaAdapterStatus)
    ensures
        r.model_id@ == model_id@,
        r.title@ == title@,
        r.digest@ == digest@,
        r.installed == installed,
        r.download_bytes == download_bytes,
        r.base_revision@ == base_revision@,
        r.base_matches == (base_revision@ == installed_base_revision@),
{
    LagunaAdapterStatus {
        model_id: String::from_str(model_id),
        title: String::from_str(title),
        digest: String::from_str(digest),
        installed,
        download_bytes,
        base_revision: String::from_str(base_revision),
        base_matches: same_text(base_revision, installed_base_revision),
    }
}

/// The bytes a manifest's files add up to.
pub open spec fn bytes_total(sizes: Seq<u64>) -> nat
    decreases sizes.len(),
{
    if sizes.len() == 0 {
        0
    } else {
        bytes_total(sizes.drop_last()) + sizes.last() as nat
    }
}

/// The download size of a manifest's files, where it fits in 64 bits.
pub fn download_total(sizes: &Vec<u64>) -> (r: Option<u64>)
    ensures
        match r {
            Some(t) => t == bytes_total(sizes@),
            None => bytes_total(sizes@) > u64::MAX,
        },
{
    let mut total: u64 = 0;
    let mut i: usize = 0;
    while i < sizes.len()
        invariant
            i <= sizes@.len(),
            total == bytes_total(sizes@.take(i as int)),
        decreases sizes@.len() - i,
    {
        assert(sizes@.take(i + 1).drop_last() =~= sizes@.take(i as int));
        match total.checked_add(sizes[i]) {
            Some(t) => total = t,
            None => {
                proof {
                    lemma_total_monotone(sizes@, i + 1);
                }
                return None;
            },
        }
        i = i + 1;
    }
    assert(sizes@.take(i as int) =~= sizes@);
    Some(total)
}

proof fn lemma_total_monotone(sizes: Seq<u64>, n: int)
    requires
        0 <= n <= sizes.len(),
    ensures
        bytes_total(sizes.take(n)) <= bytes_total(sizes),
    decreases sizes.len() - n,
{
    if n < sizes.len() {
        lemma_total_monotone(sizes, n + 1);
        assert(sizes.take(n + 1).drop_last() =~= sizes.take(n));
    } else {
        assert(sizes.take(n) =~= sizes);
    }
}

/// A download progress event.
pub open spec fn progress_json(phase: Seq<char>, detail: Seq<char>, model_id: Seq<char>, done: u64, total: u64) -> JsonView {
    JsonView::Object(seq![
        ("phase"@, text_view(phase)),
        ("detail"@, text_view(detail)),
        ("modelId"@, text_view(model_id)),
        ("downloadedBytes"@, count_view(done)),
        ("totalBytes"@, count_view(total)),
    ])
}

pub fn progress_event(phase: &str, detail: &str, model_id: &str, done: u64, total: u64) -> (r: JsonValue)
    ensures
        r@ == progress_json(phase@, detail@, model_id@, done, total),
{
    let entries = vec![
        field("phase", text_value(phase)),
        field("detail", text_value(detail)),
        field("modelId", text_value(model_id)),
        field("downloadedBytes", unsigned_value(done)),
        field("totalBytes", unsigned_value(total)),
    ];
    proof {
        crate::json::lemma_entries_of(entries@);
    }
    let r = object_of(entries);
    assert(entries_of(entries@) =~= seq![
        ("phase"@, text_view(phase@)),
        ("detail"@, text_view(detail@)),
        ("modelId"@, text_view(model_id@)),
        ("downloadedBytes"@, count_view(done)),
        ("totalBytes"@, count_view(total)),
    ]);
    r
}

/// The progress detail while one file downloads.
pub fn downloading_detail(path: &str) -> (r: String)
    ensures
        r@ == "Downloading "@ + path@ + "…"@,
{
    concat3("Downloading ", path, "…")
}

/// An installed adapter must be the one the manifest published.
pub fn check_installed_digest(installed: &str, published: &str) -> (r: Result<(), String>)
    ensures
        match r {
            Ok(_) => installed@ == published@,
            Err(m) => installed@ != published@ && m@ == "installed adapter is "@ + installed@
                + " but the manifest published "@ + published@,
        },
{
    if same_text(installed, published) {
        Ok(())
    } else {
        let mut m = concat3("installed adapter is ", installed, " but the manifest published ");
        m.append(published);
        Err(m)
    }
}

} // verus!
