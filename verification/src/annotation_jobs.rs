//! Which trace, annotator and repeat each annotation job the container
//! returned stands for. The container submits in plan order (trace, then
//! annotator, then repeat) and names what it refused by key, so the accepted
//! sequence can be rebuilt; a job bound to a reservation is matched by its
//! key, and where the counts disagree only such jobs keep a trace.

use crate::admission::canonical::{json_digest, CanonicalJson};
use crate::admission::ids::Digest;
use crate::annotation::{annotator_views, plan_json, AnnotationStageSpec, AnnotatorSpec, AnnotatorView, StageView};
use crate::cloud::copy_items;
use crate::artifacts::nonblank_text;
use crate::json::{canonical, copy_json, entries_of, field, items_of, lemma_entries_of, lemma_items_of, member, object_of, text_value, unsigned_value, JsonValue, JsonView, NumberView};
use crate::text::trim_str;
use crate::text::{concat, concat3, decimal, same_text, texts_of, u64_to_string};
use vstd::prelude::*;

verus! {

// ---------------------------------------------------------------------------
// The plan
// ---------------------------------------------------------------------------

/// The key of one planned job.
pub open spec fn job_key(digest: Seq<char>, annotator_id: Seq<char>, repeat: u64) -> Seq<char> {
    digest + "|"@ + annotator_id + "|"@ + decimal(repeat as nat)
}

/// A member that is text, as it stands.
pub open spec fn text_member(v: JsonView, key: Seq<char>) -> Option<Seq<char>> {
    match member(v, key) {
        Some(JsonView::Text(s)) => Some(s),
        _ => None,
    }
}

/// The key of a refused job: its trace digest and annotator, and its repeat
/// (zero where it names none).
pub open spec fn refused_key(item: JsonView) -> Option<Seq<char>> {
    match (text_member(item, "trace_digest"@), text_member(item, "annotator_id"@)) {
        (Some(d), Some(a)) => Some(
            job_key(
                d,
                a,
                match member(item, "repeat_index"@) {
                    Some(JsonView::Number(NumberView::Unsigned(n))) => n,
                    _ => 0,
                },
            ),
        ),
        _ => None,
    }
}

pub open spec fn refused_keys(items: Seq<JsonView>) -> Seq<Seq<char>>
    decreases items.len(),
{
    if items.len() == 0 {
        Seq::empty()
    } else {
        let rest = refused_keys(items.drop_last());
        match refused_key(items.last()) {
            Some(k) => rest.push(k),
            None => rest,
        }
    }
}

/// A planned job: key, trace id, trace digest, annotator and repeat.
pub open spec fn planned(
    trace_id: Seq<char>,
    digest: Seq<char>,
    annotator_id: Seq<char>,
    repeat: u64,
) -> (Seq<char>, Seq<char>, Seq<char>, Seq<char>, u64) {
    (job_key(digest, annotator_id, repeat), trace_id, digest, annotator_id, repeat)
}

/// The first `n` repeats of one annotator on one trace, less the refused.
pub open spec fn repeat_plan(
    trace_id: Seq<char>,
    digest: Seq<char>,
    annotator_id: Seq<char>,
    refused: Seq<Seq<char>>,
    n: nat,
) -> Seq<(Seq<char>, Seq<char>, Seq<char>, Seq<char>, u64)>
    decreases n,
{
    if n == 0 {
        Seq::empty()
    } else {
        let before = repeat_plan(trace_id, digest, annotator_id, refused, (n - 1) as nat);
        let job = planned(trace_id, digest, annotator_id, (n - 1) as u64);
        if refused.contains(job.0) {
            before
        } else {
            before.push(job)
        }
    }
}

/// How often an annotator runs on each trace: at least once.
pub open spec fn repeat_count(a: AnnotatorView) -> nat {
    if a.repeats < 1 {
        1
    } else {
        a.repeats as nat
    }
}

/// Every annotator's repeats on one trace, in order.
pub open spec fn trace_plan(
    trace_id: Seq<char>,
    digest: Seq<char>,
    annotators: Seq<AnnotatorView>,
    refused: Seq<Seq<char>>,
) -> Seq<(Seq<char>, Seq<char>, Seq<char>, Seq<char>, u64)>
    decreases annotators.len(),
{
    if annotators.len() == 0 {
        Seq::empty()
    } else {
        let a = annotators.last();
        trace_plan(trace_id, digest, annotators.drop_last(), refused) + repeat_plan(
            trace_id,
            digest,
            a.annotator_id,
            refused,
            repeat_count(a),
        )
    }
}

/// The whole plan: every trace with an id and a digest, in order.
pub open spec fn job_plan(
    traces: Seq<JsonView>,
    annotators: Seq<AnnotatorView>,
    refused: Seq<Seq<char>>,
) -> Seq<(Seq<char>, Seq<char>, Seq<char>, Seq<char>, u64)>
    decreases traces.len(),
{
    if traces.len() == 0 {
        Seq::empty()
    } else {
        let t = traces.last();
        job_plan(traces.drop_last(), annotators, refused) + match (
            text_member(t, "id"@),
            text_member(t, "digest"@),
        ) {
            (Some(id), Some(d)) => trace_plan(id, d, annotators, refused),
            _ => Seq::empty(),
        }
    }
}

// ---------------------------------------------------------------------------
// Executable plan
// ---------------------------------------------------------------------------

struct PlannedJob {
    key: String,
    trace_id: String,
    digest: String,
    annotator_id: String,
    repeat: u64,
}

spec fn planned_view(p: PlannedJob) -> (Seq<char>, Seq<char>, Seq<char>, Seq<char>, u64) {
    (p.key@, p.trace_id@, p.digest@, p.annotator_id@, p.repeat)
}

spec fn planned_views(s: Seq<PlannedJob>) -> Seq<(Seq<char>, Seq<char>, Seq<char>, Seq<char>, u64)> {
    s.map_values(|p: PlannedJob| planned_view(p))
}

fn text_of(v: &JsonValue, key: &str) -> (r: Option<String>)
    ensures
        match r {
            Some(s) => text_member(v@, key@) == Some(s@),
            None => text_member(v@, key@) is None,
        },
{
    match v.get(key) {
        Some(x) => match x.as_text() {
            Some(s) => Some(s.clone()),
            None => None,
        },
        None => None,
    }
}

fn key_of(digest: &str, annotator_id: &str, repeat: u64) -> (r: String)
    ensures
        r@ == job_key(digest@, annotator_id@, repeat),
{
    let head = concat3(digest, "|", annotator_id);
    let with_bar = concat(head.as_str(), "|");
    let n = u64_to_string(repeat);
    concat(with_bar.as_str(), n.as_str())
}

fn contains_text(list: &Vec<String>, s: &str) -> (r: bool)
    ensures
        r == texts_of(list@).contains(s@),
{
    let mut i: usize = 0;
    while i < list.len()
        invariant
            i <= list@.len(),
            forall|k: int| 0 <= k < i ==> list@[k]@ != s@,
        decreases list@.len() - i,
    {
        if same_text(list[i].as_str(), s) {
            assert(texts_of(list@)[i as int] == s@);
            return true;
        }
        i = i + 1;
    }
    proof {
        if texts_of(list@).contains(s@) {
            let k = choose|k: int| 0 <= k < texts_of(list@).len() && texts_of(list@)[k] == s@;
            assert(list@[k]@ == s@);
        }
    }
    false
}

fn refused_keys_of(refused: &Vec<JsonValue>) -> (r: Vec<String>)
    ensures
        texts_of(r@) == refused_keys(items_of(refused@)),
{
    proof {
        lemma_items_of(refused@);
    }
    let ghost all = items_of(refused@);
    let mut keys: Vec<String> = Vec::new();
    let mut i: usize = 0;
    while i < refused.len()
        invariant
            i <= refused@.len(),
            all == items_of(refused@),
            all.len() == refused@.len(),
            forall|k: int| 0 <= k < refused@.len() ==> #[trigger] all[k] == refused@[k]@,
            texts_of(keys@) == refused_keys(all.take(i as int)),
        decreases refused@.len() - i,
    {
        let item = &refused[i];
        assert(all.take(i as int + 1).drop_last() =~= all.take(i as int));
        assert(all.take(i as int + 1).last() == item@);
        let digest = text_of(item, "trace_digest");
        let annotator = text_of(item, "annotator_id");
        match (digest, annotator) {
            (Some(d), Some(a)) => {
                let repeat: u64 = match item.get("repeat_index") {
                    Some(x) => match x.as_u64() {
                        Some(n) => n,
                        None => 0,
                    },
                    None => 0,
                };
                let k = key_of(d.as_str(), a.as_str(), repeat);
                keys.push(k);
                assert(texts_of(keys@) =~= refused_keys(all.take(i as int)).push(
                    refused_key(item@)->0,
                ));
            },
            _ => {},
        }
        i = i + 1;
    }
    assert(all.take(refused@.len() as int) =~= all);
    keys
}

fn push_repeats(
    out: &mut Vec<PlannedJob>,
    trace_id: &str,
    digest: &str,
    annotator_id: &str,
    refused: &Vec<String>,
    n: u64,
)
    ensures
        planned_views(final(out)@) == planned_views(old(out)@) + repeat_plan(
            trace_id@,
            digest@,
            annotator_id@,
            texts_of(refused@),
            n as nat,
        ),
{
    let ghost start = planned_views(out@);
    let mut r: u64 = 0;
    while r < n
        invariant
            r <= n,
            planned_views(out@) == start + repeat_plan(
                trace_id@,
                digest@,
                annotator_id@,
                texts_of(refused@),
                r as nat,
            ),
        decreases n - r,
    {
        let key = key_of(digest, annotator_id, r);
        let ghost before = out@;
        if !contains_text(refused, key.as_str()) {
            out.push(
                PlannedJob {
                    key,
                    trace_id: String::from_str(trace_id),
                    digest: String::from_str(digest),
                    annotator_id: String::from_str(annotator_id),
                    repeat: r,
                },
            );
            assert(planned_views(out@) =~= planned_views(before).push(
                planned(trace_id@, digest@, annotator_id@, r),
            ));
        }
        r = r + 1;
    }
}

fn push_annotators(
    out: &mut Vec<PlannedJob>,
    trace_id: &str,
    digest: &str,
    annotators: &Vec<AnnotatorSpec>,
    refused: &Vec<String>,
)
    ensures
        planned_views(final(out)@) == planned_views(old(out)@) + trace_plan(
            trace_id@,
            digest@,
            annotator_views(annotators@),
            texts_of(refused@),
        ),
{
    let ghost start = planned_views(out@);
    let ghost all = annotator_views(annotators@);
    let mut a: usize = 0;
    while a < annotators.len()
        invariant
            a <= annotators@.len(),
            all == annotator_views(annotators@),
            planned_views(out@) == start + trace_plan(
                trace_id@,
                digest@,
                all.take(a as int),
                texts_of(refused@),
            ),
        decreases annotators@.len() - a,
    {
        let spec = &annotators[a];
        let count: u64 = if spec.repeats < 1 {
            1
        } else {
            spec.repeats as u64
        };
        push_repeats(out, trace_id, digest, spec.annotator_id.as_str(), refused, count);
        proof {
            let next = all.take(a as int + 1);
            assert(next.drop_last() =~= all.take(a as int));
            assert(next.last() == spec@);
            assert(planned_views(out@) =~= start + trace_plan(
                trace_id@,
                digest@,
                next,
                texts_of(refused@),
            ));
        }
        a = a + 1;
    }
    assert(all.take(annotators@.len() as int) =~= all);
}

fn plan_of(traces: &Vec<JsonValue>, annotators: &Vec<AnnotatorSpec>, refused: &Vec<String>) -> (r:
    Vec<PlannedJob>)
    ensures
        planned_views(r@) == job_plan(
            items_of(traces@),
            annotator_views(annotators@),
            texts_of(refused@),
        ),
{
    proof {
        lemma_items_of(traces@);
    }
    let ghost all = items_of(traces@);
    let mut out: Vec<PlannedJob> = Vec::new();
    let mut t: usize = 0;
    assert(planned_views(out@) =~= Seq::empty());
    while t < traces.len()
        invariant
            t <= traces@.len(),
            all == items_of(traces@),
            all.len() == traces@.len(),
            forall|k: int| 0 <= k < traces@.len() ==> #[trigger] all[k] == traces@[k]@,
            planned_views(out@) == job_plan(
                all.take(t as int),
                annotator_views(annotators@),
                texts_of(refused@),
            ),
        decreases traces@.len() - t,
    {
        let trace = &traces[t];
        let ghost prefix = planned_views(out@);
        let ghost next = all.take(t as int + 1);
        assert(next.drop_last() =~= all.take(t as int));
        assert(next.last() == trace@);
        let id = text_of(trace, "id");
        let digest = text_of(trace, "digest");
        match (id, digest) {
            (Some(i), Some(d)) => {
                push_annotators(&mut out, i.as_str(), d.as_str(), annotators, refused);
            },
            _ => {
                assert(prefix + Seq::empty() =~= prefix);
            },
        }
        t = t + 1;
    }
    assert(all.take(traces@.len() as int) =~= all);
    out
}

// ---------------------------------------------------------------------------
// Binding returned jobs
// ---------------------------------------------------------------------------

/// A reservation issued for one planned key, and the job it went to.
#[derive(Debug)]
pub struct JobBinding {
    pub key: String,
    pub job_id: String,
    pub reservation_id: Option<String>,
}

/// A returned job and what it stands for, as far as that is known.
#[derive(Debug, PartialEq, Eq)]
pub struct RecordedJob {
    pub job_id: String,
    pub trace_id: Option<String>,
    pub trace_digest: Option<String>,
    pub annotator_id: Option<String>,
    pub repeat_index: Option<u64>,
    pub reservation_id: Option<String>,
}

pub open spec fn opt_text(o: Option<String>) -> Option<Seq<char>> {
    match o {
        Some(s) => Some(s@),
        None => None,
    }
}

/// The binding of a job: where bindings name one job twice, the later one.
pub open spec fn binding_index(bindings: Seq<JobBinding>, job_id: Seq<char>) -> Option<int>
    decreases bindings.len(),
{
    if bindings.len() == 0 {
        None
    } else if bindings.last().job_id@ == job_id {
        Some(bindings.len() - 1)
    } else {
        binding_index(bindings.drop_last(), job_id)
    }
}

/// The planned job under a key: where the plan holds a key twice, the later.
pub open spec fn plan_index(
    plan: Seq<(Seq<char>, Seq<char>, Seq<char>, Seq<char>, u64)>,
    key: Seq<char>,
) -> Option<int>
    decreases plan.len(),
{
    if plan.len() == 0 {
        None
    } else if plan.last().0 == key {
        Some(plan.len() - 1)
    } else {
        plan_index(plan.drop_last(), key)
    }
}

/// Which planned job the `index`-th returned job stands for: the one its
/// binding's key names, else, where as many jobs came back as were planned,
/// the one at the same place in the plan.
pub open spec fn planned_index(
    plan: Seq<(Seq<char>, Seq<char>, Seq<char>, Seq<char>, u64)>,
    bindings: Seq<JobBinding>,
    job_ids: Seq<Seq<char>>,
    index: int,
) -> Option<int> {
    let by_key = match binding_index(bindings, job_ids[index]) {
        Some(b) => plan_index(plan, bindings[b].key@),
        None => None,
    };
    if by_key is Some {
        by_key
    } else if plan.len() == job_ids.len() {
        Some(index)
    } else {
        None
    }
}

/// What the `index`-th returned job is recorded as.
pub open spec fn recorded_as(
    r: RecordedJob,
    plan: Seq<(Seq<char>, Seq<char>, Seq<char>, Seq<char>, u64)>,
    bindings: Seq<JobBinding>,
    job_ids: Seq<Seq<char>>,
    index: int,
) -> bool {
    &&& r.job_id@ == job_ids[index]
    &&& match planned_index(plan, bindings, job_ids, index) {
        Some(p) => {
            &&& opt_text(r.trace_id) == Some(plan[p].1)
            &&& opt_text(r.trace_digest) == Some(plan[p].2)
            &&& opt_text(r.annotator_id) == Some(plan[p].3)
            &&& r.repeat_index == Some(plan[p].4)
        },
        None => {
            &&& r.trace_id is None
            &&& r.trace_digest is None
            &&& r.annotator_id is None
            &&& r.repeat_index is None
        },
    }
    &&& opt_text(r.reservation_id) == match binding_index(bindings, job_ids[index]) {
        Some(b) => opt_text(bindings[b].reservation_id),
        None => None,
    }
}

fn find_binding(bindings: &Vec<JobBinding>, job_id: &str) -> (r: Option<usize>)
    ensures
        match r {
            Some(b) => binding_index(bindings@, job_id@) == Some(b as int) && b < bindings@.len(),
            None => binding_index(bindings@, job_id@) is None,
        },
{
    let mut i: usize = bindings.len();
    assert(bindings@.take(i as int) =~= bindings@);
    while i > 0
        invariant
            i <= bindings@.len(),
            binding_index(bindings@, job_id@) == binding_index(bindings@.take(i as int), job_id@),
        decreases i,
    {
        let ghost pre = bindings@.take(i as int);
        assert(pre.drop_last() =~= bindings@.take(i - 1));
        if same_text(bindings[i - 1].job_id.as_str(), job_id) {
            return Some(i - 1);
        }
        i = i - 1;
    }
    None
}

fn find_planned(plan: &Vec<PlannedJob>, key: &str) -> (r: Option<usize>)
    ensures
        match r {
            Some(p) => plan_index(planned_views(plan@), key@) == Some(p as int) && p < plan@.len(),
            None => plan_index(planned_views(plan@), key@) is None,
        },
{
    let ghost all = planned_views(plan@);
    let mut i: usize = plan.len();
    assert(all.take(i as int) =~= all);
    while i > 0
        invariant
            i <= plan@.len(),
            all == planned_views(plan@),
            plan_index(all, key@) == plan_index(all.take(i as int), key@),
        decreases i,
    {
        let ghost pre = all.take(i as int);
        assert(pre.drop_last() =~= all.take(i - 1));
        assert(pre.last() == planned_view(plan@[i - 1]));
        if same_text(plan[i - 1].key.as_str(), key) {
            return Some(i - 1);
        }
        i = i - 1;
    }
    None
}

/// Binds each returned job to the planned job it stands for and to the
/// reservation issued for it.
pub fn bind_jobs(
    traces: &Vec<JsonValue>,
    annotators: &Vec<AnnotatorSpec>,
    refused: &Vec<JsonValue>,
    job_ids: &Vec<String>,
    bindings: &Vec<JobBinding>,
) -> (r: Vec<RecordedJob>)
    ensures
        r@.len() == job_ids@.len(),
        forall|i: int|
            0 <= i < r@.len() ==> recorded_as(
                #[trigger] r@[i],
                job_plan(
                    items_of(traces@),
                    annotator_views(annotators@),
                    refused_keys(items_of(refused@)),
                ),
                bindings@,
                texts_of(job_ids@),
                i,
            ),
{
    let refused_keys_list = refused_keys_of(refused);
    let plan = plan_of(traces, annotators, &refused_keys_list);
    let ghost plan_view = planned_views(plan@);
    let aligned = plan.len() == job_ids.len();
    let mut out: Vec<RecordedJob> = Vec::new();
    let mut i: usize = 0;
    while i < job_ids.len()
        invariant
            i <= job_ids@.len(),
            out@.len() == i,
            plan_view == planned_views(plan@),
            plan_view == job_plan(
                items_of(traces@),
                annotator_views(annotators@),
                refused_keys(items_of(refused@)),
            ),
            aligned == (plan@.len() == job_ids@.len()),
            forall|k: int|
                0 <= k < i ==> recorded_as(
                    #[trigger] out@[k],
                    plan_view,
                    bindings@,
                    texts_of(job_ids@),
                    k,
                ),
        decreases job_ids@.len() - i,
    {
        let job_id = &job_ids[i];
        assert(texts_of(job_ids@)[i as int] == job_id@);
        let bound = find_binding(bindings, job_id.as_str());
        let by_key = match bound {
            Some(b) => find_planned(&plan, bindings[b].key.as_str()),
            None => None,
        };
        let entry: Option<usize> = if by_key.is_some() {
            by_key
        } else if aligned {
            Some(i)
        } else {
            None
        };
        let reservation_id = match bound {
            Some(b) => bindings[b].reservation_id.clone(),
            None => None,
        };
        let recorded = match entry {
            Some(p) => {
                assert(plan_view[p as int] == planned_view(plan@[p as int]));
                RecordedJob {
                    job_id: job_id.clone(),
                    trace_id: Some(plan[p].trace_id.clone()),
                    trace_digest: Some(plan[p].digest.clone()),
                    annotator_id: Some(plan[p].annotator_id.clone()),
                    repeat_index: Some(plan[p].repeat),
                    reservation_id,
                }
            },
            None => RecordedJob {
                job_id: job_id.clone(),
                trace_id: None,
                trace_digest: None,
                annotator_id: None,
                repeat_index: None,
                reservation_id,
            },
        };
        out.push(recorded);
        i = i + 1;
    }
    out
}


// ---------------------------------------------------------------------------
// The paid lane
// ---------------------------------------------------------------------------

/// A field a paid job must name for its reservation.
#[derive(Debug, Clone, Copy, PartialEq, Eq)]
pub enum BindingField {
    TraceDigest,
    AnnotatorId,
    Model,
}

/// Why the paid lane of a campaign cannot be prepared. The free annotators
/// run regardless.
#[derive(Debug, Clone, Copy, PartialEq, Eq)]
pub enum PaidLaneRefusal {
    SessionRequired,
    CeilingUndeclared,
    ApproverUnavailable,
    EstimateUncapped,
    BrokerUnavailable,
    JobUncapped,
    BindingIncomplete(BindingField),
    CapOverflow,
    EstimateInconsistent { total: u64, declared: u64 },
    CeilingExceeded { total: u64, ceiling: u64 },
    CapReduced,
}

impl PaidLaneRefusal {
    /// The stable code of the refusal.
    pub fn code(&self) -> (r: &'static str)
        ensures
            r@ == match *self {
                PaidLaneRefusal::SessionRequired => "annotation_session_required"@,
                PaidLaneRefusal::CeilingUndeclared => "annotation_cap_unbounded"@,
                PaidLaneRefusal::ApproverUnavailable => "approval_broker_unavailable"@,
                PaidLaneRefusal::EstimateUncapped => "annotation_cap_unbounded"@,
                PaidLaneRefusal::BrokerUnavailable => "reservation_broker_unavailable"@,
                PaidLaneRefusal::JobUncapped => "annotation_cap_unbounded"@,
                PaidLaneRefusal::BindingIncomplete(_) => "annotation_binding_incomplete"@,
                PaidLaneRefusal::CapOverflow => "annotation_cap_unbounded"@,
                PaidLaneRefusal::EstimateInconsistent { .. } => "annotation_estimate_inconsistent"@,
                PaidLaneRefusal::CeilingExceeded { .. } => "annotation_cost_ceiling_exceeded"@,
                PaidLaneRefusal::CapReduced => "annotation_campaign_cap_reduced"@,
            },
    {
        match self {
            PaidLaneRefusal::SessionRequired => "annotation_session_required",
            PaidLaneRefusal::CeilingUndeclared => "annotation_cap_unbounded",
            PaidLaneRefusal::ApproverUnavailable => "approval_broker_unavailable",
            PaidLaneRefusal::EstimateUncapped => "annotation_cap_unbounded",
            PaidLaneRefusal::BrokerUnavailable => "reservation_broker_unavailable",
            PaidLaneRefusal::JobUncapped => "annotation_cap_unbounded",
            PaidLaneRefusal::BindingIncomplete(_) => "annotation_binding_incomplete",
            PaidLaneRefusal::CapOverflow => "annotation_cap_unbounded",
            PaidLaneRefusal::EstimateInconsistent { .. } => "annotation_estimate_inconsistent",
            PaidLaneRefusal::CeilingExceeded { .. } => "annotation_cost_ceiling_exceeded",
            PaidLaneRefusal::CapReduced => "annotation_campaign_cap_reduced",
        }
    }

    /// What the operator can do about it.
    pub fn remediation(&self) -> (r: &'static str)
        ensures
            r@ == match *self {
                PaidLaneRefusal::SessionRequired => "start the eval from an agent session so approval can be routed"@,
                PaidLaneRefusal::CeilingUndeclared => "declare annotation.max_cost_usd on the recipe"@,
                PaidLaneRefusal::ApproverUnavailable => "run from the Desktop, which installs the approval card"@,
                PaidLaneRefusal::EstimateUncapped => "declare limits.max_cost_usd on paid annotators"@,
                PaidLaneRefusal::BrokerUnavailable => "launch the container through workshop.containers.toml so Workshop can inject the annotation broker secret"@,
                PaidLaneRefusal::JobUncapped => "declare limits.max_cost_usd on every paid annotator"@,
                PaidLaneRefusal::BindingIncomplete(_) => "re-estimate against sealed Trace V5 inputs and registered annotators"@,
                PaidLaneRefusal::CapOverflow => "reduce the campaign size"@,
                PaidLaneRefusal::EstimateInconsistent { .. } => "refresh the container and estimate the campaign again"@,
                PaidLaneRefusal::CeilingExceeded { .. } => "raise annotation.max_cost_usd, drop annotators, or annotate fewer rollouts"@,
                PaidLaneRefusal::CapReduced => "approve the full bounded campaign or submit a smaller campaign"@,
            },
    {
        match self {
            PaidLaneRefusal::SessionRequired => "start the eval from an agent session so approval can be routed",
            PaidLaneRefusal::CeilingUndeclared => "declare annotation.max_cost_usd on the recipe",
            PaidLaneRefusal::ApproverUnavailable => "run from the Desktop, which installs the approval card",
            PaidLaneRefusal::EstimateUncapped => "declare limits.max_cost_usd on paid annotators",
            PaidLaneRefusal::BrokerUnavailable => "launch the container through workshop.containers.toml so Workshop can inject the annotation broker secret",
            PaidLaneRefusal::JobUncapped => "declare limits.max_cost_usd on every paid annotator",
            PaidLaneRefusal::BindingIncomplete(_) => "re-estimate against sealed Trace V5 inputs and registered annotators",
            PaidLaneRefusal::CapOverflow => "reduce the campaign size",
            PaidLaneRefusal::EstimateInconsistent { .. } => "refresh the container and estimate the campaign again",
            PaidLaneRefusal::CeilingExceeded { .. } => "raise annotation.max_cost_usd, drop annotators, or annotate fewer rollouts",
            PaidLaneRefusal::CapReduced => "approve the full bounded campaign or submit a smaller campaign",
        }
    }

    /// The message of the refusal. The one that compares amounts in dollars
    /// has none here: its dollar figures are rendered by the host.
    pub fn message(&self, container_id: &str) -> (r: Option<String>)
        ensures
            match *self {
                PaidLaneRefusal::SessionRequired => r matches Some(m) && m@ == "paid annotators need the run to belong to a session"@,
                PaidLaneRefusal::CeilingUndeclared => r matches Some(m) && m@ == "the recipe declares paid annotators without annotation.max_cost_usd"@,
                PaidLaneRefusal::ApproverUnavailable => r matches Some(m) && m@ == "no paid-annotation approver is installed in this process"@,
                PaidLaneRefusal::EstimateUncapped => r matches Some(m) && m@ == "campaign estimate has no max_cost_usd"@,
                PaidLaneRefusal::BrokerUnavailable => r matches Some(m) && m@ == "container `"@ + container_id@
                    + "` was not launched by Workshop; no reservation secret exists"@,
                PaidLaneRefusal::JobUncapped => r matches Some(m) && m@ == "campaign contains a paid job without max_cost_usd"@,
                PaidLaneRefusal::BindingIncomplete(f) => r matches Some(m) && m@ == "campaign paid job has no "@ + match f {
                    BindingField::TraceDigest => "trace digest"@,
                    BindingField::AnnotatorId => "annotator id"@,
                    BindingField::Model => "resolved model"@,
                },
                PaidLaneRefusal::CapOverflow => r matches Some(m) && m@ == "campaign cost cap overflowed"@,
                PaidLaneRefusal::EstimateInconsistent { total, declared } => r matches Some(m) && m@
                    == "campaign total "@ + decimal(total as nat) + " does not equal its paid-job caps "@
                    + decimal(declared as nat),
                PaidLaneRefusal::CeilingExceeded { .. } => r is None,
                PaidLaneRefusal::CapReduced => r matches Some(m) && m@ == "the approved campaign cap is below the sum of its job caps"@,
            },
    {
        match self {
            PaidLaneRefusal::SessionRequired => Some(String::from_str("paid annotators need the run to belong to a session")),
            PaidLaneRefusal::CeilingUndeclared => Some(String::from_str("the recipe declares paid annotators without annotation.max_cost_usd")),
            PaidLaneRefusal::ApproverUnavailable => Some(String::from_str("no paid-annotation approver is installed in this process")),
            PaidLaneRefusal::EstimateUncapped => Some(String::from_str("campaign estimate has no max_cost_usd")),
            PaidLaneRefusal::BrokerUnavailable => Some(concat3("container `", container_id, "` was not launched by Workshop; no reservation secret exists")),
            PaidLaneRefusal::JobUncapped => Some(String::from_str("campaign contains a paid job without max_cost_usd")),
            PaidLaneRefusal::BindingIncomplete(f) => Some(concat("campaign paid job has no ", match f {
                BindingField::TraceDigest => "trace digest",
                BindingField::AnnotatorId => "annotator id",
                BindingField::Model => "resolved model",
            })),
            PaidLaneRefusal::CapOverflow => Some(String::from_str("campaign cost cap overflowed")),
            PaidLaneRefusal::EstimateInconsistent { total, declared } => {
                let head = concat("campaign total ", u64_to_string(*total).as_str());
                let mid = concat(head.as_str(), " does not equal its paid-job caps ");
                Some(concat(mid.as_str(), u64_to_string(*declared).as_str()))
            },
            PaidLaneRefusal::CeilingExceeded { .. } => None,
            PaidLaneRefusal::CapReduced => Some(String::from_str("the approved campaign cap is below the sum of its job caps")),
        }
    }
}

/// A paid job's reservation binding: the trace, the annotator and the model,
/// each named and not blank, trimmed.
pub open spec fn binding_fields(job: JsonView) -> Result<(Seq<char>, Seq<char>, Seq<char>), BindingField> {
    match nonblank_text(member(job, "trace_digest"@)) {
        None => Err(BindingField::TraceDigest),
        Some(d) => match nonblank_text(member(job, "annotator_id"@)) {
            None => Err(BindingField::AnnotatorId),
            Some(a) => match nonblank_text(member(job, "model"@)) {
                None => Err(BindingField::Model),
                Some(m) => Ok((d, a, m)),
            },
        },
    }
}

/// The repeat a job names, zero where it names none.
pub open spec fn job_repeat(job: JsonView) -> u64 {
    match member(job, "repeat_index"@) {
        Some(JsonView::Number(NumberView::Unsigned(n))) => n,
        _ => 0,
    }
}

/// The reservations of the first `n` paid jobs, each with its key, binding
/// and cap, and the sum of their caps; or the first refusal among them.
pub open spec fn lane_jobs(jobs: Seq<JsonView>, caps: Seq<Option<u64>>, n: nat) -> Result<
    (Seq<(Seq<char>, Seq<char>, Seq<char>, Seq<char>, u64)>, nat),
    PaidLaneRefusal,
>
    decreases n,
{
    if n == 0 {
        Ok((Seq::empty(), 0))
    } else {
        match lane_jobs(jobs, caps, (n - 1) as nat) {
            Err(e) => Err(e),
            Ok((specs, total)) => match caps[n - 1] {
                None => Err(PaidLaneRefusal::JobUncapped),
                Some(cap) => match binding_fields(jobs[n - 1]) {
                    Err(f) => Err(PaidLaneRefusal::BindingIncomplete(f)),
                    Ok((d, a, m)) => if total + cap > u64::MAX {
                        Err(PaidLaneRefusal::CapOverflow)
                    } else {
                        Ok(
                            (
                                specs.push((job_key(d, a, job_repeat(jobs[n - 1])), d, a, m, cap)),
                                (total + cap) as nat,
                            ),
                        )
                    },
                },
            },
        }
    }
}

proof fn lemma_lane_jobs_err(jobs: Seq<JsonView>, caps: Seq<Option<u64>>, n: nat, m: nat)
    requires
        n <= m,
        lane_jobs(jobs, caps, n) is Err,
    ensures
        lane_jobs(jobs, caps, m) == lane_jobs(jobs, caps, n),
    decreases m - n,
{
    if m > n {
        lemma_lane_jobs_err(jobs, caps, n, (m - 1) as nat);
    }
}

/// The paid lane a campaign may have: the session it is approved in, its
/// total, and each paid job's reservation; or why it may not have one.
pub open spec fn paid_lane_outcome(
    session_id: Option<Seq<char>>,
    ceiling: Option<u64>,
    approver_installed: bool,
    total: Option<u64>,
    has_broker_secret: bool,
    jobs: Seq<JsonView>,
    caps: Seq<Option<u64>>,
) -> Result<(Seq<char>, u64, Seq<(Seq<char>, Seq<char>, Seq<char>, Seq<char>, u64)>), PaidLaneRefusal> {
    if !(session_id matches Some(s) && crate::text::trim(s).len() > 0) {
        Err(PaidLaneRefusal::SessionRequired)
    } else if ceiling is None {
        Err(PaidLaneRefusal::CeilingUndeclared)
    } else if !approver_installed {
        Err(PaidLaneRefusal::ApproverUnavailable)
    } else if total is None {
        Err(PaidLaneRefusal::EstimateUncapped)
    } else if !has_broker_secret {
        Err(PaidLaneRefusal::BrokerUnavailable)
    } else {
        match lane_jobs(jobs, caps, jobs.len()) {
            Err(e) => Err(e),
            Ok((specs, declared)) => if declared != total->0 {
                Err(PaidLaneRefusal::EstimateInconsistent { total: total->0, declared: declared as u64 })
            } else if total->0 > ceiling->0 {
                Err(PaidLaneRefusal::CeilingExceeded { total: total->0, ceiling: ceiling->0 })
            } else {
                Ok((session_id->0, total->0, specs))
            },
        }
    }
}

/// One paid job's reservation request.
#[derive(Debug, PartialEq, Eq)]
pub struct PaidJobReservation {
    pub key: String,
    pub trace_digest: String,
    pub annotator_id: String,
    pub model: String,
    pub cap_micros: u64,
}

pub open spec fn reservation_view(r: PaidJobReservation) -> (Seq<char>, Seq<char>, Seq<char>, Seq<char>, u64) {
    (r.key@, r.trace_digest@, r.annotator_id@, r.model@, r.cap_micros)
}

pub open spec fn reservation_views(s: Seq<PaidJobReservation>) -> Seq<(Seq<char>, Seq<char>, Seq<char>, Seq<char>, u64)> {
    s.map_values(|r: PaidJobReservation| reservation_view(r))
}

/// A paid lane ready for approval.
#[derive(Debug)]
pub struct PaidLanePlan {
    pub session_id: String,
    pub total_micros: u64,
    pub reservations: Vec<PaidJobReservation>,
}

fn nonblank_field(job: &JsonValue, key: &str) -> (r: Option<String>)
    ensures
        match r {
            Some(t) => nonblank_text(member(job@, key@)) == Some(t@),
            None => nonblank_text(member(job@, key@)) is None,
        },
{
    match job.get(key) {
        Some(v) => match v.as_text() {
            Some(s) => {
                let t = trim_str(s.as_str());
                if t.as_str().is_empty() {
                    None
                } else {
                    Some(t)
                }
            },
            None => None,
        },
        None => None,
    }
}

/// Plans the paid lane of a campaign. `ceiling_micros` is the recipe's
/// ceiling, `total_micros` the estimate's total and `job_caps` each paid
/// job's cap, all as micros where they were given; `has_broker_secret` says
/// whether the container holds a reservation secret.
pub fn paid_lane_plan(
    session_id: Option<&str>,
    ceiling_micros: Option<u64>,
    approver_installed: bool,
    total_micros: Option<u64>,
    has_broker_secret: bool,
    paid_jobs: &Vec<JsonValue>,
    job_caps: &Vec<Option<u64>>,
) -> (r: Result<PaidLanePlan, PaidLaneRefusal>)
    requires
        job_caps@.len() == paid_jobs@.len(),
    ensures
        match paid_lane_outcome(
            match session_id {
                Some(s) => Some(s@),
                None => None,
            },
            ceiling_micros,
            approver_installed,
            total_micros,
            has_broker_secret,
            items_of(paid_jobs@),
            job_caps@,
        ) {
            Ok((session, total, specs)) => r matches Ok(p) && p.session_id@ == session && p.total_micros
                == total && reservation_views(p.reservations@) == specs,
            Err(e) => r == Err::<PaidLanePlan, PaidLaneRefusal>(e),
        },
{
    let session = match session_id {
        Some(s) => if trim_str(s).as_str().is_empty() {
            return Err(PaidLaneRefusal::SessionRequired);
        } else {
            s
        },
        None => return Err(PaidLaneRefusal::SessionRequired),
    };
    let ceiling = match ceiling_micros {
        Some(c) => c,
        None => return Err(PaidLaneRefusal::CeilingUndeclared),
    };
    if !approver_installed {
        return Err(PaidLaneRefusal::ApproverUnavailable);
    }
    let total = match total_micros {
        Some(t) => t,
        None => return Err(PaidLaneRefusal::EstimateUncapped),
    };
    if !has_broker_secret {
        return Err(PaidLaneRefusal::BrokerUnavailable);
    }
    proof {
        lemma_items_of(paid_jobs@);
    }
    let ghost jobs = items_of(paid_jobs@);
    let mut reservations: Vec<PaidJobReservation> = Vec::new();
    let mut declared: u64 = 0;
    let mut i: usize = 0;
    assert(reservation_views(reservations@) =~= Seq::empty());
    let ghost n = paid_jobs@.len() as nat;
    while i < paid_jobs.len()
        invariant
            i <= paid_jobs@.len(),
            n == paid_jobs@.len(),
            reservations@.len() == i,
            session_id == Some(session),
            crate::text::trim(session@).len() > 0,
            ceiling_micros == Some(ceiling),
            approver_installed,
            total_micros == Some(total),
            has_broker_secret,
            job_caps@.len() == paid_jobs@.len(),
            jobs == items_of(paid_jobs@),
            jobs.len() == paid_jobs@.len(),
            forall|k: int| 0 <= k < paid_jobs@.len() ==> #[trigger] jobs[k] == paid_jobs@[k]@,
            lane_jobs(jobs, job_caps@, i as nat) == Ok::<
                (Seq<(Seq<char>, Seq<char>, Seq<char>, Seq<char>, u64)>, nat),
                PaidLaneRefusal,
            >((reservation_views(reservations@), declared as nat)),
        decreases paid_jobs@.len() - i,
    {
        let job = &paid_jobs[i];
        assert(jobs[i as int] == job@);
        let cap = match job_caps[i] {
            Some(c) => c,
            None => {
                proof {
                    lemma_lane_jobs_err(jobs, job_caps@, (i + 1) as nat, n);
                }
                return Err(PaidLaneRefusal::JobUncapped);
            },
        };
        let digest = match nonblank_field(job, "trace_digest") {
            Some(d) => d,
            None => {
                proof {
                    lemma_lane_jobs_err(jobs, job_caps@, (i + 1) as nat, n);
                }
                return Err(PaidLaneRefusal::BindingIncomplete(BindingField::TraceDigest));
            },
        };
        let annotator = match nonblank_field(job, "annotator_id") {
            Some(a) => a,
            None => {
                proof {
                    lemma_lane_jobs_err(jobs, job_caps@, (i + 1) as nat, n);
                }
                return Err(PaidLaneRefusal::BindingIncomplete(BindingField::AnnotatorId));
            },
        };
        let model = match nonblank_field(job, "model") {
            Some(m) => m,
            None => {
                proof {
                    lemma_lane_jobs_err(jobs, job_caps@, (i + 1) as nat, n);
                }
                return Err(PaidLaneRefusal::BindingIncomplete(BindingField::Model));
            },
        };
        let sum = match declared.checked_add(cap) {
            Some(s) => s,
            None => {
                proof {
                    lemma_lane_jobs_err(jobs, job_caps@, (i + 1) as nat, n);
                }
                return Err(PaidLaneRefusal::CapOverflow);
            },
        };
        let repeat: u64 = match job.get("repeat_index") {
            Some(v) => match v.as_u64() {
                Some(n) => n,
                None => 0,
            },
            None => 0,
        };
        let key = key_of(digest.as_str(), annotator.as_str(), repeat);
        let ghost before = reservations@;
        reservations.push(PaidJobReservation { key, trace_digest: digest, annotator_id: annotator, model, cap_micros: cap });
        assert(reservation_views(reservations@) =~= reservation_views(before).push(
            reservation_view(reservations@[before.len() as int]),
        ));
        declared = sum;
        i = i + 1;
    }
    if declared != total {
        return Err(PaidLaneRefusal::EstimateInconsistent { total, declared });
    }
    if total > ceiling {
        return Err(PaidLaneRefusal::CeilingExceeded { total, ceiling });
    }
    Ok(PaidLanePlan { session_id: String::from_str(session), total_micros: total, reservations })
}

/// An approval is usable only where it covers every job's cap.
pub fn check_grant(granted_cap_micros: u64, plan: &PaidLanePlan) -> (r: Result<(), PaidLaneRefusal>)
    ensures
        r is Ok <==> granted_cap_micros >= plan.total_micros,
        r matches Err(e) ==> e == PaidLaneRefusal::CapReduced,
{
    if granted_cap_micros < plan.total_micros {
        Err(PaidLaneRefusal::CapReduced)
    } else {
        Ok(())
    }
}


/// The document an approval of the paid lane is bound to: the run, the
/// container, each reservation key in order, and the total.
pub open spec fn lane_binding_view(run_id: Seq<char>, container_id: Seq<char>, keys: Seq<Seq<char>>, total: u64) -> JsonView {
    JsonView::Object(
        seq![
            ("runId"@, JsonView::Text(run_id)),
            ("containerId"@, JsonView::Text(container_id)),
            ("keys"@, JsonView::Array(keys.map_values(|k: Seq<char>| JsonView::Text(k)))),
            ("capUsdMicros"@, JsonView::Number(NumberView::Unsigned(total))),
        ],
    )
}

/// The digest an approval of the paid lane binds.
pub fn lane_binding_digest(run_id: &str, container_id: &str, plan: &PaidLanePlan) -> (r: Digest)
    ensures
        r@ == json_digest(
            canonical(
                lane_binding_view(
                    run_id@,
                    container_id@,
                    reservation_views(plan.reservations@).map_values(
                        |v: (Seq<char>, Seq<char>, Seq<char>, Seq<char>, u64)| v.0,
                    ),
                    plan.total_micros,
                ),
            ),
        ),
{
    let mut keys: Vec<JsonValue> = Vec::new();
    let mut i: usize = 0;
    while i < plan.reservations.len()
        invariant
            i <= plan.reservations@.len(),
            keys@.len() == i,
            forall|k: int| 0 <= k < i ==> (#[trigger] keys@[k])@ == JsonView::Text(plan.reservations@[k].key@),
        decreases plan.reservations@.len() - i,
    {
        keys.push(text_value(plan.reservations[i].key.as_str()));
        i = i + 1;
    }
    let ghost kv = keys@;
    proof {
        lemma_items_of(kv);
    }
    let entries = vec![
        field("runId", text_value(run_id)),
        field("containerId", text_value(container_id)),
        field("keys", JsonValue::Array(keys)),
        field("capUsdMicros", unsigned_value(plan.total_micros)),
    ];
    let ghost es = entries@;
    let document = object_of(entries);
    proof {
        lemma_entries_of(es);
        let ks = reservation_views(plan.reservations@).map_values(
            |v: (Seq<char>, Seq<char>, Seq<char>, Seq<char>, u64)| v.0,
        );
        assert(items_of(kv) =~= ks.map_values(|k: Seq<char>| JsonView::Text(k)));
        if let JsonView::Object(want) = lane_binding_view(run_id@, container_id@, ks, plan.total_micros) {
            assert(entries_of(es) =~= want);
        }
    }
    CanonicalJson::new(document).digest()
}

// ---------------------------------------------------------------------------
// The campaign exchange
// ---------------------------------------------------------------------------

/// A member set on an object: every entry under `key` takes the value, or
/// the entry is added where there is none.
pub open spec fn with_member(entries: Seq<(Seq<char>, JsonView)>, key: Seq<char>, value: JsonView) -> Seq<
    (Seq<char>, JsonView),
> {
    if exists|k: int| 0 <= k < entries.len() && entries[k].0 == key {
        entries.map_values(|e: (Seq<char>, JsonView)| if e.0 == key { (key, value) } else { e })
    } else {
        entries.push((key, value))
    }
}

/// The first reference of the container's own list with an id.
pub open spec fn owner_ref(owners: Seq<JsonView>, id: Seq<char>) -> Option<JsonView>
    decreases owners.len(),
{
    if owners.len() == 0 {
        None
    } else if text_member(owners[0], "id"@) == Some(id) {
        Some(owners[0])
    } else {
        owner_ref(owners.drop_first(), id)
    }
}

/// A trace reference with the digest the container itself holds for that
/// trace, where it holds one that is not blank.
pub open spec fn adopted_trace(trace: JsonView, owners: Seq<JsonView>) -> JsonView {
    match (trace, text_member(trace, "id"@)) {
        (JsonView::Object(entries), Some(id)) => match owner_ref(owners, id) {
            Some(o) => match text_member(o, "digest"@) {
                Some(d) => if crate::text::trim(d).len() > 0 {
                    JsonView::Object(with_member(entries, "digest"@, JsonView::Text(d)))
                } else {
                    trace
                },
                None => trace,
            },
            None => trace,
        },
        _ => trace,
    }
}

fn set_member(entries: Vec<(String, JsonValue)>, key: &str, value: &JsonValue) -> (r: Vec<(String, JsonValue)>)
    ensures
        entries_of(r@) == with_member(entries_of(entries@), key@, value@),
{
    proof {
        lemma_entries_of(entries@);
    }
    let ghost all = entries_of(entries@);
    let mut out: Vec<(String, JsonValue)> = Vec::new();
    let mut found = false;
    let mut i: usize = 0;
    while i < entries.len()
        invariant
            i <= entries@.len(),
            all == entries_of(entries@),
            all.len() == entries@.len(),
            forall|k: int| 0 <= k < entries@.len() ==> #[trigger] all[k] == (entries@[k].0@, entries@[k].1@),
            out@.len() == i,
            forall|k: int|
                0 <= k < i ==> (#[trigger] out@[k]).0@ == (if all[k].0 == key@ {
                    key@
                } else {
                    all[k].0
                }) && out@[k].1@ == (if all[k].0 == key@ {
                    value@
                } else {
                    all[k].1
                }),
            found <==> exists|k: int| 0 <= k < i && all[k].0 == key@,
        decreases entries@.len() - i,
    {
        assert(all[i as int].0 == entries@[i as int].0@);
        let ghost was_found = found;
        if crate::text::same_text(entries[i].0.as_str(), key) {
            out.push((String::from_str(key), copy_json(value)));
            found = true;
        } else {
            out.push((entries[i].0.clone(), copy_json(&entries[i].1)));
        }
        proof {
            if exists|k: int| 0 <= k < i + 1 && all[k].0 == key@ {
                let k = choose|k: int| 0 <= k < i + 1 && all[k].0 == key@;
                if k < i {
                    assert(was_found);
                }
            }
            if found && !was_found {
                assert(all[i as int].0 == key@);
            }
        }
        i = i + 1;
    }
    proof {
        lemma_entries_of(out@);
    }
    if !found {
        let ghost before = out@;
        out.push((String::from_str(key), copy_json(value)));
        proof {
            lemma_entries_of(out@);
            lemma_entries_of(before);
            assert(entries_of(out@) =~= all.push((key@, value@)));
        }
    } else {
        assert(entries_of(out@) =~= all.map_values(
            |e: (Seq<char>, JsonView)| if e.0 == key@ { (key@, value@) } else { e },
        ));
    }
    out
}

fn find_owner<'a>(owners: &'a Vec<JsonValue>, id: &str) -> (r: Option<&'a JsonValue>)
    ensures
        match r {
            Some(o) => owner_ref(items_of(owners@), id@) == Some(o@),
            None => owner_ref(items_of(owners@), id@) is None,
        },
{
    proof {
        lemma_items_of(owners@);
    }
    let ghost all = items_of(owners@);
    let mut i: usize = 0;
    assert(all.skip(0) =~= all);
    while i < owners.len()
        invariant
            i <= owners@.len(),
            all == items_of(owners@),
            all.len() == owners@.len(),
            forall|k: int| 0 <= k < owners@.len() ==> #[trigger] all[k] == owners@[k]@,
            owner_ref(all, id@) == owner_ref(all.skip(i as int), id@),
        decreases owners@.len() - i,
    {
        let ghost rest = all.skip(i as int);
        assert(rest.drop_first() =~= all.skip(i + 1));
        assert(rest[0] == owners@[i as int]@);
        let candidate = text_of(&owners[i], "id");
        let same = match &candidate {
            Some(c) => crate::text::same_text(c.as_str(), id),
            None => false,
        };
        if same {
            return Some(&owners[i]);
        }
        i = i + 1;
    }
    None
}

/// Trace references carrying the digests the container holds for them.
pub fn adopt_owner_digests(traces: Vec<JsonValue>, owners: &Vec<JsonValue>) -> (r: Vec<JsonValue>)
    ensures
        r@.len() == traces@.len(),
        forall|i: int| 0 <= i < r@.len() ==> (#[trigger] r@[i])@ == adopted_trace(traces@[i]@, items_of(owners@)),
{
    let ghost original = traces@;
    let mut out: Vec<JsonValue> = Vec::new();
    let mut i: usize = 0;
    while i < traces.len()
        invariant
            i <= traces@.len(),
            traces@ == original,
            out@.len() == i,
            forall|k: int| 0 <= k < i ==> (#[trigger] out@[k])@ == adopted_trace(original[k]@, items_of(owners@)),
        decreases traces@.len() - i,
    {
        let trace = &traces[i];
        let adopted = match trace {
            JsonValue::Object(entries) => {
                match text_of(trace, "id") {
                    Some(id) => match find_owner(owners, id.as_str()) {
                        Some(o) => match text_of(o, "digest") {
                            Some(d) => if !trim_str(d.as_str()).as_str().is_empty() {
                                let mut copy: Vec<(String, JsonValue)> = Vec::new();
                                let mut k: usize = 0;
                                while k < entries.len()
                                    invariant
                                        k <= entries@.len(),
                                        copy@.len() == k,
                                        forall|j: int| 0 <= j < k ==> (#[trigger] copy@[j]).0@ == entries@[j].0@ && copy@[j].1@ == entries@[j].1@,
                                    decreases entries@.len() - k,
                                {
                                    copy.push((entries[k].0.clone(), copy_json(&entries[k].1)));
                                    k = k + 1;
                                }
                                proof {
                                    lemma_entries_of(copy@);
                                    lemma_entries_of(entries@);
                                    assert(entries_of(copy@) =~= entries_of(entries@));
                                }
                                let value = JsonValue::String(d);
                                JsonValue::Object(set_member(copy, "digest", &value))
                            } else {
                                copy_json(trace)
                            },
                            None => copy_json(trace),
                        },
                        None => copy_json(trace),
                    },
                    None => copy_json(trace),
                }
            },
            _ => copy_json(trace),
        };
        out.push(adopted);
        i = i + 1;
    }
    out
}


/// The campaign sent to the container: the traces, the annotators' plans,
/// the label, the session, the throughput caps, whether only an estimate is
/// asked, and the reservation token of each paid job where the paid lane was
/// prepared.
pub open spec fn campaign_view(
    traces: Seq<JsonView>,
    stage: StageView,
    session_id: Option<Seq<char>>,
    estimate_only: bool,
    reservations: Option<Seq<(Seq<char>, Seq<char>)>>,
) -> JsonView {
    JsonView::Object(
        seq![
            ("traces"@, JsonView::Array(traces)),
            ("annotators"@, JsonView::Array(stage.annotators.map_values(|a: AnnotatorView| plan_json(a)))),
            ("label"@, JsonView::Text(stage.label)),
            ("session_id"@, match session_id {
                Some(s) => JsonView::Text(s),
                None => JsonView::Null,
            }),
            ("throughput"@, JsonView::Object(
                stage.throughput.map_values(
                    |c: (Seq<char>, u32)| (c.0, JsonView::Number(NumberView::Unsigned(c.1 as u64))),
                ),
            )),
            ("estimate_only"@, JsonView::Bool(estimate_only)),
        ] + match reservations {
            Some(rs) => seq![
                ("reservations"@, JsonView::Object(
                    rs.map_values(|t: (Seq<char>, Seq<char>)| (t.0, JsonView::Text(t.1))),
                )),
            ],
            None => Seq::empty(),
        },
    )
}

pub open spec fn token_views(s: Seq<(String, String)>) -> Seq<(Seq<char>, Seq<char>)> {
    s.map_values(|t: (String, String)| (t.0@, t.1@))
}

/// Builds the campaign sent to the container.
pub fn campaign_plan(
    traces: &Vec<JsonValue>,
    stage: &AnnotationStageSpec,
    session_id: Option<&str>,
    estimate_only: bool,
    reservations: Option<&Vec<(String, String)>>,
) -> (r: JsonValue)
    ensures
        r@ == campaign_view(
            items_of(traces@),
            stage@,
            match session_id {
                Some(s) => Some(s@),
                None => None,
            },
            estimate_only,
            match reservations {
                Some(rs) => Some(token_views(rs@)),
                None => None,
            },
        ),
{
    let trace_items = copy_items(traces);
    let annotators = stage.campaign_annotators();
    let ghost av = annotators@;
    proof {
        lemma_items_of(av);
        assert(items_of(av) =~= stage@.annotators.map_values(|a: AnnotatorView| plan_json(a)));
    }
    let mut caps: Vec<(String, JsonValue)> = Vec::new();
    let mut i: usize = 0;
    while i < stage.throughput.len()
        invariant
            i <= stage.throughput@.len(),
            caps@.len() == i,
            forall|k: int|
                0 <= k < i ==> (#[trigger] caps@[k]).0@ == stage.throughput@[k].0@ && caps@[k].1@
                    == JsonView::Number(NumberView::Unsigned(stage.throughput@[k].1 as u64)),
        decreases stage.throughput@.len() - i,
    {
        caps.push((stage.throughput[i].0.clone(), unsigned_value(stage.throughput[i].1 as u64)));
        i = i + 1;
    }
    let ghost cv = caps@;
    proof {
        lemma_entries_of(cv);
        assert(entries_of(cv) =~= stage@.throughput.map_values(
            |c: (Seq<char>, u32)| (c.0, JsonView::Number(NumberView::Unsigned(c.1 as u64))),
        ));
    }
    let mut entries = vec![
        field("traces", JsonValue::Array(trace_items)),
        field("annotators", JsonValue::Array(annotators)),
        field("label", text_value(stage.label.as_str())),
        field("session_id", crate::json::optional_text(session_id)),
        field("throughput", JsonValue::Object(caps)),
        field("estimate_only", JsonValue::Bool(estimate_only)),
    ];
    let ghost base = entries@;
    match reservations {
        Some(rs) => {
            let mut tokens: Vec<(String, JsonValue)> = Vec::new();
            let mut k: usize = 0;
            while k < rs.len()
                invariant
                    k <= rs@.len(),
                    tokens@.len() == k,
                    forall|j: int|
                        0 <= j < k ==> (#[trigger] tokens@[j]).0@ == rs@[j].0@ && tokens@[j].1@
                            == JsonView::Text(rs@[j].1@),
                decreases rs@.len() - k,
            {
                tokens.push((rs[k].0.clone(), text_value(rs[k].1.as_str())));
                k = k + 1;
            }
            let ghost tv = tokens@;
            proof {
                lemma_entries_of(tv);
                assert(entries_of(tv) =~= token_views(rs@).map_values(
                    |t: (Seq<char>, Seq<char>)| (t.0, JsonView::Text(t.1)),
                ));
            }
            entries.push(field("reservations", JsonValue::Object(tokens)));
        },
        None => {},
    }
    let ghost es = entries@;
    let r = object_of(entries);
    proof {
        lemma_entries_of(es);
        lemma_entries_of(base);
        if let JsonView::Object(want) = campaign_view(
            items_of(traces@),
            stage@,
            match session_id {
                Some(s) => Some(s@),
                None => None,
            },
            estimate_only,
            match reservations {
                Some(rs) => Some(token_views(rs@)),
                None => None,
            },
        ) {
            assert(entries_of(es) =~= want);
        }
    }
    r
}

/// What an estimate reply holds: the estimate (its `estimate` member where
/// it has one), the paid jobs it lists, and the notes it gives as text.
pub open spec fn estimate_of(reply: JsonView) -> JsonView {
    match member(reply, "estimate"@) {
        Some(e) => e,
        None => reply,
    }
}

pub open spec fn paid_jobs_of(estimate: JsonView) -> Seq<JsonView> {
    match member(estimate, "paid_jobs"@) {
        Some(JsonView::Array(items)) => items,
        _ => Seq::empty(),
    }
}

pub open spec fn text_items(items: Seq<JsonView>) -> Seq<Seq<char>>
    decreases items.len(),
{
    if items.len() == 0 {
        Seq::empty()
    } else {
        match items.last() {
            JsonView::Text(t) => text_items(items.drop_last()).push(t),
            _ => text_items(items.drop_last()),
        }
    }
}

pub open spec fn notes_of(estimate: JsonView) -> Seq<Seq<char>> {
    match member(estimate, "notes"@) {
        Some(JsonView::Array(items)) => text_items(items),
        _ => Seq::empty(),
    }
}

fn texts_in(items: &Vec<JsonValue>) -> (r: Vec<String>)
    ensures
        texts_of(r@) == text_items(items_of(items@)),
{
    proof {
        lemma_items_of(items@);
    }
    let ghost all = items_of(items@);
    let mut out: Vec<String> = Vec::new();
    let mut i: usize = 0;
    while i < items.len()
        invariant
            i <= items@.len(),
            all == items_of(items@),
            all.len() == items@.len(),
            forall|k: int| 0 <= k < items@.len() ==> #[trigger] all[k] == items@[k]@,
            texts_of(out@) == text_items(all.take(i as int)),
        decreases items@.len() - i,
    {
        let ghost next = all.take(i as int + 1);
        assert(next.drop_last() =~= all.take(i as int));
        assert(next.last() == items@[i as int]@);
        if let Some(t) = items[i].as_text() {
            let ghost before = out@;
            out.push(t.clone());
            assert(texts_of(out@) =~= texts_of(before).push(t@));
        }
        i = i + 1;
    }
    assert(all.take(items@.len() as int) =~= all);
    out
}

/// Reads an estimate reply.
pub fn campaign_estimate(reply: &JsonValue) -> (r: (JsonValue, Vec<JsonValue>, Vec<String>))
    ensures
        r.0@ == estimate_of(reply@),
        items_of(r.1@) == paid_jobs_of(estimate_of(reply@)),
        texts_of(r.2@) == notes_of(estimate_of(reply@)),
{
    let estimate = match reply.get("estimate") {
        Some(e) => copy_json(e),
        None => copy_json(reply),
    };
    let paid = match estimate.get("paid_jobs") {
        Some(p) => match p.as_items() {
            Some(items) => copy_items(items),
            None => Vec::new(),
        },
        None => Vec::new(),
    };
    proof {
        lemma_items_of(paid@);
    }
    let notes = match estimate.get("notes") {
        Some(n) => match n.as_items() {
            Some(items) => {
                proof {
                    crate::json::lemma_items_view_len(items@, items@.len() as nat);
                    lemma_items_of(items@);
                    assert(items_of(items@) =~= crate::json::items_view(items@, items@.len() as nat));
                }
                texts_in(items)
            },
            None => Vec::new(),
        },
        None => Vec::new(),
    };
    proof {
        if paid@.len() == 0 {
            assert(items_of(paid@) =~= Seq::empty());
        }
        if notes@.len() == 0 {
            assert(texts_of(notes@) =~= Seq::empty());
        }
    }
    (estimate, paid, notes)
}


/// A binding the container reports: a key and a job id, both text, and the
/// reservation it consumed where it names one.
pub open spec fn binding_of_item(item: JsonView) -> Option<(Seq<char>, Seq<char>, Option<Seq<char>>)> {
    match (text_member(item, "key"@), text_member(item, "job_id"@)) {
        (Some(k), Some(j)) => Some((k, j, text_member(item, "reservation_id"@))),
        _ => None,
    }
}

/// Whether an item binds a key.
pub open spec fn binds_key(item: JsonView, key: Seq<char>) -> bool {
    binding_of_item(item) matches Some(c) && c.0 == key
}

/// The bindings of a reply, one per key: where the reply binds a key more
/// than once, the last binding stands.
pub open spec fn kept_bindings(items: Seq<JsonView>) -> Seq<(Seq<char>, Seq<char>, Option<Seq<char>>)>
    decreases items.len(),
{
    if items.len() == 0 {
        Seq::empty()
    } else {
        let rest = kept_bindings(items.drop_first());
        match binding_of_item(items[0]) {
            Some(b) => if exists|j: int|
                1 <= j < items.len() && #[trigger] binds_key(items[j], b.0) {
                rest
            } else {
                seq![b] + rest
            },
            None => rest,
        }
    }
}

pub open spec fn binding_view(b: JobBinding) -> (Seq<char>, Seq<char>, Option<Seq<char>>) {
    (b.key@, b.job_id@, opt_text(b.reservation_id))
}

pub open spec fn binding_views(s: Seq<JobBinding>) -> Seq<(Seq<char>, Seq<char>, Option<Seq<char>>)> {
    s.map_values(|b: JobBinding| binding_view(b))
}

fn binding_from(item: &JsonValue) -> (r: Option<JobBinding>)
    ensures
        match r {
            Some(b) => binding_of_item(item@) == Some(binding_view(b)),
            None => binding_of_item(item@) is None,
        },
{
    let key = match text_of(item, "key") {
        Some(k) => k,
        None => return None,
    };
    let job_id = match text_of(item, "job_id") {
        Some(j) => j,
        None => return None,
    };
    Some(JobBinding { key, job_id, reservation_id: text_of(item, "reservation_id") })
}

/// The job bindings a submission reply reports, one per key.
pub fn job_bindings_of(reply: &JsonValue) -> (r: Vec<JobBinding>)
    ensures
        binding_views(r@) == match member(reply@, "job_bindings"@) {
            Some(JsonView::Array(items)) => kept_bindings(items),
            _ => Seq::empty(),
        },
{
    let items = match reply.get("job_bindings") {
        Some(b) => match b.as_items() {
            Some(items) => items,
            None => {
                let r: Vec<JobBinding> = Vec::new();
                assert(binding_views(r@) =~= Seq::empty());
                return r;
            },
        },
        None => {
            let r: Vec<JobBinding> = Vec::new();
            assert(binding_views(r@) =~= Seq::empty());
            return r;
        },
    };
    proof {
        crate::json::lemma_items_view_len(items@, items@.len() as nat);
        lemma_items_of(items@);
        assert(items_of(items@) =~= crate::json::items_view(items@, items@.len() as nat));
    }
    let ghost all = items_of(items@);
    let mut kept: Vec<JobBinding> = Vec::new();
    let mut i: usize = items.len();
    assert(binding_views(kept@) =~= Seq::empty());
    assert(all.skip(all.len() as int) =~= Seq::<JsonView>::empty());
    while i > 0
        invariant
            i <= items@.len(),
            all == items_of(items@),
            all.len() == items@.len(),
            forall|k: int| 0 <= k < items@.len() ==> #[trigger] all[k] == items@[k]@,
            binding_views(kept@) == kept_bindings(all.skip(i as int)),
        decreases i,
    {
        let ghost rest = all.skip(i - 1);
        assert(rest.drop_first() =~= all.skip(i as int));
        assert(rest[0] == items@[i - 1]@);
        let found = binding_from(&items[i - 1]);
        proof {
            if found is None {
                assert(kept_bindings(rest) == kept_bindings(all.skip(i as int)));
            }
        }
        if let Some(b) = found {
            let mut later = false;
            let mut j: usize = i;
            while j < items.len()
                invariant
                    i <= j <= items@.len(),
                    all == items_of(items@),
                    all.len() == items@.len(),
                    forall|k: int| 0 <= k < items@.len() ==> #[trigger] all[k] == items@[k]@,
                    binding_of_item(items@[i - 1]@) == Some(binding_view(b)),
                    later <==> exists|m: int|
                        i <= m < j && #[trigger] binds_key(all[m], b.key@),
                decreases items@.len() - j,
            {
                let ghost was = later;
                match binding_from(&items[j]) {
                    Some(c) => {
                        if crate::text::same_text(c.key.as_str(), b.key.as_str()) {
                            later = true;
                        }
                    },
                    None => {},
                }
                proof {
                    if exists|m: int|
                        i <= m < j + 1 && #[trigger] binds_key(all[m], b.key@) {
                        let m = choose|m: int|
                            i <= m < j + 1 && #[trigger] binds_key(all[m], b.key@);
                        if m < j {
                            assert(was);
                        } else {
                            assert(all[m] == items@[j as int]@);
                        }
                    }
                    if later && !was {
                        assert(all[j as int] == items@[j as int]@);
                        assert(binds_key(all[j as int], b.key@));
                    }
                }
                j = j + 1;
            }
            proof {
                assert forall|m: int| 1 <= m < rest.len() implies rest[m] == all[(i - 1) + m] by {}
                if exists|m: int| 1 <= m < rest.len() && #[trigger] binds_key(rest[m], b.key@) {
                    let m = choose|m: int| 1 <= m < rest.len() && #[trigger] binds_key(rest[m], b.key@);
                    assert(binds_key(all[(i - 1) + m], b.key@));
                    assert(later);
                }
                if later {
                    let m = choose|m: int| i <= m < items@.len() && #[trigger] binds_key(all[m], b.key@);
                    assert(rest[m - (i - 1)] == all[m]);
                    assert(binds_key(rest[m - (i - 1)], b.key@));
                }
            }
            proof {
                assert(binding_of_item(rest[0]) == Some(binding_view(b)));
                assert(rest.len() > 0);
                assert(kept_bindings(rest.drop_first()) == kept_bindings(all.skip(i as int)));
                assert(later <==> exists|m: int| 1 <= m < rest.len() && #[trigger] binds_key(rest[m], b.key@));
                let bv = binding_view(b);
                let tail = kept_bindings(rest.drop_first());
                assert(bv.0 == b.key@);
                if later {
                    let m = choose|m: int| 1 <= m < rest.len() && #[trigger] binds_key(rest[m], b.key@);
                    assert(binds_key(rest[m], bv.0));
                    assert(exists|j: int| 1 <= j < rest.len() && #[trigger] binds_key(rest[j], bv.0));
                    assert(kept_bindings(rest) == tail);
                } else {
                    assert(!exists|j: int| 1 <= j < rest.len() && #[trigger] binds_key(rest[j], bv.0));
                    assert(kept_bindings(rest) == seq![bv] + tail);
                }
            }
            if !later {
                let ghost before = kept@;
                kept.insert(0, b);
                assert(binding_views(kept@) =~= seq![binding_view(kept@[0])] + binding_views(before));
            }
        }
        i = i - 1;
    }
    assert(all.skip(0) =~= all);
    kept
}

/// The binding of a key: the last that names it.
pub open spec fn key_binding_index(bindings: Seq<JobBinding>, key: Seq<char>) -> Option<int>
    decreases bindings.len(),
{
    if bindings.len() == 0 {
        None
    } else if bindings.last().key@ == key {
        Some(bindings.len() - 1)
    } else {
        key_binding_index(bindings.drop_last(), key)
    }
}

fn find_key(bindings: &Vec<JobBinding>, key: &str) -> (r: Option<usize>)
    ensures
        match r {
            Some(b) => key_binding_index(bindings@, key@) == Some(b as int) && b < bindings@.len(),
            None => key_binding_index(bindings@, key@) is None,
        },
{
    let mut i: usize = bindings.len();
    assert(bindings@.take(i as int) =~= bindings@);
    while i > 0
        invariant
            i <= bindings@.len(),
            key_binding_index(bindings@, key@) == key_binding_index(bindings@.take(i as int), key@),
        decreases i,
    {
        let ghost pre = bindings@.take(i as int);
        assert(pre.drop_last() =~= bindings@.take(i - 1));
        if crate::text::same_text(bindings[i - 1].key.as_str(), key) {
            return Some(i - 1);
        }
        i = i - 1;
    }
    None
}

/// Each issued reservation and the job it was forwarded to; a reservation no
/// job consumed is released.
pub fn forwarded_reservations(issued: &Vec<(String, String)>, bindings: &Vec<JobBinding>) -> (r: Vec<
    (String, Option<String>),
>)
    ensures
        r@.len() == issued@.len(),
        forall|i: int|
            0 <= i < r@.len() ==> (#[trigger] r@[i]).0@ == issued@[i].1@ && opt_text(r@[i].1) == match key_binding_index(
                bindings@,
                issued@[i].0@,
            ) {
                Some(b) => Some(bindings@[b].job_id@),
                None => None,
            },
{
    let mut out: Vec<(String, Option<String>)> = Vec::new();
    let mut i: usize = 0;
    while i < issued.len()
        invariant
            i <= issued@.len(),
            out@.len() == i,
            forall|k: int|
                0 <= k < i ==> (#[trigger] out@[k]).0@ == issued@[k].1@ && opt_text(out@[k].1) == match key_binding_index(
                    bindings@,
                    issued@[k].0@,
                ) {
                    Some(b) => Some(bindings@[b].job_id@),
                    None => None,
                },
        decreases issued@.len() - i,
    {
        let job = match find_key(bindings, issued[i].0.as_str()) {
            Some(b) => Some(bindings[b].job_id.clone()),
            None => None,
        };
        out.push((issued[i].1.clone(), job));
        i = i + 1;
    }
    out
}

/// What a submission reply reports.
#[derive(Debug)]
pub struct CampaignReply {
    pub campaign_id: Option<String>,
    pub cache_hits: u64,
    pub enqueued: u64,
    pub refused: Vec<JsonValue>,
    pub job_ids: Vec<String>,
}

pub open spec fn count_member(v: JsonView, key: Seq<char>) -> u64 {
    match member(v, key) {
        Some(JsonView::Number(NumberView::Unsigned(n))) => n,
        _ => 0,
    }
}

pub open spec fn array_member(v: JsonView, key: Seq<char>) -> Seq<JsonView> {
    match member(v, key) {
        Some(JsonView::Array(items)) => items,
        _ => Seq::empty(),
    }
}

fn count_of(v: &JsonValue, key: &str) -> (r: u64)
    ensures
        r == count_member(v@, key@),
{
    match v.get(key) {
        Some(x) => match x.as_u64() {
            Some(n) => n,
            None => 0,
        },
        None => 0,
    }
}

fn array_of_member(v: &JsonValue, key: &str) -> (r: Vec<JsonValue>)
    ensures
        items_of(r@) == array_member(v@, key@),
{
    let r = match v.get(key) {
        Some(x) => match x.as_items() {
            Some(items) => copy_items(items),
            None => Vec::new(),
        },
        None => Vec::new(),
    };
    proof {
        if r@.len() == 0 {
            assert(items_of(r@) =~= Seq::empty());
        }
    }
    r
}

/// Reads a submission reply: its campaign, cache hits and enqueued counts
/// (zero where not given as counts), what it refused, and the ids of the jobs
/// it returned, in order, where given as text.
pub fn campaign_reply(reply: &JsonValue) -> (r: CampaignReply)
    ensures
        opt_text(r.campaign_id) == text_member(reply@, "campaign_id"@),
        r.cache_hits == count_member(reply@, "cache_hits"@),
        r.enqueued == count_member(reply@, "enqueued"@),
        items_of(r.refused@) == array_member(reply@, "refused"@),
        texts_of(r.job_ids@) == text_items(array_member(reply@, "jobs"@)),
{
    let jobs = array_of_member(reply, "jobs");
    proof {
        lemma_items_of(jobs@);
    }
    let job_ids = texts_in(&jobs);
    CampaignReply {
        campaign_id: text_of(reply, "campaign_id"),
        cache_hits: count_of(reply, "cache_hits"),
        enqueued: count_of(reply, "enqueued"),
        refused: array_of_member(reply, "refused"),
        job_ids,
    }
}


// ---------------------------------------------------------------------------
// Laws
// ---------------------------------------------------------------------------

/// The sum of the reservation caps of a paid lane.
pub open spec fn caps_sum(specs: Seq<(Seq<char>, Seq<char>, Seq<char>, Seq<char>, u64)>) -> nat
    decreases specs.len(),
{
    if specs.len() == 0 {
        0
    } else {
        caps_sum(specs.drop_last()) + specs.last().4 as nat
    }
}

proof fn lemma_lane_jobs_sum(jobs: Seq<JsonView>, caps: Seq<Option<u64>>, n: nat)
    ensures
        lane_jobs(jobs, caps, n) matches Ok((specs, total)) ==> caps_sum(specs) == total && specs.len() == n,
    decreases n,
{
    if n > 0 {
        lemma_lane_jobs_sum(jobs, caps, (n - 1) as nat);
        if let Ok((specs, total)) = lane_jobs(jobs, caps, n) {
            if let Ok((before, t)) = lane_jobs(jobs, caps, (n - 1) as nat) {
                assert(specs.drop_last() =~= before);
            }
        }
    }
}

/// A paid lane is bounded: every paid job carries a reservation, the
/// reservations' caps add up to exactly the estimate's total, and that total
/// is within the recipe's ceiling.
pub proof fn law_a_paid_lane_stays_within_its_ceiling(
    session_id: Option<Seq<char>>,
    ceiling: Option<u64>,
    approver_installed: bool,
    total: Option<u64>,
    has_broker_secret: bool,
    jobs: Seq<JsonView>,
    caps: Seq<Option<u64>>,
)
    ensures
        paid_lane_outcome(session_id, ceiling, approver_installed, total, has_broker_secret, jobs, caps) matches Ok(
            (s, t, specs),
        ) ==> {
            &&& specs.len() == jobs.len()
            &&& caps_sum(specs) == t
            &&& total == Some(t)
            &&& ceiling matches Some(c) && t <= c
        },
{
    lemma_lane_jobs_sum(jobs, caps, jobs.len());
}

/// Where as many jobs come back as were planned, a job bound to no
/// reservation stands for the planned job at its own place: the container
/// submits in plan order.
pub proof fn law_aligned_jobs_follow_the_plan(
    plan: Seq<(Seq<char>, Seq<char>, Seq<char>, Seq<char>, u64)>,
    bindings: Seq<JobBinding>,
    job_ids: Seq<Seq<char>>,
    index: int,
)
    requires
        0 <= index < job_ids.len(),
        plan.len() == job_ids.len(),
        binding_index(bindings, job_ids[index]) is None,
    ensures
        planned_index(plan, bindings, job_ids, index) == Some(index),
{
}

} // verus!
