//! The lineage graph: one node per experiment member, and typed edges between
//! them. An optimizer run and an evaluation campaign of the same experiment
//! are joined by an `evaluated` edge from the optimizer to the evaluation.

use crate::json::{object2, text_value, text_view, JsonValue, JsonView};
use crate::text::{concat, same_text, texts_of};
use vstd::prelude::*;

verus! {

/// A piece of evidence attached to a lineage node.
pub struct ExperimentEvidenceRef {
    pub evidence_id: String,
    pub kind: String,
    pub label: String,
    pub digest: Option<String>,
    pub container_id: Option<String>,
    pub rollout_id: Option<String>,
    pub trace_id: Option<String>,
    pub visual_id: Option<String>,
    pub artifact_uri: Option<String>,
    pub metadata: JsonValue,
    pub attached_at: String,
}

/// Producer identity projected onto an `optimizer_run` member: not a member
/// kind and not an experiment edge.
pub struct CandidateRecord {
    pub id: String,
    pub experiment_id: String,
    pub optimizer_run_id: String,
    pub producer_candidate_id: String,
    pub kind: Option<String>,
    pub protocol_id: Option<String>,
    pub status: Option<String>,
    pub parent_ids: Vec<String>,
    pub metrics: Option<JsonValue>,
    pub content_digest: Option<String>,
    pub compared_with: Vec<String>,
    pub promoted_to: Option<String>,
    pub created_at: String,
    pub updated_at: String,
}

/// A typed fact between two lineage nodes.
pub struct ExperimentEdge {
    pub id: String,
    pub source_node_id: String,
    pub target_node_id: String,
    pub relation: String,
    pub created_at: String,
}

/// The node id of an experiment member.
pub open spec fn member_node_text(experiment_id: Seq<char>, member_kind: Seq<char>, member_id: Seq<char>) -> Seq<char> {
    experiment_id + ":"@ + member_kind + ":"@ + member_id
}

/// The node id of an experiment member: `experiment:kind:member`.
pub fn member_node_id(experiment_id: &str, member_kind: &str, member_id: &str) -> (r: String)
    ensures
        r@ == member_node_text(experiment_id@, member_kind@, member_id@),
{
    let mut r = concat(experiment_id, ":");
    r.append(member_kind);
    r.append(":");
    r.append(member_id);
    r
}

/// The id of an edge: `edge:source:relation:target`.
pub open spec fn edge_text(source: Seq<char>, relation: Seq<char>, target: Seq<char>) -> Seq<char> {
    "edge:"@ + source + ":"@ + relation + ":"@ + target
}

/// The edge a relation between two nodes is stored as.
pub fn experiment_edge(source_node_id: &str, target_node_id: &str, relation: &str, at: &str) -> (e: ExperimentEdge)
    ensures
        e.id@ == edge_text(source_node_id@, relation@, target_node_id@),
        e.source_node_id@ == source_node_id@,
        e.target_node_id@ == target_node_id@,
        e.relation@ == relation@,
        e.created_at@ == at@,
{
    let mut id = concat("edge:", source_node_id);
    id.append(":");
    id.append(relation);
    id.append(":");
    id.append(target_node_id);
    ExperimentEdge {
        id,
        source_node_id: String::from_str(source_node_id),
        target_node_id: String::from_str(target_node_id),
        relation: String::from_str(relation),
        created_at: String::from_str(at),
    }
}

/// The configuration recorded on a member's node.
pub fn member_config(member_kind: &str, member_id: &str) -> (r: JsonValue)
    ensures
        r@ == JsonView::Object(seq![("memberKind"@, text_view(member_kind@)), ("memberId"@, text_view(member_id@))]),
{
    object2("memberKind", text_value(member_kind), "memberId", text_value(member_id))
}

/// Which members a newly attached member is joined to by `evaluated` edges:
/// an evaluation campaign to the optimizer runs before it (as target), an
/// optimizer run to the evaluation campaigns (as source); no other kind.
pub open spec fn evaluated_counterpart(member_kind: Seq<char>) -> Option<(Seq<char>, bool)> {
    if member_kind == "eval_campaign"@ {
        Some(("optimizer_run"@, false))
    } else if member_kind == "optimizer_run"@ {
        Some(("eval_campaign"@, true))
    } else {
        None
    }
}

/// The member kind whose nodes a new member is linked to, and whether the new
/// member is the edge's source.
pub fn evaluated_link(member_kind: &str) -> (r: Option<(String, bool)>)
    ensures
        match r {
            Some((kind, source_is_new)) => evaluated_counterpart(member_kind@) == Some((kind@, source_is_new)),
            None => evaluated_counterpart(member_kind@) is None,
        },
{
    if same_text(member_kind, "eval_campaign") {
        Some((String::from_str("optimizer_run"), false))
    } else if same_text(member_kind, "optimizer_run") {
        Some((String::from_str("eval_campaign"), true))
    } else {
        None
    }
}

/// The `evaluated` edges, as (source, target), that join `node` to each
/// counterpart in order, leaving out the node itself.
pub open spec fn evaluated_pairs(node: Seq<char>, source_is_new: bool, counterparts: Seq<Seq<char>>) -> Seq<(Seq<char>, Seq<char>)>
    decreases counterparts.len(),
{
    if counterparts.len() == 0 {
        Seq::empty()
    } else {
        let rest = evaluated_pairs(node, source_is_new, counterparts.drop_last());
        let c = counterparts.last();
        if c == node {
            rest
        } else if source_is_new {
            rest.push((node, c))
        } else {
            rest.push((c, node))
        }
    }
}

pub open spec fn pair_texts(s: Seq<(String, String)>) -> Seq<(Seq<char>, Seq<char>)> {
    Seq::new(s.len(), |i: int| (s[i].0@, s[i].1@))
}

/// The (source, target) pairs of the `evaluated` edges a member's node gets.
pub fn evaluated_edges(node_id: &str, source_is_new: bool, counterparts: &Vec<String>) -> (r: Vec<(String, String)>)
    ensures
        pair_texts(r@) == evaluated_pairs(node_id@, source_is_new, texts_of(counterparts@)),
{
    let ghost all = texts_of(counterparts@);
    let mut r: Vec<(String, String)> = Vec::new();
    let mut i: usize = 0;
    while i < counterparts.len()
        invariant
            i <= counterparts@.len(),
            all == texts_of(counterparts@),
            pair_texts(r@) == evaluated_pairs(node_id@, source_is_new, all.take(i as int)),
        decreases counterparts@.len() - i,
    {
        let c = &counterparts[i];
        assert(all.take(i + 1).drop_last() =~= all.take(i as int));
        assert(all.take(i + 1).last() == c@);
        if !same_text(c.as_str(), node_id) {
            if source_is_new {
                r.push((String::from_str(node_id), c.clone()));
            } else {
                r.push((c.clone(), String::from_str(node_id)));
            }
            assert(pair_texts(r@) =~= evaluated_pairs(node_id@, source_is_new, all.take(i + 1)));
        }
        i = i + 1;
    }
    assert(all.take(i as int) =~= all);
    r
}

/// An `evaluated` edge never joins a node to itself, and always runs from
/// the optimizer side to the evaluation side.
pub proof fn law_evaluated_edges_join_distinct_nodes(node: Seq<char>, source_is_new: bool, counterparts: Seq<Seq<char>>)
    ensures
        forall|i: int| 0 <= i < evaluated_pairs(node, source_is_new, counterparts).len() ==> {
            let p = #[trigger] evaluated_pairs(node, source_is_new, counterparts)[i];
            &&& p.0 != p.1
            &&& if source_is_new { p.0 == node } else { p.1 == node }
        },
    decreases counterparts.len(),
{
    if counterparts.len() > 0 {
        let before = evaluated_pairs(node, source_is_new, counterparts.drop_last());
        let after = evaluated_pairs(node, source_is_new, counterparts);
        law_evaluated_edges_join_distinct_nodes(node, source_is_new, counterparts.drop_last());
        assert forall|i: int| 0 <= i < after.len() implies {
            let p = #[trigger] after[i];
            &&& p.0 != p.1
            &&& if source_is_new { p.0 == node } else { p.1 == node }
        } by {
            if i < before.len() {
                assert(after[i] == before[i]);
            }
        }
    }
}

} // verus!
