use synth_desktop::json::JsonValue;
use synth_desktop::lineage::{evaluated_edges, evaluated_link, experiment_edge, member_config, member_node_id};

#[test]
fn a_member_node_is_named_by_experiment_kind_and_member() {
    assert_eq!(member_node_id("exp-1", "optimizer_run", "run-7"), "exp-1:optimizer_run:run-7");
}

#[test]
fn an_edge_is_named_by_its_endpoints_and_relation() {
    let edge = experiment_edge("exp:optimizer_run:a", "exp:eval_campaign:b", "evaluated", "2026-01-01T00:00:00Z");
    assert_eq!(edge.id, "edge:exp:optimizer_run:a:evaluated:exp:eval_campaign:b");
    assert_eq!(edge.source_node_id, "exp:optimizer_run:a");
    assert_eq!(edge.target_node_id, "exp:eval_campaign:b");
    assert_eq!(edge.created_at, "2026-01-01T00:00:00Z");
}

#[test]
fn an_optimizer_and_an_evaluation_are_joined_optimizer_first() {
    assert_eq!(evaluated_link("eval_campaign"), Some(("optimizer_run".to_string(), false)));
    assert_eq!(evaluated_link("optimizer_run"), Some(("eval_campaign".to_string(), true)));
    assert_eq!(evaluated_link("dataset"), None);

    let optimizers = vec!["n:opt:1".to_string(), "n:eval:9".to_string(), "n:opt:2".to_string()];
    assert_eq!(
        evaluated_edges("n:eval:9", false, &optimizers),
        vec![("n:opt:1".to_string(), "n:eval:9".to_string()), ("n:opt:2".to_string(), "n:eval:9".to_string())]
    );
    let evals = vec!["n:eval:1".to_string()];
    assert_eq!(evaluated_edges("n:opt:3", true, &evals), vec![("n:opt:3".to_string(), "n:eval:1".to_string())]);
}

#[test]
fn a_member_node_records_its_kind_and_id() {
    assert_eq!(
        member_config("optimizer_run", "run-7"),
        JsonValue::Object(vec![
            ("memberKind".to_string(), JsonValue::String("optimizer_run".into())),
            ("memberId".to_string(), JsonValue::String("run-7".into())),
        ])
    );
}
