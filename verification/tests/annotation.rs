use synth_desktop::annotation::{sealed_trace_refs, AnnotationStageSpec, AnnotatorSpec, MaxCost, TomlValue};
use synth_desktop::annotation_jobs::{
    adopt_owner_digests, bind_jobs, campaign_estimate, campaign_plan, campaign_reply, check_grant,
    forwarded_reservations, job_bindings_of, lane_binding_digest, paid_lane_plan, BindingField,
    JobBinding, PaidLaneRefusal, RecordedJob,
};
use synth_desktop::json::{canonicalize, json_equal};

fn same_json(a: &JsonValue, b: &JsonValue) -> bool {
    json_equal(&canonicalize(a), &canonicalize(b))
}
use synth_desktop::json::{JsonNumber, JsonValue};

fn toml_value(value: &toml::Value) -> TomlValue {
    match value {
        toml::Value::String(s) => TomlValue::Text(s.clone()),
        toml::Value::Integer(i) => TomlValue::Integer(*i),
        toml::Value::Float(f) => TomlValue::Float(f.to_bits()),
        toml::Value::Boolean(b) => TomlValue::Boolean(*b),
        toml::Value::Datetime(d) => TomlValue::Datetime(d.to_string()),
        toml::Value::Array(items) => TomlValue::Array(items.iter().map(toml_value).collect()),
        toml::Value::Table(entries) => TomlValue::Table(
            entries.iter().map(|(k, v)| (k.clone(), toml_value(v))).collect(),
        ),
    }
}

fn table(text: &str) -> Vec<(String, TomlValue)> {
    let value: toml::Value = toml::from_str(text).unwrap();
    match toml_value(value.get("annotation").unwrap()) {
        TomlValue::Table(entries) => entries,
        _ => panic!("annotation is not a table"),
    }
}

fn json(value: &serde_json::Value) -> JsonValue {
    match value {
        serde_json::Value::Null => JsonValue::Null,
        serde_json::Value::Bool(b) => JsonValue::Bool(*b),
        serde_json::Value::Number(n) => {
            if let Some(u) = n.as_u64() {
                JsonValue::Number(JsonNumber::Unsigned(u))
            } else if let Some(i) = n.as_i64() {
                JsonValue::Number(JsonNumber::Negative(i))
            } else {
                JsonValue::Number(JsonNumber::Decimal(n.to_string()))
            }
        }
        serde_json::Value::String(s) => JsonValue::String(s.clone()),
        serde_json::Value::Array(items) => JsonValue::Array(items.iter().map(json).collect()),
        serde_json::Value::Object(map) => {
            JsonValue::Object(map.iter().map(|(k, v)| (k.clone(), json(v))).collect())
        }
    }
}

fn parse_json(text: &str) -> JsonValue {
    json(&serde_json::from_str::<serde_json::Value>(text).unwrap())
}

fn object(entries: Vec<(&str, JsonValue)>) -> JsonValue {
    JsonValue::Object(entries.into_iter().map(|(k, v)| (k.to_string(), v)).collect())
}

fn text(s: &str) -> JsonValue {
    JsonValue::String(s.to_string())
}

#[test]
fn parses_the_recipe_block_with_defaults_and_overrides() {
    let spec = AnnotationStageSpec::parse(
        "r",
        &table(
            r#"
            [annotation]
            annotators = ["craftax.deterministic", { id = "craftax.belief", repeats = 2, model = "gpt-5.6-luna" }]
            repeats = 1
            max_cost_usd = 0.8
            [annotation.throughput]
            deterministic = 4
            paid = 2
            "#,
        ),
    )
    .unwrap()
    .unwrap();
    assert_eq!(spec.annotators.len(), 2);
    assert_eq!(spec.annotators[0].annotator_id, "craftax.deterministic");
    assert_eq!(spec.annotators[0].repeats, 1);
    assert_eq!(spec.annotators[1].repeats, 2);
    assert_eq!(spec.annotators[1].model.as_deref(), Some("gpt-5.6-luna"));
    let paid = spec.throughput.iter().find(|(class, _)| class == "paid").unwrap().1;
    assert_eq!(paid, 2);
    assert_eq!(spec.max_cost_usd, Some(MaxCost::Float(0.8f64.to_bits())));
    assert_eq!(spec.label, "post_rollout");
    assert_eq!(
        spec.campaign_annotators()[1],
        object(vec![
            ("annotator_id", text("craftax.belief")),
            ("repeats", JsonValue::Number(JsonNumber::Unsigned(2))),
            ("model", text("gpt-5.6-luna")),
        ])
    );
}

#[test]
fn refuses_bad_blocks_where_they_are_read() {
    let cases = [
        ("[annotation]\nannotators = []", "at least one annotator"),
        ("[annotation]\nannotators = [\"a\", \"a\"]", "twice"),
        ("[annotation]\nannotators = [\"a\"]\nrepeats = 0", "1..=5"),
        ("[annotation]\nannotators = [\"a\"]\nmax_cost_usd = -1", "positive finite"),
        ("[annotation]\nannotators = [\"a\"]\nthroughput = { gpu = 2 }", "annotator class"),
        ("[annotation]\nannotators = [\"a\"]\nmystery = 1", "not an admitted option"),
        ("[annotation]\nannotators = [{ repeats = 1 }]", "need an id"),
    ];
    for (text, expected) in cases {
        let error = match AnnotationStageSpec::parse("r", &table(text)) {
            Err(error) => error,
            Ok(_) => panic!("{text}: accepted"),
        };
        assert!(error.contains(expected), "{text}: {error}");
    }
    assert!(AnnotationStageSpec::parse("r", &table("[annotation]\nenabled = false\nannotators = [\"a\"]"))
        .unwrap()
        .is_none());
}

#[test]
fn refusals_name_the_recipe_and_the_exact_field() {
    let error = match AnnotationStageSpec::parse(
        "eval.craftax",
        &table("[annotation]\nannotators = [{ id = \"a\", model = \" \" }]"),
    ) {
        Err(error) => error,
        Ok(_) => panic!("accepted a blank model"),
    };
    assert_eq!(error, "recipe `eval.craftax` annotation.annotators.model must be a non-empty string");
    let error = match AnnotationStageSpec::parse(
        "r",
        &table("[annotation]\nannotators = [\"a\"]\n[annotation.throughput]\npaid = 65"),
    ) {
        Err(error) => error,
        Ok(_) => panic!("accepted a cap of 65"),
    };
    assert_eq!(error, "recipe `r` annotation.throughput.paid must be 1..=64");
    let error = match AnnotationStageSpec::parse("r", &table("[annotation]\nenabled = 1\nannotators = [\"a\"]")) {
        Err(error) => error,
        Ok(_) => panic!("accepted a numeric enabled"),
    };
    assert_eq!(error, "recipe `r` annotation.enabled must be a boolean");
    let error = match AnnotationStageSpec::parse("r", &table("[annotation]\nannotators = [\"a\"]\nlabel = \"  \"")) {
        Err(error) => error,
        Ok(_) => panic!("accepted a blank label"),
    };
    assert_eq!(error, "recipe `r` annotation.label must be a non-empty string");
    let error = match AnnotationStageSpec::parse("r", &table("[annotation]\nannotators = [{ id = \"a\", colour = \"red\" }]")) {
        Err(error) => error,
        Ok(_) => panic!("accepted an unknown annotator option"),
    };
    assert_eq!(error, "recipe `r` annotation.annotators.colour is not an admitted option");
}

#[test]
fn annotator_ids_are_trimmed_and_bounded() {
    let spec = AnnotationStageSpec::parse(
        "r",
        &table("[annotation]\nannotators = [\" a \", { annotator_id = \" b \", repeats = 5 }]\nrepeats = 3\nmax_cost_usd = 2\nlabel = \" judged \""),
    )
    .unwrap()
    .unwrap();
    assert_eq!(spec.annotators[0].annotator_id, "a");
    assert_eq!(spec.annotators[0].repeats, 3);
    assert_eq!(spec.annotators[1].annotator_id, "b");
    assert_eq!(spec.annotators[1].repeats, 5);
    assert_eq!(spec.max_cost_usd, Some(MaxCost::Integer(2)));
    assert_eq!(spec.label, "judged");
    let many: Vec<String> = (0..17).map(|i| format!("\"a{i}\"")).collect();
    let text = format!("[annotation]\nannotators = [{}]", many.join(", "));
    assert_eq!(
        AnnotationStageSpec::parse("r", &table(&text)).err(),
        Some("recipe `r` annotation.annotators lists more than 16 annotators".to_string())
    );
    assert_eq!(
        AnnotationStageSpec::parse("r", &table("[annotation]\nannotators = [\"a\"]\nmax_cost_usd = inf")).err(),
        Some("recipe `r` annotation.max_cost_usd must be a positive finite number".to_string())
    );
}

#[test]
fn sealed_trace_refs_skip_partial_and_duplicate_traces() {
    let records = vec![
        parse_json(r#"{"sealedTrace": {"traces": [{"traceId": "host-t1", "producerTraceId": "t1", "digest": "sha256:aaa"}]}}"#),
        parse_json(r#"{"evidenceState": "sealed_partial", "sealedTrace": {"traces": [{"traceId": "t2", "digest": "sha256:bbb"}]}}"#),
        parse_json(r#"{"sealedTrace": {"traces": [{"traceId": "host-t1", "producerTraceId": "t1", "digest": "sha256:aaa"}]}}"#),
        parse_json(r#"{"reward": 1.0}"#),
    ];
    assert_eq!(
        sealed_trace_refs(&records),
        vec![object(vec![("kind", text("trace_v5")), ("id", text("t1")), ("digest", text("sha256:aaa"))])]
    );
}

#[test]
fn a_trace_without_a_producer_id_is_addressed_by_its_own_id() {
    let records = vec![parse_json(
        r#"{"sealedTrace": {"traces": [{"traceId": "t9", "digest": " sha256:ccc "}, {"traceId": "t10", "digest": ""}]}}"#,
    )];
    assert_eq!(
        sealed_trace_refs(&records),
        vec![object(vec![("kind", text("trace_v5")), ("id", text("t9")), ("digest", text("sha256:ccc"))])]
    );
}

fn annotator(id: &str, repeats: u32) -> AnnotatorSpec {
    AnnotatorSpec {
        annotator_id: id.to_string(),
        repeats,
        model: None,
        rubric_id: None,
        reasoning_effort: None,
        runner_kind: None,
    }
}

fn fields(entries: &[(&str, JsonValue)]) -> JsonValue {
    JsonValue::Object(entries.iter().map(|(k, v)| (k.to_string(), clone_json(v))).collect())
}

fn clone_json(v: &JsonValue) -> JsonValue {
    match v {
        JsonValue::String(s) => JsonValue::String(s.clone()),
        JsonValue::Number(JsonNumber::Unsigned(n)) => JsonValue::Number(JsonNumber::Unsigned(*n)),
        _ => JsonValue::Null,
    }
}

fn t(s: &str) -> JsonValue {
    JsonValue::String(s.to_string())
}

fn job_traces() -> Vec<JsonValue> {
    vec![
        fields(&[("id", t("t1")), ("digest", t("d1"))]),
        fields(&[("id", t("t2")), ("digest", t("d2"))]),
        fields(&[("id", t("t3"))]),
    ]
}

fn recorded(job: &str, trace: &str, digest: &str, annotator: &str, repeat: u64) -> RecordedJob {
    RecordedJob {
        job_id: job.to_string(),
        trace_id: Some(trace.to_string()),
        trace_digest: Some(digest.to_string()),
        annotator_id: Some(annotator.to_string()),
        repeat_index: Some(repeat),
        reservation_id: None,
    }
}

#[test]
fn returned_jobs_follow_the_plan_less_what_was_refused() {
    let annotators = vec![annotator("a", 2), annotator("b", 0)];
    let refused = vec![fields(&[
        ("trace_digest", t("d1")),
        ("annotator_id", t("a")),
        ("repeat_index", JsonValue::Number(JsonNumber::Unsigned(1))),
    ])];
    let jobs: Vec<String> = (1..=5).map(|n| format!("j{n}")).collect();
    let bound = bind_jobs(&job_traces(), &annotators, &refused, &jobs, &Vec::new());
    assert_eq!(
        bound,
        vec![
            recorded("j1", "t1", "d1", "a", 0),
            recorded("j2", "t1", "d1", "b", 0),
            recorded("j3", "t2", "d2", "a", 0),
            recorded("j4", "t2", "d2", "a", 1),
            recorded("j5", "t2", "d2", "b", 0),
        ]
    );
}

#[test]
fn when_the_counts_disagree_only_bound_jobs_keep_a_trace() {
    let annotators = vec![annotator("a", 1)];
    let jobs = vec!["j1".to_string(), "j2".to_string(), "j3".to_string()];
    let bindings = vec![JobBinding {
        key: "d2|a|0".to_string(),
        job_id: "j3".to_string(),
        reservation_id: Some("res-7".to_string()),
    }];
    let bound = bind_jobs(&job_traces(), &annotators, &Vec::new(), &jobs, &bindings);
    assert_eq!(bound.len(), 3);
    assert_eq!(bound[0].trace_id, None);
    assert_eq!(bound[1].repeat_index, None);
    let mut expected = recorded("j3", "t2", "d2", "a", 0);
    expected.reservation_id = Some("res-7".to_string());
    assert_eq!(bound[2], expected);
}

#[test]
fn a_refusal_without_a_repeat_names_the_first_repeat() {
    let annotators = vec![annotator("a", 2)];
    let refused = vec![fields(&[("trace_digest", t("d1")), ("annotator_id", t("a"))])];
    let jobs = vec!["j1".to_string(), "j2".to_string(), "j3".to_string()];
    let bound = bind_jobs(&job_traces(), &annotators, &refused, &jobs, &Vec::new());
    assert_eq!(bound[0], recorded("j1", "t1", "d1", "a", 1));
    assert_eq!(bound[1], recorded("j2", "t2", "d2", "a", 0));
}

fn paid_jobs() -> Vec<JsonValue> {
    match parse_json(
        r#"[
            {"trace_digest": " d1 ", "annotator_id": "judge", "model": "gpt-x", "repeat_index": 1},
            {"trace_digest": "d2", "annotator_id": "judge", "model": "gpt-x"}
        ]"#,
    ) {
        JsonValue::Array(items) => items,
        _ => unreachable!(),
    }
}

#[test]
fn a_paid_lane_reserves_each_job_under_its_plan_key() {
    let plan = paid_lane_plan(Some("sess-1"), Some(1_000_000), true, Some(300_000), true, &paid_jobs(), &vec![Some(100_000), Some(200_000)])
        .unwrap();
    assert_eq!(plan.session_id, "sess-1");
    assert_eq!(plan.total_micros, 300_000);
    assert_eq!(plan.reservations.len(), 2);
    assert_eq!(plan.reservations[0].key, "d1|judge|1");
    assert_eq!(plan.reservations[0].trace_digest, "d1");
    assert_eq!(plan.reservations[1].key, "d2|judge|0");
    assert_eq!(plan.reservations[1].cap_micros, 200_000);
    assert!(check_grant(300_000, &plan).is_ok());
    assert_eq!(check_grant(299_999, &plan), Err(PaidLaneRefusal::CapReduced));
    let digest = lane_binding_digest("run-1", "c-1", &plan);
    assert_eq!(digest, lane_binding_digest("run-1", "c-1", &plan));
    assert_ne!(digest, lane_binding_digest("run-2", "c-1", &plan));
}

#[test]
fn a_paid_lane_is_refused_in_order() {
    let jobs = paid_jobs();
    let caps = vec![Some(100_000), Some(200_000)];
    assert_eq!(paid_lane_plan(Some("  "), Some(1), true, Some(1), true, &jobs, &caps).unwrap_err(), PaidLaneRefusal::SessionRequired);
    assert_eq!(paid_lane_plan(Some("s"), None, false, None, false, &jobs, &caps).unwrap_err(), PaidLaneRefusal::CeilingUndeclared);
    assert_eq!(paid_lane_plan(Some("s"), Some(1), false, None, false, &jobs, &caps).unwrap_err(), PaidLaneRefusal::ApproverUnavailable);
    assert_eq!(paid_lane_plan(Some("s"), Some(1), true, None, false, &jobs, &caps).unwrap_err(), PaidLaneRefusal::EstimateUncapped);
    let broker = paid_lane_plan(Some("s"), Some(1), true, Some(1), false, &jobs, &caps).unwrap_err();
    assert_eq!(broker, PaidLaneRefusal::BrokerUnavailable);
    assert_eq!(broker.code(), "reservation_broker_unavailable");
    assert_eq!(
        broker.message("c-9").unwrap(),
        "container `c-9` was not launched by Workshop; no reservation secret exists"
    );
    assert_eq!(
        paid_lane_plan(Some("s"), Some(1), true, Some(1), true, &jobs, &vec![Some(1), None]).unwrap_err(),
        PaidLaneRefusal::JobUncapped
    );
    let incomplete = vec![parse_json(r#"{"trace_digest": "d", "annotator_id": "a", "model": " "}"#)];
    let refused = paid_lane_plan(Some("s"), Some(10), true, Some(1), true, &incomplete, &vec![Some(1)]).unwrap_err();
    assert_eq!(refused, PaidLaneRefusal::BindingIncomplete(BindingField::Model));
    assert_eq!(refused.message("c").unwrap(), "campaign paid job has no resolved model");
    assert_eq!(
        paid_lane_plan(Some("s"), Some(10), true, Some(5), true, &jobs, &vec![Some(u64::MAX), Some(1)]).unwrap_err(),
        PaidLaneRefusal::CapOverflow
    );
    let inconsistent = paid_lane_plan(Some("s"), Some(1_000_000), true, Some(5), true, &jobs, &caps).unwrap_err();
    assert_eq!(inconsistent, PaidLaneRefusal::EstimateInconsistent { total: 5, declared: 300_000 });
    assert_eq!(inconsistent.message("c").unwrap(), "campaign total 5 does not equal its paid-job caps 300000");
    let over = paid_lane_plan(Some("s"), Some(299_999), true, Some(300_000), true, &jobs, &caps).unwrap_err();
    assert_eq!(over, PaidLaneRefusal::CeilingExceeded { total: 300_000, ceiling: 299_999 });
    assert_eq!(over.code(), "annotation_cost_ceiling_exceeded");
    assert_eq!(over.message("c"), None);
}

#[test]
fn trace_digests_follow_the_container_where_it_holds_one() {
    let traces = vec![
        parse_json(r#"{"id": "t1", "digest": "local-1"}"#),
        parse_json(r#"{"id": "t2", "digest": "local-2"}"#),
        parse_json(r#"{"id": "t3"}"#),
    ];
    let owners = vec![
        parse_json(r#"{"id": "t1", "digest": "owner-1"}"#),
        parse_json(r#"{"id": "t2", "digest": "  "}"#),
        parse_json(r#"{"id": "t3", "digest": "owner-3"}"#),
    ];
    let adopted = adopt_owner_digests(traces, &owners);
    assert!(same_json(&adopted[0], &parse_json(r#"{"id": "t1", "digest": "owner-1"}"#)));
    assert!(same_json(&adopted[1], &parse_json(r#"{"id": "t2", "digest": "local-2"}"#)));
    assert!(same_json(&adopted[2], &parse_json(r#"{"id": "t3", "digest": "owner-3"}"#)));
}

#[test]
fn the_campaign_carries_the_plan_and_its_reservations() {
    let stage = AnnotationStageSpec {
        annotators: vec![annotator("judge", 2)],
        throughput: vec![("paid".to_string(), 4)],
        max_cost_usd: None,
        label: "quality".to_string(),
    };
    let traces = vec![parse_json(r#"{"id": "t1", "digest": "d1"}"#)];
    let estimate = campaign_plan(&traces, &stage, Some("sess"), true, None);
    assert!(same_json(
        &estimate,
        &parse_json(
            r#"{"traces": [{"id": "t1", "digest": "d1"}],
                "annotators": [{"annotator_id": "judge", "repeats": 2}],
                "label": "quality", "session_id": "sess",
                "throughput": {"paid": 4}, "estimate_only": true}"#
        )
    ));
    let submit = campaign_plan(&traces, &stage, None, false, Some(&vec![("d1|judge|0".to_string(), "tok".to_string())]));
    assert!(matches!(submit.get("session_id"), Some(JsonValue::Null)));
    assert!(matches!(submit.get("estimate_only"), Some(JsonValue::Bool(false))));
    assert!(same_json(submit.get("reservations").unwrap(), &parse_json(r#"{"d1|judge|0": "tok"}"#)));
}

#[test]
fn an_estimate_reply_is_read_with_or_without_its_wrapper() {
    let (estimate, paid, notes) = campaign_estimate(&parse_json(
        r#"{"estimate": {"paid_jobs": [{"a": 1}], "notes": ["one", 2, "two"], "max_cost_usd": 0.5}}"#,
    ));
    assert_eq!(paid.len(), 1);
    assert_eq!(notes, vec!["one".to_string(), "two".to_string()]);
    assert!(estimate.get("max_cost_usd").is_some());
    let (_, paid, notes) = campaign_estimate(&parse_json(r#"{"paid_jobs": "none"}"#));
    assert!(paid.is_empty());
    assert!(notes.is_empty());
}

#[test]
fn job_bindings_keep_the_last_binding_of_each_key() {
    let reply = parse_json(
        r#"{"job_bindings": [
            {"key": "k1", "job_id": "j1", "reservation_id": "r1"},
            {"key": "k2", "job_id": "j2"},
            {"key": "k1", "job_id": "j3"},
            {"key": "k4"}
        ]}"#,
    );
    let bindings = job_bindings_of(&reply);
    assert_eq!(bindings.len(), 2);
    assert_eq!((bindings[0].key.as_str(), bindings[0].job_id.as_str()), ("k2", "j2"));
    assert_eq!((bindings[1].key.as_str(), bindings[1].job_id.as_str(), bindings[1].reservation_id.clone()), ("k1", "j3", None));
    let issued = vec![("k1".to_string(), "res-1".to_string()), ("k9".to_string(), "res-9".to_string())];
    let forwarded = forwarded_reservations(&issued, &bindings);
    assert_eq!(forwarded, vec![("res-1".to_string(), Some("j3".to_string())), ("res-9".to_string(), None)]);
    assert!(job_bindings_of(&parse_json(r#"{}"#)).is_empty());
}

#[test]
fn a_submission_reply_is_read_with_defaults() {
    let reply = campaign_reply(&parse_json(
        r#"{"campaign_id": "c-1", "cache_hits": 2, "enqueued": "x", "refused": [{"a": 1}], "jobs": ["j1", 3, "j2"]}"#,
    ));
    assert_eq!(reply.campaign_id.as_deref(), Some("c-1"));
    assert_eq!(reply.cache_hits, 2);
    assert_eq!(reply.enqueued, 0);
    assert_eq!(reply.refused.len(), 1);
    assert_eq!(reply.job_ids, vec!["j1".to_string(), "j2".to_string()]);
}
