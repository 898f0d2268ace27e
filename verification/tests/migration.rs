use std::path::{Path, PathBuf};
use synth_desktop::json::JsonValue;
use synth_desktop::migration::{
    augmented_metadata, content_digest, json_text_digest, normalized_json_digest, check_import, check_unchanged, confirmation_phrase, delete_order, detection_from_tables,
    estimated_total, fingerprint_bytes, join_path, legacy_candidates_for_home, migration_id,
    normalize_source, resolve_legacy_path, stable_event_id, ConfirmationRefusal, EntityCount,
    ImportTally, PendingPlan, PlanRegistry,
};

#[test]
fn default_discovery_prefers_the_live_data_directory() {
    let home = Path::new("/test/home");
    let found: Vec<PathBuf> = legacy_candidates_for_home(home.to_str().unwrap())
        .into_iter()
        .map(PathBuf::from)
        .collect();
    assert_eq!(
        found,
        vec![
            home.join(".synth-desktop/runtime/data/runtime.sqlite3"),
            home.join(".synth-desktop/runtime/runtime.sqlite3"),
            home.join(".synth-desktop/runtime/mcp-data/runtime.sqlite3"),
        ]
    );
}

#[test]
fn paths_join_with_exactly_one_separator() {
    assert_eq!(join_path("/a/", "b"), "/a/b");
    assert_eq!(join_path("/a", "b"), "/a/b");
    assert_eq!(join_path("/a", "/b"), "/b");
    assert_eq!(resolve_legacy_path("traces/t.json", "/legacy"), "/legacy/traces/t.json");
    assert_eq!(resolve_legacy_path("/abs/t.json", "/legacy"), "/abs/t.json");
}

#[test]
fn unknown_event_sources_become_local() {
    assert_eq!(normalize_source("intern"), "intern");
    assert_eq!(normalize_source("visual"), "visual");
    assert_eq!(normalize_source("python"), "local");
}

#[test]
fn detection_requires_sessions_and_legacy_events() {
    let tables: Vec<String> = ["events", "sessions", "visuals"].iter().map(|t| t.to_string()).collect();
    let detected = detection_from_tables("/db".into(), tables.clone(), true);
    assert!(detected.exists && detected.is_legacy_runtime);
    assert!(detected.tables.contains(&"visuals".to_string()));
    assert_eq!(detected.warnings.len(), 6);
    assert_eq!(detected.warnings[0], "legacy database has no projects table; it will be skipped");
    assert!(!detection_from_tables("/db".into(), tables, false).is_legacy_runtime);
    let random = detection_from_tables("/db".into(), vec!["sessions".into()], false);
    assert!(!random.is_legacy_runtime);
}

#[test]
fn confirmation_spells_out_the_total() {
    let counts = vec![("projects".to_string(), 1u64), ("events".to_string(), 9u64)];
    let total = estimated_total(&counts);
    assert_eq!(total, 10);
    assert_eq!(confirmation_phrase(total), "IMPORT 10 LEGACY RECORDS");
}

#[test]
fn identities_are_stable_digests() {
    assert_eq!(
        fingerprint_bytes(b""),
        "sha256:e3b0c44298fc1c149afbf4c8996fb92427ae41e4649b934ca495991b7852b855"
    );
    let id = stable_event_id("source", "ses_1", 1);
    assert!(id.starts_with("evt_legacy_"));
    assert_eq!(id.len(), "evt_legacy_".len() + 32);
    assert_eq!(id, stable_event_id("source", "ses_1", 1));
    assert_ne!(id, stable_event_id("source", "ses_1", 2));
    assert_eq!(migration_id("0123456789abcdef0123456789abcdef"), "legacy_0123456789abcdef01234567");
    assert_eq!(delete_order().first().map(String::as_str), Some("visual_revisions"));
}

#[test]
fn a_tally_counts_each_outcome_and_keeps_ids_for_rollback() {
    let mut tally = ImportTally::new(Vec::new());
    assert_eq!(tally.counts.len(), 9);
    tally.found("projects");
    tally.imported("projects", "proj_1".into());
    tally.found("projects");
    tally.existing("projects");
    tally.skipped("events", "event ses_1/1 references a missing session".into());
    let projects = tally.counts.iter().find(|(t, _)| t == "projects").unwrap().1;
    assert_eq!(projects, EntityCount { found: 2, imported: 1, existing: 1, skipped: 0 });
    assert_eq!(tally.imported_ids, vec![("projects".to_string(), vec!["proj_1".to_string()])]);
    assert_eq!(tally.warnings.len(), 1);
}

fn plan(phrase: &str, expires_at: i64) -> PendingPlan {
    PendingPlan {
        source_db: "/legacy/runtime.sqlite3".into(),
        source_fingerprint: "sha256:aa".into(),
        confirmation_phrase: phrase.into(),
        expires_at,
    }
}

#[test]
fn requires_exact_confirmation_and_consumes_the_plan() {
    let mut plans = PlanRegistry::new();
    plans.insert("token".into(), plan("IMPORT 10 LEGACY RECORDS", 1_000));
    assert_eq!(
        plans.take_confirmed("token", "IMPORT IT", 10).unwrap_err(),
        ConfirmationRefusal::PhraseMismatch
    );
    let taken = plans.take_confirmed("token", "IMPORT 10 LEGACY RECORDS", 10).unwrap();
    assert_eq!(taken.source_db, "/legacy/runtime.sqlite3");
    assert!(!plans.cancel("token"), "a consumed plan cannot be cancelled");
    assert_eq!(
        plans.take_confirmed("token", "IMPORT 10 LEGACY RECORDS", 10).unwrap_err(),
        ConfirmationRefusal::TokenInvalidOrExpired
    );
}

#[test]
fn an_expired_plan_cannot_be_confirmed_and_a_cancelled_one_is_gone() {
    let mut plans = PlanRegistry::new();
    plans.insert("old".into(), plan("P", 5));
    assert_eq!(plans.take_confirmed("old", "P", 5).unwrap_err(), ConfirmationRefusal::TokenInvalidOrExpired);
    plans.insert("new".into(), plan("P", 50));
    assert!(plans.cancel("new"));
    assert!(!plans.cancel("new"));
}

#[test]
fn rejects_a_source_changed_after_confirmation() {
    assert_eq!(
        check_unchanged("sha256:bb", "sha256:aa").unwrap_err(),
        "legacy database changed after confirmation; inspect and confirm again"
    );
    assert!(check_unchanged("sha256:aa", "sha256:aa").is_ok());
}

#[test]
fn refuses_source_destination_alias() {
    let error = check_import("/same.sqlite3", true, true, true).unwrap_err();
    assert!(error.contains("must be different"));
    assert!(check_import("/missing.sqlite3", false, false, false).unwrap_err().contains("does not exist"));
}

#[test]
fn a_legacy_candidate_with_sidecars_warns_and_carries_its_fingerprint() {
    let detection = synth_desktop::migration::detection_from_tables(
        "/legacy/runtime.sqlite3".to_string(),
        vec!["events".to_string(), "sessions".to_string()],
        true,
    );
    let warnings_before = detection.warnings.len();
    let candidate = synth_desktop::migration::inspected_candidate(detection, true, Some("fp".into()), true);
    assert_eq!(candidate.detection.warnings.len(), warnings_before + 1);
    assert!(candidate.detection.warnings.last().unwrap().starts_with("SQLite WAL/SHM sidecars are present."));
    assert_eq!(candidate.source_fingerprint.as_deref(), Some("fp"));
    assert!(candidate.already_migrated);

    let other = synth_desktop::migration::detection_from_tables("/x.sqlite3".to_string(), vec![], false);
    let candidate = synth_desktop::migration::inspected_candidate(other, true, Some("fp".into()), true);
    assert_eq!(candidate.source_fingerprint, None);
    assert!(!candidate.already_migrated);
}

#[test]
fn a_plan_states_the_phrase_and_expires_ten_minutes_later() {
    let detection = synth_desktop::migration::detection_from_tables(
        "/legacy/runtime.sqlite3".to_string(),
        vec!["events".to_string(), "sessions".to_string()],
        true,
    );
    let candidate = synth_desktop::migration::inspected_candidate(detection, false, Some("fp".into()), false);
    let counts = vec![("projects".to_string(), 2), ("sessions".to_string(), 3)];
    let (plan, pending) = synth_desktop::migration::prepare_plan(
        candidate,
        "/legacy/runtime.sqlite3",
        counts,
        "token-1".into(),
        "/dest.sqlite3".into(),
        "/backups".into(),
        1_000,
        "2026-01-01T00:10:00Z".into(),
    )
    .unwrap();
    assert_eq!(plan.confirmation_phrase, "IMPORT 5 LEGACY RECORDS");
    assert_eq!(plan.source_fingerprint, "fp");
    assert_eq!(pending.expires_at, 601_000);
    assert_eq!(pending.confirmation_phrase, plan.confirmation_phrase);

    let missing = synth_desktop::migration::inspected_candidate(
        synth_desktop::migration::absent_detection("/nope".to_string()),
        false,
        None,
        false,
    );
    let refused = synth_desktop::migration::prepare_plan(missing, "/nope", vec![], "t".into(), "d".into(), "b".into(), 0, "e".into());
    assert_eq!(refused.err().unwrap(), "legacy database does not exist: /nope");
}

#[test]
fn an_import_commits_only_after_a_clean_integrity_check() {
    assert!(synth_desktop::migration::check_integrity("ok", 0).is_ok());
    assert_eq!(
        synth_desktop::migration::check_integrity("row 3 missing", 0).err().unwrap(),
        "destination integrity check failed: row 3 missing"
    );
    assert_eq!(
        synth_desktop::migration::check_integrity("ok", 2).err().unwrap(),
        "destination has 2 foreign-key violations"
    );
}

#[test]
fn a_content_address_is_the_bare_hex_digest_of_the_bytes() {
    assert_eq!(
        content_digest(b"abc"),
        "ba7816bf8f01cfea414140de5dae2223b00361a396177a9cb410ff61f20015ad"
    );
    assert_eq!(
        content_digest(b""),
        "e3b0c44298fc1c149afbf4c8996fb92427ae41e4649b934ca495991b7852b855"
    );
}

#[test]
fn an_unparsed_json_column_digests_as_an_empty_object() {
    let empty_object = "44136fa355b3678a1146ad16f7e8649e94fb4fc21fe77e8310c060f61caaff8a";
    assert_eq!(json_text_digest("not json"), empty_object);
    assert_eq!(json_text_digest("{ }"), empty_object);
    assert_eq!(normalized_json_digest(None), empty_object);
    // The compact text of {"a":1}.
    assert_eq!(json_text_digest(" { \"a\" : 1 } "), content_digest(br#"{"a":1}"#));
    assert_eq!(normalized_json_digest(Some(r#"{"a":1}"#.to_string())), content_digest(br#"{"a":1}"#));
}

#[test]
fn legacy_metadata_gains_its_key_in_order() {
    let stored = JsonValue::Object(vec![
        ("a".to_string(), JsonValue::Bool(true)),
        ("z".to_string(), JsonValue::Null),
    ]);
    let augmented = augmented_metadata(
        Some(stored),
        "legacyPath",
        Some(JsonValue::String("/old/file".to_string())),
    );
    let JsonValue::Object(entries) = augmented else { panic!("an object") };
    let keys: Vec<&str> = entries.iter().map(|(k, _)| k.as_str()).collect();
    assert_eq!(keys, vec!["a", "legacyPath", "z"]);

    let from_nothing = augmented_metadata(Some(JsonValue::Array(Vec::new())), "legacyPath", None);
    assert!(matches!(from_nothing, JsonValue::Object(entries) if entries.is_empty()));
}

#[test]
fn a_token_inserted_twice_names_one_plan() {
    let mut plans = PlanRegistry::new();
    plans.insert("token".into(), plan("FIRST", 1_000));
    plans.insert("token".into(), plan("SECOND", 1_000));
    assert_eq!(plans.plans.len(), 1);
    assert_eq!(
        plans.take_confirmed("token", "FIRST", 10).unwrap_err(),
        ConfirmationRefusal::PhraseMismatch
    );
    plans.take_confirmed("token", "SECOND", 10).unwrap();
    assert!(!plans.cancel("token"));
}

#[test]
fn a_legacy_json_digest_keeps_serde_json_number_text() {
    assert_eq!(
        json_text_digest(r#"{"b": -0.0, "a": 0.0}"#),
        content_digest(br#"{"a":0.0,"b":-0.0}"#)
    );
}
