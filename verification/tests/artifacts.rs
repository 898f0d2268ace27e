//! Artifact declarations read from loose event references, the artifact
//! index read back, bounded byte ranges, and media handed to the renderer.

use synth_desktop::artifacts::{
    artifact_declaration, artifact_page, artifact_range, check_range_length, check_redeclaration,
    event_rollout_id, event_work_item_id, file_range, locator_path, media_type, page_query,
    stored_byte_size, streamable_media_type, ArtifactEvent, RangeRefusal, RunArtifact,
    ARTIFACT_PAGE_SCHEMA_VERSION, ARTIFACT_RANGE_SCHEMA_VERSION, MAX_RANGE_BYTES,
};
use synth_desktop::json::{json_equal, JsonNumber, JsonValue};
use synth_desktop::media::{
    check_preview_size, check_servable, image_data_url, media_response, media_run_candidates,
    preview_mime, MediaGrant, MediaRefusal, PreviewRefusal, VISUAL_MEDIA_MAX_BYTES,
};

fn text(s: &str) -> JsonValue {
    JsonValue::String(s.to_string())
}

fn number(n: u64) -> JsonValue {
    JsonValue::Number(JsonNumber::Unsigned(n))
}

fn object(entries: Vec<(&str, JsonValue)>) -> JsonValue {
    JsonValue::Object(entries.into_iter().map(|(k, v)| (k.to_string(), v)).collect())
}

fn event(item: Option<JsonValue>, delta: JsonValue) -> ArtifactEvent {
    ArtifactEvent {
        optimizer_run_id: "run-1".into(),
        sequence_number: 42,
        occurred_at: "2026-09-01T00:00:00Z".into(),
        item,
        delta,
        artifact_refs: Vec::new(),
    }
}

// ---------------------------------------------------------------------------
// Declarations
// ---------------------------------------------------------------------------

#[test]
fn a_complete_reference_declares_an_artifact() {
    let ev = event(
        Some(object(vec![("trialId", text("  trial-9 "))])),
        object(vec![("container_event", object(vec![("rollout_id", text("r-3"))]))]),
    );
    let reference = object(vec![
        ("kind", text(" frame ")),
        ("path", text("/tmp/out/Frame.PNG")),
        ("sha256", text("abc")),
        ("bytes", number(2048)),
    ]);
    let d = artifact_declaration(&ev, &reference).expect("kind and locator declare an artifact");
    assert_eq!(d.optimizer_run_id, "run-1");
    assert_eq!(d.kind, "frame");
    assert_eq!(d.locator, "/tmp/out/Frame.PNG");
    assert_eq!(d.artifact_id, "/tmp/out/Frame.PNG");
    assert_eq!(d.digest.as_deref(), Some("abc"));
    assert_eq!(d.media_type.as_deref(), Some("image/png"));
    assert_eq!(d.declared_byte_size, Some(2048));
    assert_eq!(d.sequence, 42);
    assert_eq!(d.work_item_id.as_deref(), Some("trial-9"));
    assert_eq!(d.rollout_id.as_deref(), Some("r-3"));
    assert_eq!(d.declared_at, "2026-09-01T00:00:00Z");
}

#[test]
fn an_explicit_artifact_id_and_media_type_win() {
    let ev = event(None, object(vec![]));
    let reference = object(vec![
        ("type", text("trace")),
        ("uri", text("cas://x")),
        ("artifactId", text("trace-1")),
        ("contentType", text("Application/JSON")),
        ("rolloutId", text("r-1")),
    ]);
    let d = artifact_declaration(&ev, &reference).unwrap();
    assert_eq!(d.artifact_id, "trace-1");
    assert_eq!(d.media_type.as_deref(), Some("application/json"));
    assert_eq!(d.rollout_id.as_deref(), Some("r-1"));
    assert_eq!(d.work_item_id, None);
    assert_eq!(d.declared_byte_size, None);
}

#[test]
fn incomplete_references_declare_nothing() {
    let ev = event(None, object(vec![]));
    assert!(artifact_declaration(&ev, &text("/tmp/a.png")).is_none());
    assert!(artifact_declaration(&ev, &object(vec![("path", text("/tmp/a.png"))])).is_none());
    assert!(artifact_declaration(&ev, &object(vec![("kind", text("frame"))])).is_none());
    assert!(artifact_declaration(
        &ev,
        &object(vec![("kind", text("   ")), ("path", text("/tmp/a.png"))])
    )
    .is_none());
}

#[test]
fn the_first_size_member_decides_even_when_it_is_not_a_number() {
    let ev = event(None, object(vec![]));
    let reference = object(vec![
        ("kind", text("frame")),
        ("id", text("f-1")),
        ("byteSize", text("2048")),
        ("bytes", number(7)),
    ]);
    assert_eq!(artifact_declaration(&ev, &reference).unwrap().declared_byte_size, None);
}

#[test]
fn a_sequence_past_the_stored_range_saturates() {
    let mut ev = event(None, object(vec![]));
    ev.sequence_number = u64::MAX;
    let reference = object(vec![("kind", text("frame")), ("id", text("f-1"))]);
    assert_eq!(artifact_declaration(&ev, &reference).unwrap().sequence, i64::MAX);
    assert_eq!(stored_byte_size(Some(u64::MAX)), None);
    assert_eq!(stored_byte_size(Some(5)), Some(5));
    assert_eq!(stored_byte_size(None), None);
}

#[test]
fn media_types_are_inferred_from_the_locator() {
    let none = object(vec![]);
    assert_eq!(media_type(&none, "/x/run.MP4").as_deref(), Some("video/mp4"));
    assert_eq!(media_type(&none, "/x/events.jsonl").as_deref(), Some("application/json"));
    assert_eq!(media_type(&none, "/x/a.json").as_deref(), Some("application/json"));
    assert_eq!(media_type(&none, "/x/a.txt"), None);
    let blank = object(vec![("mediaType", text("  ")), ("media_type", text("IMAGE/PNG"))]);
    assert_eq!(media_type(&blank, "/x/a.txt").as_deref(), Some("image/png"));
}

#[test]
fn work_item_and_rollout_ids_fall_back_through_the_delta() {
    let delta = object(vec![("work_item_id", text("w-2")), ("rolloutId", text(""))]);
    let ev = event(Some(object(vec![("id", text("   "))])), delta);
    assert_eq!(event_work_item_id(&ev).as_deref(), Some("w-2"));
    // The delta's own rollout id is taken as it stands, even when empty.
    assert_eq!(event_rollout_id(&ev, &object(vec![])).as_deref(), Some(""));
    let carried = event(None, object(vec![("containerEvent", object(vec![("rolloutId", text("r-8"))]))]));
    assert_eq!(event_rollout_id(&carried, &object(vec![])).as_deref(), Some("r-8"));
    assert_eq!(event_rollout_id(&event(None, object(vec![])), &object(vec![])), None);
}

#[test]
fn an_artifact_identity_never_moves() {
    let ev = event(None, object(vec![]));
    let d = artifact_declaration(&ev, &object(vec![("kind", text("frame")), ("id", text("/a.png"))])).unwrap();
    assert!(check_redeclaration(&d, "/a.png").is_ok());
    let moved = check_redeclaration(&d, "/b.png").unwrap_err();
    assert_eq!(moved.artifact_id, "/a.png");
    assert_eq!(moved.existing_locator, "/b.png");
    assert_eq!(moved.locator, "/a.png");
    assert_eq!(moved.optimizer_run_id, "run-1");
}

// ---------------------------------------------------------------------------
// The index read back
// ---------------------------------------------------------------------------

fn stored(sequence: i64, size: Option<i64>) -> RunArtifact {
    RunArtifact::from_row(
        "run-1".into(),
        format!("a-{sequence}"),
        sequence,
        None,
        None,
        "frame".into(),
        "/a.png".into(),
        None,
        Some("image/png".into()),
        size,
        JsonValue::Null,
        "t".into(),
    )
}

#[test]
fn negative_stored_numbers_read_as_zero() {
    let a = stored(-4, Some(-1));
    assert_eq!(a.sequence, 0);
    assert_eq!(a.byte_size, Some(0));
    assert_eq!(stored(9, None).byte_size, None);
}

#[test]
fn a_page_advances_to_its_last_sequence() {
    assert_eq!(page_query(3, 0), (3, 1));
    assert_eq!(page_query(u64::MAX, 900), (i64::MAX, 500));
    assert_eq!(page_query(0, 40), (0, 40));
    let page = artifact_page("run-1", 3, vec![stored(4, None), stored(7, None)]);
    assert_eq!(page.schema_version, ARTIFACT_PAGE_SCHEMA_VERSION);
    assert_eq!(page.next_sequence, 7);
    assert_eq!(page.artifacts.len(), 2);
    let empty = artifact_page("run-1", 3, Vec::new());
    assert_eq!(empty.next_sequence, 3);
}

// ---------------------------------------------------------------------------
// Byte ranges
// ---------------------------------------------------------------------------

#[test]
fn a_range_is_bounded_and_only_streamable_types_are_read() {
    assert_eq!(check_range_length(0), Err(RangeRefusal::LengthOutOfBounds));
    assert_eq!(check_range_length(MAX_RANGE_BYTES + 1), Err(RangeRefusal::LengthOutOfBounds));
    assert!(check_range_length(MAX_RANGE_BYTES).is_ok());
    assert_eq!(
        RangeRefusal::LengthOutOfBounds.message(),
        "artifact byte range length must be between 1 and 1048576"
    );
    assert_eq!(streamable_media_type(None), Err(RangeRefusal::NoMediaType));
    assert!(streamable_media_type(Some("video/mp4")).is_ok());
    let refused = streamable_media_type(Some("text/plain")).unwrap_err();
    assert_eq!(refused.message(), "artifact media type \"text/plain\" is not byte-streamable");
}

#[test]
fn a_file_locator_loses_its_scheme() {
    assert_eq!(locator_path("file:///var/run/a.png"), "/var/run/a.png");
    assert_eq!(locator_path("/var/run/a.png"), "/var/run/a.png");
    assert_eq!(locator_path("file:/x"), "file:/x");
}

#[test]
fn a_range_is_cut_at_the_end_of_the_file() {
    assert_eq!(file_range(true, true, 50, 0, 10), Err(RangeRefusal::NotRegularFile));
    assert_eq!(file_range(false, false, 50, 0, 10), Err(RangeRefusal::NotRegularFile));
    assert_eq!(file_range(false, true, 50, 51, 10), Err(RangeRefusal::StartsBeyondEnd));
    assert_eq!(file_range(false, true, 50, 10, 100), Ok((40, true)));
    assert_eq!(file_range(false, true, 50, 0, 10), Ok((10, false)));
    assert_eq!(file_range(false, true, 50, 50, 10), Ok((0, true)));
}

#[test]
fn a_served_range_carries_its_bytes_in_base64() {
    let range = artifact_range("run-1", "a-1", "application/json", 5, 30, false, b"hello");
    assert_eq!(range.schema_version, ARTIFACT_RANGE_SCHEMA_VERSION);
    assert_eq!(range.byte_length, 5);
    assert_eq!(range.offset, 5);
    assert_eq!(range.total_bytes, 30);
    assert!(!range.eof);
    assert_eq!(range.data_base64, "aGVsbG8=");
}

// ---------------------------------------------------------------------------
// Media for the renderer
// ---------------------------------------------------------------------------

#[test]
fn a_screenshot_preview_is_typed_by_its_extension() {
    assert_eq!(preview_mime(Some("PNG")), Ok("image/png"));
    assert_eq!(preview_mime(Some("Jpeg")), Ok("image/jpeg"));
    assert_eq!(preview_mime(Some("jpg")), Ok("image/jpeg"));
    assert_eq!(preview_mime(Some("webp")), Ok("image/webp"));
    assert_eq!(preview_mime(Some("gif")), Ok("image/gif"));
    assert_eq!(preview_mime(Some("bmp")), Err(PreviewRefusal::UnsupportedFormat));
    assert_eq!(preview_mime(None), Err(PreviewRefusal::NoFormat));
    assert_eq!(PreviewRefusal::UnsupportedFormat.message(), "Screenshot format is unsupported");
}

#[test]
fn a_screenshot_preview_is_bounded() {
    assert!(check_preview_size(true, 20 * 1024 * 1024).is_ok());
    assert_eq!(check_preview_size(true, 20 * 1024 * 1024 + 1), Err(PreviewRefusal::TooLarge));
    assert_eq!(check_preview_size(false, 10), Err(PreviewRefusal::TooLarge));
    assert_eq!(image_data_url("image/png", b"hi"), "data:image/png;base64,aGk=");
}

#[test]
fn a_visual_may_draw_on_its_declared_runs_and_its_own() {
    let runs = media_run_candidates("v-1", vec!["r-1".into(), "r-2".into()], Some("r-3".into())).unwrap();
    assert_eq!(runs, vec!["r-1".to_string(), "r-2".to_string(), "r-3".to_string()]);
    let runs = media_run_candidates("v-1", vec!["r-1".into(), "r-2".into()], Some("r-1".into())).unwrap();
    assert_eq!(runs, vec!["r-1".to_string(), "r-2".to_string()]);
    assert_eq!(
        media_run_candidates("v-1", Vec::new(), None).unwrap_err(),
        "visual v-1 is bound to no optimizer run, so it can be granted no run media"
    );
}

fn grant(media_type: &str, byte_size: u64) -> MediaGrant {
    MediaGrant {
        cas_digest: "sha256:ab".into(),
        media_type: media_type.into(),
        byte_size,
        width: Some(640),
        height: None,
        rollout_id: Some("r-2".into()),
        step: Some(3),
        optimizer_run_id: "run-1".into(),
    }
}

#[test]
fn only_bounded_png_media_is_served() {
    assert!(check_servable(&grant("image/png", 10)).is_ok());
    let refused = check_servable(&grant("application/json", 10)).unwrap_err();
    assert_eq!(refused.message(), "media type application/json is not servable to a visual");
    let large = check_servable(&grant("image/png", VISUAL_MEDIA_MAX_BYTES + 1)).unwrap_err();
    assert_eq!(
        large,
        MediaRefusal::TooLarge { cas_digest: "sha256:ab".into(), byte_size: VISUAL_MEDIA_MAX_BYTES + 1 }
    );
    assert_eq!(large.message(), "media sha256:ab is 16777217 bytes, over the 16777216-byte bridge ceiling");
}

#[test]
fn served_media_is_a_data_url() {
    let response = media_response(&grant("image/png", 2), b"hi");
    let expected = object(vec![
        ("protocol", text("synth.visual.media.v1")),
        ("casDigest", text("sha256:ab")),
        ("mediaType", text("image/png")),
        ("byteSize", number(2)),
        ("width", number(640)),
        ("height", JsonValue::Null),
        ("rolloutId", text("r-2")),
        ("step", number(3)),
        ("optimizerRunId", text("run-1")),
        ("dataUrl", text("data:image/png;base64,aGk=")),
    ]);
    assert!(json_equal(&response, &expected));
}
