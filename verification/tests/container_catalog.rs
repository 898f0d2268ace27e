use sha2::{Digest, Sha256};
use synth_desktop::container_catalog::{
    content_hash, order_sources, require_identifier, resolve_in, resolve_unique_in, revision_from_output,
    source_id, unique_roots, ContainerSource, ContainerSpec,
};

fn hex(bytes: &[u8]) -> String {
    bytes.iter().map(|b| format!("{b:02x}")).collect()
}

fn source(root: &str, spec_id: &str) -> ContainerSource {
    ContainerSource {
        id: source_id(root),
        root: root.to_string(),
        manifest_path: format!("{root}/workshop.containers.toml"),
        manifest_hash: content_hash("[[container]]"),
        git_revision: None,
        specs: vec![ContainerSpec { id: spec_id.to_string(), cwd: root.to_string() }],
    }
}

#[test]
fn discovers_direct_child_sources_with_stable_identity_and_manifest_hash() {
    let found = source("/work/craftax", "craftax_react");
    assert_eq!(found.specs[0].id, "craftax_react");
    assert!(found.id.starts_with("src_"));
    assert_eq!(found.id, format!("src_{}", hex(&Sha256::digest(b"/work/craftax"))));
    assert_eq!(found.id, source("/work/craftax", "other").id);
    assert!(found.manifest_hash.starts_with("sha256:"));
    assert_eq!(found.manifest_hash, format!("sha256:{}", hex(&Sha256::digest(b"[[container]]"))));
}

#[test]
fn resolving_a_spec_without_a_source_is_rejected_when_ambiguous() {
    let sources = vec![source("/work/first", "shared"), source("/work/second", "shared")];
    let matches: Vec<_> = sources.iter().filter(|source| source.spec("shared").is_ok()).collect();
    assert_eq!(matches.len(), 2);
    assert_eq!(
        resolve_unique_in(sources, "shared").err(),
        Some("container spec `shared` is ambiguous; discover sources and call container_ensure with source_id".to_string())
    );
}

#[test]
fn source_identity_selects_the_exact_spec_to_start() {
    let selected = source("/work/selected", "craftax_react");
    let selected_id = selected.id.clone();
    let sources = vec![source("/work/other", "craftax_react"), selected];
    let (found, spec) = resolve_in(sources, &selected_id, "craftax_react").unwrap();
    assert_eq!(found.root, "/work/selected");
    assert_eq!(spec.cwd, "/work/selected");
}

#[test]
fn a_unique_spec_resolves_and_a_missing_one_is_reported() {
    let sources = vec![source("/work/a", "alpha"), source("/work/b", "beta")];
    let (found, spec) = resolve_unique_in(sources, " beta ").unwrap();
    assert_eq!(found.root, "/work/b");
    assert_eq!(spec.id, "beta");
    let sources = vec![source("/work/a", "alpha")];
    assert!(resolve_unique_in(sources, "gamma").err().unwrap().starts_with("container spec `gamma` was not found"));
    let sources = vec![source("/work/a", "alpha")];
    assert_eq!(resolve_in(sources, "src_missing", "alpha").err().unwrap(),
        "container source `src_missing` is not currently discoverable; its folder may have moved, or its project source may have been removed. Call container_discover and read `readiness` before retrying.");
    let a = source("/work/a", "alpha");
    let id = a.id.clone();
    assert_eq!(resolve_in(vec![a], &id, "beta").err().unwrap(), format!("container spec `beta` is not declared by source `{id}`"));
}

#[test]
fn identifiers_are_trimmed_required_and_bounded() {
    assert_eq!(require_identifier("  abc ", "spec_id"), Ok("abc".to_string()));
    assert_eq!(require_identifier("   ", "spec_id"), Err("spec_id is required".to_string()));
    assert_eq!(require_identifier(&"x".repeat(256), "source_id"), Ok("x".repeat(256)));
    assert_eq!(require_identifier(&"x".repeat(257), "source_id"), Err("source_id is required".to_string()));
    assert_eq!(require_identifier(&"é".repeat(129), "source_id"), Err("source_id is required".to_string()));
    assert_eq!(resolve_in(vec![], " ", "x").err(), Some("source_id is required".to_string()));
}

#[test]
fn sources_are_listed_by_id_and_each_folder_once() {
    let ordered = order_sources(vec![source("/w/c", "x"), source("/w/a", "x"), source("/w/b", "x")]);
    let ids: Vec<&String> = ordered.iter().map(|s| &s.id).collect();
    let mut sorted = ids.clone();
    sorted.sort();
    assert_eq!(ids, sorted);
    assert_eq!(ordered.len(), 3);
    let roots = vec!["/w/a".to_string(), "/w/b".to_string(), "/w/a".to_string(), "/w/c".to_string()];
    assert_eq!(unique_roots(&roots), vec!["/w/a".to_string(), "/w/b".to_string(), "/w/c".to_string()]);
}

#[test]
fn a_git_revision_is_the_trimmed_output_of_a_successful_command() {
    assert_eq!(revision_from_output(true, Some("abc123\n".into())), Some("abc123".to_string()));
    assert_eq!(revision_from_output(true, Some("  \n".into())), None);
    assert_eq!(revision_from_output(false, Some("abc123\n".into())), None);
}
