use synth_desktop::admission::ids::{
    non_zero_u32, ContainerId, CostMicros, Digest, ModelId, PositiveU64,
};

#[test]
fn an_identifier_refuses_blanks_and_placeholders() {
    assert!(ContainerId::new("nanohorizon-craftax").is_ok());
    assert!(ContainerId::new("   ").is_err());
    assert!(ContainerId::new("").is_err());
    assert!(ContainerId::new("unknown").is_err());
    assert!(ContainerId::new("TBD").is_err());
}

#[test]
fn an_identifier_trims_but_does_not_otherwise_rewrite() {
    let identifier = ModelId::new("  z-ai/glm-5.3-flash  ").unwrap();
    assert_eq!(identifier.as_str(), "z-ai/glm-5.3-flash");
}

#[test]
fn a_digest_round_trips_and_refuses_near_misses() {
    let digest = Digest::from_sha256([0xab; 32]);
    assert_eq!(digest.as_str(), format!("sha256:{}", "ab".repeat(32)));
    assert_eq!(Digest::parse(digest.as_str()).unwrap(), digest);
    assert!(Digest::parse(&"ab".repeat(32)).is_err(), "prefix required");
    assert!(
        Digest::parse(&format!("sha256:{}", "AB".repeat(32))).is_err(),
        "uppercase hex is a re-encoding, not the same digest"
    );
    assert!(Digest::parse("sha256:abc").is_err(), "truncated");
}

#[test]
fn a_zero_bound_is_refused() {
    assert!(non_zero_u32(0, "maximum_rollouts").is_err());
    assert_eq!(non_zero_u32(5, "maximum_rollouts").unwrap().get(), 5);
}

#[test]
fn a_digest_is_shortened_to_twelve_hex_characters() {
    let digest = Digest::from_sha256([0x1f; 32]);
    assert_eq!(digest.short(), "1f1f1f1f1f1f");
}

#[test]
fn a_cost_is_held_in_whole_micros() {
    let cost = CostMicros(PositiveU64::new(2_450_000).unwrap());
    assert_eq!(cost.as_micros(), 2_450_000);
    assert_eq!(CostMicros(PositiveU64::new(1).unwrap()).as_micros(), 1);
    assert!(PositiveU64::new(0).is_none());
}

#[test]
fn a_zero_bound_names_its_field() {
    let error = non_zero_u32(0, "maximum_steps_per_rollout").unwrap_err();
    assert_eq!(
        error.message(),
        "maximum_steps_per_rollout must be greater than zero; a zero bound is not a bound"
    );
}

#[test]
fn a_blank_identifier_names_its_kind() {
    let error = ContainerId::new("  ").unwrap_err();
    assert_eq!(error.identifier_kind, "ContainerId");
}
