//! Durable admission records. A run keeps the whole canonical specification
//! with the digest it was admitted under, so reopening it reconstructs exactly
//! what executed. A record whose specification no longer hashes to its
//! recorded digest is refused, never repaired.

use crate::admission::canonical::{json_digest, CanonicalJson};
use crate::admission::ids::{is_digest_text, lemma_digest_text_is_trimmed, Digest, DigestError};
use crate::admission::pipeline::{AdmissibleExecutionSpec, ApprovedExecutionSpec};
use crate::admission::spec::execution_spec_json;
use crate::json::{canonical, copy_json, JsonValue, JsonView};
use crate::text::{is_white_space, same_text, trim};
use vstd::prelude::*;

verus! {

/// Whether a stored specification and a recorded digest belong together: the
/// recorded text, trimmed, is a digest, and it is the digest of the stored
/// specification's canonical form.
pub open spec fn record_matches(spec_json: JsonView, recorded: Seq<char>) -> bool {
    &&& is_digest_text(trim(recorded))
    &&& trim(recorded) == json_digest(canonical(spec_json))
}

/// Why a stored admission record was not reopened.
#[derive(Debug)]
pub enum AdmittedRecordError {
    /// The recorded digest is not a digest.
    UnreadableDigest(DigestError),
    /// The stored specification does not hash to the digest recorded with it.
    DigestMismatch { optimizer_run_id: String },
}

/// Checks a reopened record: the recorded digest must parse, and the stored
/// specification must hash to it. Returns the recorded digest.
pub fn check_admitted_record(
    optimizer_run_id: &str,
    spec_json: &JsonValue,
    recorded_digest: &str,
) -> (r: Result<Digest, AdmittedRecordError>)
    ensures
        r is Ok <==> record_matches(spec_json@, recorded_digest@),
        match r {
            Ok(d) => d@ == trim(recorded_digest@),
            Err(AdmittedRecordError::UnreadableDigest(_)) => !is_digest_text(trim(recorded_digest@)),
            Err(AdmittedRecordError::DigestMismatch { optimizer_run_id: id }) => {
                &&& is_digest_text(trim(recorded_digest@))
                &&& trim(recorded_digest@) != json_digest(canonical(spec_json@))
                &&& id@ == optimizer_run_id@
            },
        },
{
    let stored = match Digest::parse(recorded_digest) {
        Ok(d) => d,
        Err(e) => return Err(AdmittedRecordError::UnreadableDigest(e)),
    };
    let recomputed = CanonicalJson::new(copy_json(spec_json)).digest();
    if same_text(stored.as_str(), recomputed.as_str()) {
        Ok(stored)
    } else {
        Err(AdmittedRecordError::DigestMismatch { optimizer_run_id: String::from_str(optimizer_run_id) })
    }
}

/// A digest's text has no white space at either end.
/// What an admission record holds: the specification as JSON and the digest
/// it was admitted under. Such a record always reopens.
pub fn admitted_record(admissible: &AdmissibleExecutionSpec) -> (r: (JsonValue, String))
    ensures
        r.0@ == execution_spec_json(admissible.spec_value()),
        r.1@ == admissible.digest_value(),
        record_matches(r.0@, r.1@),
{
    let spec_json = admissible.spec().to_json();
    let digest = admissible.digest().as_str();
    proof {
        lemma_digest_text_is_trimmed(digest@);
    }
    (spec_json, String::from_str(digest))
}

/// What a record of an approved draft holds: the specification, its digest,
/// and the receipt it was approved with as the authorization reference. Such
/// a record always reopens.
pub fn approved_record(approved: &ApprovedExecutionSpec) -> (r: (JsonValue, String, String))
    ensures
        r.0@ == execution_spec_json(approved.spec_value()),
        r.1@ == approved.digest_value(),
        r.2@ == approved.binding_value().receipt_id@,
        record_matches(r.0@, r.1@),
{
    let spec_json = approved.spec().to_json();
    let digest = approved.digest().as_str();
    proof {
        lemma_digest_text_is_trimmed(digest@);
    }
    let receipt = approved.receipt_id().as_str();
    (spec_json, String::from_str(digest), String::from_str(receipt))
}

} // verus!
