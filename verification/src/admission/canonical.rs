//! Canonical JSON and content digests.
//!
//! An approval binds a digest, and execution refuses anything whose digest
//! differs, so the same specification must always encode to the same bytes:
//! object keys sorted, no insignificant whitespace, a defined number rendering.

use crate::admission::ids::{digest_text_of, Digest};
use crate::json::{canonical, canonicalize, copy_json, json_text, write_json, JsonValue, JsonView};
use crate::text::string_of;
use sha2::Digest as _;
use vstd::prelude::*;

verus! {

/// Names the 32-byte SHA-256 digest of a byte sequence.
pub uninterp spec fn sha256_of(data: Seq<u8>) -> Seq<u8>;

/// Trusted: `sha2::Sha256::digest` computes the SHA-256 digest of exactly the
/// bytes given; the result depends on those bytes alone.
#[verifier::external_body]
pub(crate) fn sha256(data: &[u8]) -> (out: [u8; 32])
    ensures
        out@ == sha256_of(data@),
{
    sha2::Sha256::digest(data).into()
}

/// The digest of arbitrary bytes, with the one algorithm admission admits.
pub fn digest_bytes(bytes: &[u8]) -> (r: Digest)
    ensures
        r@ == digest_text_of(sha256_of(bytes@)),
{
    Digest::from_sha256(sha256(bytes))
}

/// The canonical byte encoding of a JSON view.
pub open spec fn canonical_bytes(v: JsonView) -> Seq<u8> {
    vstd::utf8::encode_utf8(json_text(v))
}

/// The digest a canonical value carries.
pub open spec fn json_digest(v: JsonView) -> Seq<char> {
    digest_text_of(sha256_of(canonical_bytes(v)))
}

/// JSON that has been canonicalized. The canonical bytes are what any digest
/// is taken over.
#[derive(Debug)]
pub struct CanonicalJson {
    value: JsonValue,
}

impl View for CanonicalJson {
    type V = JsonView;

    closed spec fn view(&self) -> JsonView {
        self.value@
    }
}

impl CanonicalJson {
    /// Canonicalizes a value.
    pub fn new(value: JsonValue) -> (r: CanonicalJson)
        ensures
            r@ == canonical(value@),
    {
        CanonicalJson { value: canonicalize(&value) }
    }

    /// An empty object: a required field whose declaration carries nothing.
    pub fn empty_object() -> (r: CanonicalJson)
        ensures
            r@ == JsonView::Object(Seq::empty()),
    {
        let entries: Vec<(String, JsonValue)> = Vec::new();
        let r = CanonicalJson { value: JsonValue::Object(entries) };
        assert(r@ =~= JsonView::Object(Seq::empty()));
        r
    }

    pub fn as_value(&self) -> (r: &JsonValue)
        ensures
            r@ == self@,
    {
        &self.value
    }

    pub fn into_value(self) -> (r: JsonValue)
        ensures
            r@ == self@,
    {
        self.value
    }

    pub fn is_empty_object(&self) -> (r: bool)
        ensures
            r == (self@ matches JsonView::Object(entries) && entries.len() == 0),
    {
        match &self.value {
            JsonValue::Object(entries) => {
                proof {
                    crate::json::lemma_entries_view_len(entries@, entries@.len() as nat);
                }
                entries.len() == 0
            },
            _ => false,
        }
    }

    /// The canonical text.
    pub fn to_canonical_string(&self) -> (r: String)
        ensures
            r@ == json_text(self@),
    {
        let mut out: Vec<char> = Vec::new();
        write_json(&self.value, &mut out);
        assert(out@ =~= json_text(self@));
        string_of(&out)
    }

    /// The canonical byte encoding; the only input a digest is taken over.
    pub fn to_bytes(&self) -> (r: Vec<u8>)
        ensures
            r@ == canonical_bytes(self@),
    {
        let text = self.to_canonical_string();
        text.as_str().as_bytes_vec()
    }

    /// Digest over the canonical bytes.
    pub fn digest(&self) -> (r: Digest)
        ensures
            r@ == json_digest(self@),
    {
        let bytes = self.to_bytes();
        digest_bytes(bytes.as_slice())
    }
}

impl Clone for CanonicalJson {
    fn clone(&self) -> (r: Self)
        ensures
            r@ == self@,
    {
        CanonicalJson { value: copy_json(&self.value) }
    }
}

} // verus!
