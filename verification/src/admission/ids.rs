//! Newtypes for every identifier, digest, seed, and bounded count that reaches
//! an execution specification. Each refuses to construct itself from a blank,
//! a placeholder, or a zero, so "missing" cannot be spelled as a legal value.

use crate::text::{
    ascii_lower_seq, ascii_lowercase, chars_of, hex_bytes, hex_char, hex_digit, hex_value, is_blank,
    is_lower_hex, is_white_space, lower_hex, push_char, string_of, trim, trim_chars, decimal_chars,
    decimal,
};
use core::marker::PhantomData;
use vstd::prelude::*;
use vstd::std_specs::cmp::PartialEqSpecImpl;

verus! {

/// Values that read as a stand-in for a required field; refused by name.
pub open spec fn is_placeholder_text(s: Seq<char>) -> bool {
    let f = ascii_lower_seq(s);
    f == "unknown"@ || f == "none"@ || f == "null"@ || f == "nil"@ || f == "n/a"@ || f == "na"@
        || f == "todo"@ || f == "tbd"@ || f == "placeholder"@ || f == "undefined"@
}

/// Whether a value, compared without ASCII case, is one of the placeholder words.
pub fn is_placeholder(value: &str) -> (r: bool)
    ensures
        r == is_placeholder_text(value@),
{
    let chars = chars_of(value);
    let folded = ascii_lowercase(&chars);
    let words: [&str; 10] = [
        "unknown",
        "none",
        "null",
        "nil",
        "n/a",
        "na",
        "todo",
        "tbd",
        "placeholder",
        "undefined",
    ];
    let mut i: usize = 0;
    while i < 10
        invariant
            i <= 10,
            folded@ == ascii_lower_seq(value@),
            words@ == seq![
                "unknown",
                "none",
                "null",
                "nil",
                "n/a",
                "na",
                "todo",
                "tbd",
                "placeholder",
                "undefined",
            ],
            forall|k: int| 0 <= k < i ==> folded@ != (#[trigger] words@[k])@,
        decreases 10 - i,
    {
        let word = chars_of(words[i]);
        if crate::text::chars_equal(&folded, &word) {
            return true;
        }
        i = i + 1;
    }
    assert(folded@ != words@[0]@);
    assert(folded@ != words@[1]@);
    assert(folded@ != words@[2]@);
    assert(folded@ != words@[3]@);
    assert(folded@ != words@[4]@);
    assert(folded@ != words@[5]@);
    assert(folded@ != words@[6]@);
    assert(folded@ != words@[7]@);
    assert(folded@ != words@[8]@);
    assert(folded@ != words@[9]@);
    false
}

/// Why an identifier was refused.
#[derive(Clone, Debug, PartialEq, Eq)]
pub enum IdentifierRejection {
    Empty,
    Placeholder(String),
}

/// A refused identifier: which kind, and why.
#[derive(Clone, Debug, PartialEq, Eq)]
pub struct IdentifierError {
    pub identifier_kind: &'static str,
    pub reason: IdentifierRejection,
}

/// The kinds of identifier a specification carries.
pub trait IdentifierKind {
    spec fn kind_name() -> Seq<char>;

    fn label() -> (r: &'static str)
        ensures
            r@ == Self::kind_name(),
    ;
}

/// A non-empty, trimmed identifier of one kind. Constructing one is the only
/// way to get a value into a specification field.
#[derive(Debug)]
pub struct Identifier<K> {
    value: String,
    kind: PhantomData<K>,
}

/// What an identifier may hold: trimmed, non-empty, not a placeholder.
pub open spec fn valid_identifier_text(s: Seq<char>) -> bool {
    s.len() > 0 && trim(s) == s && !is_placeholder_text(s)
}

impl<K> View for Identifier<K> {
    type V = Seq<char>;

    closed spec fn view(&self) -> Seq<char> {
        self.value@
    }
}

proof fn lemma_trim_idempotent(s: Seq<char>)
    ensures
        trim(trim(s)) == trim(s),
{
    crate::text::lemma_trim_idempotent(s);
}

impl<K> Identifier<K> {
    #[verifier::type_invariant]
    closed spec fn well_formed(self) -> bool {
        valid_identifier_text(self.value@)
    }
}

impl<K: IdentifierKind> Identifier<K> {
    /// Trims the value and refuses a blank or a placeholder.
    pub fn new(value: &str) -> (r: Result<Self, IdentifierError>)
        ensures
            match r {
                Ok(id) => !is_blank(value@) && !is_placeholder_text(trim(value@)) && id@ == trim(
                    value@,
                ),
                Err(e) => e.identifier_kind@ == K::kind_name() && if is_blank(value@) {
                    e.reason == IdentifierRejection::Empty
                } else {
                    is_placeholder_text(trim(value@)) && (e.reason matches IdentifierRejection::Placeholder(t)
                        && t@ == trim(value@))
                },
            },
    {
        let chars = chars_of(value);
        let trimmed_chars = trim_chars(&chars);
        let trimmed = string_of(&trimmed_chars);
        if trimmed_chars.len() == 0 {
            return Err(IdentifierError { identifier_kind: K::label(), reason: IdentifierRejection::Empty });
        }
        if is_placeholder(trimmed.as_str()) {
            return Err(
                IdentifierError {
                    identifier_kind: K::label(),
                    reason: IdentifierRejection::Placeholder(trimmed),
                },
            );
        }
        proof {
            lemma_trim_idempotent(value@);
        }
        Ok(Identifier { value: trimmed, kind: PhantomData })
    }

    pub fn as_str(&self) -> (r: &str)
        ensures
            r@ == self@,
            valid_identifier_text(r@),
    {
        proof {
            use_type_invariant(self);
        }
        self.value.as_str()
    }

    pub fn into_inner(self) -> (r: String)
        ensures
            r@ == self@,
    {
        self.value
    }

    /// The text, as `Display` renders it.
    pub fn to_text(&self) -> (r: String)
        ensures
            r@ == self@,
    {
        self.value.clone()
    }
}

impl<K> Clone for Identifier<K> {
    fn clone(&self) -> (r: Self)
        ensures
            r@ == self@,
    {
        proof {
            use_type_invariant(self);
        }
        Identifier { value: self.value.clone(), kind: PhantomData }
    }
}

impl<K> PartialEq for Identifier<K> {
    fn eq(&self, other: &Self) -> (r: bool) {
        self.value == other.value
    }
}

impl<K> PartialEqSpecImpl for Identifier<K> {
    open spec fn obeys_eq_spec() -> bool {
        true
    }

    open spec fn eq_spec(&self, other: &Self) -> bool {
        self@ == other@
    }
}

impl<K> Eq for Identifier<K> {
}


// ---------------------------------------------------------------------------
// Identifier kinds
// ---------------------------------------------------------------------------

/// Registered container identity, as container discovery returns it.
#[derive(Debug)]
pub struct ContainerIdKind;

impl IdentifierKind for ContainerIdKind {
    open spec fn kind_name() -> Seq<char> {
        "ContainerId"@
    }

    fn label() -> (r: &'static str) {
        "ContainerId"
    }
}

pub type ContainerId = Identifier<ContainerIdKind>;

/// The registration record a container pin was read from.
#[derive(Debug)]
pub struct ContainerRegistrationIdKind;

impl IdentifierKind for ContainerRegistrationIdKind {
    open spec fn kind_name() -> Seq<char> {
        "ContainerRegistrationId"@
    }

    fn label() -> (r: &'static str) {
        "ContainerRegistrationId"
    }
}

pub type ContainerRegistrationId = Identifier<ContainerRegistrationIdKind>;

/// The container's own advertised source revision.
#[derive(Debug)]
pub struct SourceRevisionKind;

impl IdentifierKind for SourceRevisionKind {
    open spec fn kind_name() -> Seq<char> {
        "SourceRevision"@
    }

    fn label() -> (r: &'static str) {
        "SourceRevision"
    }
}

pub type SourceRevision = Identifier<SourceRevisionKind>;

/// Digest over the container's declared live-eval capability block.
#[derive(Debug)]
pub struct DeclarationDigestKind;

impl IdentifierKind for DeclarationDigestKind {
    open spec fn kind_name() -> Seq<char> {
        "DeclarationDigest"@
    }

    fn label() -> (r: &'static str) {
        "DeclarationDigest"
    }
}

pub type DeclarationDigest = Identifier<DeclarationDigestKind>;

/// Catalog recipe identity.
#[derive(Debug)]
pub struct RecipeIdKind;

impl IdentifierKind for RecipeIdKind {
    open spec fn kind_name() -> Seq<char> {
        "RecipeId"@
    }

    fn label() -> (r: &'static str) {
        "RecipeId"
    }
}

pub type RecipeId = Identifier<RecipeIdKind>;

/// Digest a caller may pin a catalog recipe to.
#[derive(Debug)]
pub struct RecipeDigestKind;

impl IdentifierKind for RecipeDigestKind {
    open spec fn kind_name() -> Seq<char> {
        "RecipeDigest"@
    }

    fn label() -> (r: &'static str) {
        "RecipeDigest"
    }
}

pub type RecipeDigest = Identifier<RecipeDigestKind>;

/// Resolved, immutable policy revision.
#[derive(Debug)]
pub struct PolicyRevisionKind;

impl IdentifierKind for PolicyRevisionKind {
    open spec fn kind_name() -> Seq<char> {
        "PolicyRevision"@
    }

    fn label() -> (r: &'static str) {
        "PolicyRevision"
    }
}

pub type PolicyRevision = Identifier<PolicyRevisionKind>;

/// Inference provider identity.
#[derive(Debug)]
pub struct ProviderIdKind;

impl IdentifierKind for ProviderIdKind {
    open spec fn kind_name() -> Seq<char> {
        "ProviderId"@
    }

    fn label() -> (r: &'static str) {
        "ProviderId"
    }
}

pub type ProviderId = Identifier<ProviderIdKind>;

/// Provider-qualified model identity.
#[derive(Debug)]
pub struct ModelIdKind;

impl IdentifierKind for ModelIdKind {
    open spec fn kind_name() -> Seq<char> {
        "ModelId"@
    }

    fn label() -> (r: &'static str) {
        "ModelId"
    }
}

pub type ModelId = Identifier<ModelIdKind>;

/// Evaluator identity.
#[derive(Debug)]
pub struct EvaluatorIdKind;

impl IdentifierKind for EvaluatorIdKind {
    open spec fn kind_name() -> Seq<char> {
        "EvaluatorId"@
    }

    fn label() -> (r: &'static str) {
        "EvaluatorId"
    }
}

pub type EvaluatorId = Identifier<EvaluatorIdKind>;

/// The approval receipt an admissible specification was bound to.
#[derive(Debug)]
pub struct ApprovalReceiptIdKind;

impl IdentifierKind for ApprovalReceiptIdKind {
    open spec fn kind_name() -> Seq<char> {
        "ApprovalReceiptId"@
    }

    fn label() -> (r: &'static str) {
        "ApprovalReceiptId"
    }
}

pub type ApprovalReceiptId = Identifier<ApprovalReceiptIdKind>;

/// One rollout's durable identity, minted by the container.
#[derive(Debug)]
pub struct RolloutIdKind;

impl IdentifierKind for RolloutIdKind {
    open spec fn kind_name() -> Seq<char> {
        "RolloutId"@
    }

    fn label() -> (r: &'static str) {
        "RolloutId"
    }
}

pub type RolloutId = Identifier<RolloutIdKind>;

// ---------------------------------------------------------------------------
// Digest
// ---------------------------------------------------------------------------

pub open spec fn digest_prefix() -> Seq<char> {
    "sha256:"@
}

/// `sha256:` followed by 64 lowercase hexadecimal characters.
pub open spec fn is_digest_text(s: Seq<char>) -> bool {
    &&& s.len() == 71
    &&& s.subrange(0, 7) == digest_prefix()
    &&& forall|k: int| 7 <= k < 71 ==> is_lower_hex(#[trigger] s[k])
}

/// The rendering of raw digest bytes.
pub open spec fn digest_text_of(bytes: Seq<u8>) -> Seq<char> {
    digest_prefix() + hex_bytes(bytes)
}

/// A well-formed digest text has no white space to trim.
pub proof fn lemma_digest_text_is_trimmed(s: Seq<char>)
    requires
        is_digest_text(s),
    ensures
        trim(s) == s,
{
    reveal_strlit("sha256:");
    assert(s[0] == s.subrange(0, 7)[0]);
    assert(!is_white_space(s[0]));
    assert(crate::text::trim_start(s) == s);
    assert(s.last() == s[70]);
    assert(!is_white_space(s.last()));
}

/// The 32 bytes that the hexadecimal body of a digest text spells.
pub open spec fn digest_bytes_of(s: Seq<char>) -> Seq<u8> {
    Seq::new(32, |i: int| (hex_value(s[7 + 2 * i]) * 16 + hex_value(s[8 + 2 * i])) as u8)
}

/// A digest's text parses back to the same digest: the rendering of any 32
/// bytes is a well-formed digest text with nothing to trim, so parsing it
/// yields a digest with that very text.
pub proof fn law_digest_text_round_trips(bytes: Seq<u8>)
    requires
        bytes.len() == 32,
    ensures
        is_digest_text(digest_text_of(bytes)),
        trim(digest_text_of(bytes)) == digest_text_of(bytes),
{
    reveal_strlit("sha256:");
    crate::text::lemma_hex_bytes_len(bytes);
    let s = digest_text_of(bytes);
    assert(s.subrange(0, 7) =~= digest_prefix());
    assert forall|k: int| 7 <= k < 71 implies is_lower_hex(#[trigger] s[k]) by {
        assert(s[k] == hex_bytes(bytes)[k - 7]);
    }
    lemma_digest_text_is_trimmed(s);
}

/// Every text that parses as a digest is the rendering of exactly one
/// sequence of 32 bytes, those its hexadecimal body spells.
pub proof fn law_digest_text_spells_its_bytes(s: Seq<char>, bytes: Seq<u8>)
    requires
        is_digest_text(s),
    ensures
        digest_bytes_of(s).len() == 32,
        digest_text_of(digest_bytes_of(s)) == s,
        bytes.len() == 32 && digest_text_of(bytes) == s ==> bytes == digest_bytes_of(s),
{
    reveal_strlit("sha256:");
    let b = digest_bytes_of(s);
    crate::text::lemma_hex_bytes_index(b);
    assert forall|i: int| 0 <= i < 32 implies #[trigger] hex_bytes(b)[2 * i] == s[7 + 2 * i] && hex_bytes(b)[2 * i + 1] == s[8 + 2 * i] by {
        let hi = s[7 + 2 * i];
        let lo = s[8 + 2 * i];
        assert(is_lower_hex(hi));
        assert(is_lower_hex(lo));
        crate::text::lemma_hex_value(0, hi);
        crate::text::lemma_hex_value(0, lo);
        let h = hex_value(hi);
        let l = hex_value(lo);
        assert(h * 16 + l < 256) by (nonlinear_arith)
            requires h < 16, l < 16;
        assert(b[i] == ((h * 16 + l) as u8));
        assert(b[i] == h * 16 + l);
        assert((h * 16 + l) / 16 == h && (h * 16 + l) % 16 == l) by (nonlinear_arith)
            requires h < 16, l < 16;
        assert(b[i] / 16 == h);
        assert(b[i] % 16 == l);
        assert(hex_bytes(b)[2 * i] == hex_digit((b[i] / 16) as nat));
        assert(hex_bytes(b)[2 * i + 1] == hex_digit((b[i] % 16) as nat));
    }
    assert(hex_bytes(b) =~= s.subrange(7, 71)) by {
        assert forall|k: int| 0 <= k < 64 implies hex_bytes(b)[k] == s.subrange(7, 71)[k] by {
            let i = k / 2;
            if k % 2 == 0 {
                assert(k == 2 * i);
                assert(hex_bytes(b)[2 * i] == s[7 + 2 * i]);
            } else {
                assert(k == 2 * i + 1);
                assert(hex_bytes(b)[2 * i] == s[7 + 2 * i]);
            }
        }
    }
    assert(digest_text_of(b) =~= s) by {
        assert(s =~= s.subrange(0, 7) + s.subrange(7, 71));
    }
    if bytes.len() == 32 && digest_text_of(bytes) == s {
        crate::text::lemma_hex_bytes_index(bytes);
        assert forall|i: int| 0 <= i < 32 implies bytes[i] == b[i] by {
            let x = bytes[i];
            assert(hex_bytes(bytes)[2 * i] == hex_digit((x / 16) as nat));
            assert(s[7 + 2 * i] == hex_bytes(bytes)[2 * i]);
            assert(s[8 + 2 * i] == hex_bytes(bytes)[2 * i + 1]);
            crate::text::lemma_hex_value((x / 16) as nat, 'a');
            crate::text::lemma_hex_value((x % 16) as nat, 'a');
            assert(x == (x / 16) * 16 + x % 16);
        }
        assert(bytes =~= b);
    }
}

/// A content digest, rendered `sha256:<64 lowercase hex>`.
#[derive(Debug)]
pub struct Digest {
    text: String,
}

impl View for Digest {
    type V = Seq<char>;

    closed spec fn view(&self) -> Seq<char> {
        self.text@
    }
}

/// Why a rendered digest was refused.
#[derive(Clone, Debug, PartialEq, Eq)]
pub enum DigestError {
    MissingPrefix(String),
    WrongLength { expected: usize, actual: usize },
    NotLowercaseHex(String),
}

/// The body of a trimmed digest candidate after its prefix.
pub open spec fn digest_body(t: Seq<char>) -> Seq<char> {
    t.subrange(7, t.len() as int)
}

impl Digest {
    #[verifier::type_invariant]
    closed spec fn well_formed(self) -> bool {
        is_digest_text(self.text@)
    }

    /// Wraps raw SHA-256 bytes.
    pub fn from_sha256(bytes: [u8; 32]) -> (r: Digest)
        ensures
            r@ == digest_text_of(bytes@),
    {
        let prefix = chars_of("sha256:");
        let mut out: Vec<char> = Vec::new();
        let mut k: usize = 0;
        while k < prefix.len()
            invariant
                k <= prefix.len(),
                prefix@ == digest_prefix(),
                out@ == prefix@.subrange(0, k as int),
            decreases prefix.len() - k,
        {
            out.push(prefix[k]);
            assert(prefix@.subrange(0, k + 1) =~= prefix@.subrange(0, k as int).push(prefix@[k as int]));
            k = k + 1;
        }
        assert(prefix@.subrange(0, prefix@.len() as int) =~= prefix@);
        let mut i: usize = 0;
        while i < 32
            invariant
                i <= 32,
                bytes@.len() == 32,
                out@ == digest_prefix() + hex_bytes(bytes@.subrange(0, i as int)),
            decreases 32 - i,
        {
            let b = bytes[i];
            out.push(hex_char(b / 16));
            out.push(hex_char(b % 16));
            proof {
                let s = bytes@.subrange(0, i + 1);
                assert(s.drop_last() =~= bytes@.subrange(0, i as int));
                assert(s.last() == b);
                assert(hex_bytes(s) == hex_bytes(s.drop_last()) + seq![
                    hex_digit((b / 16) as nat),
                    hex_digit((b % 16) as nat),
                ]);
                assert(out@ =~= digest_prefix() + hex_bytes(s));
            }
            i = i + 1;
        }
        assert(bytes@.subrange(0, 32) =~= bytes@);
        proof {
            reveal_strlit("sha256:");
            crate::text::lemma_hex_bytes_len(bytes@);
            assert(out@.subrange(0, 7) =~= digest_prefix());
            assert forall|k: int| 7 <= k < 71 implies is_lower_hex(#[trigger] out@[k]) by {
                assert(out@[k] == hex_bytes(bytes@)[k - 7]);
            }
        }
        Digest { text: string_of(&out) }
    }

    /// Parses a rendered digest. Anything that is not exactly the prefix plus
    /// 64 lowercase hexadecimal characters is refused.
    pub fn parse(value: &str) -> (r: Result<Digest, DigestError>)
        ensures
            r is Ok <==> is_digest_text(trim(value@)),
            match r {
                Ok(d) => d@ == trim(value@),
                Err(DigestError::MissingPrefix(s)) => !crate::text::has_prefix(
                    trim(value@),
                    digest_prefix(),
                ) && s@ == trim(value@),
                Err(DigestError::WrongLength { expected, actual }) => crate::text::has_prefix(
                    trim(value@),
                    digest_prefix(),
                ) && expected == 64 && actual == vstd::utf8::encode_utf8(
                    digest_body(trim(value@)),
                ).len() as usize && actual != 64,
                Err(DigestError::NotLowercaseHex(h)) => crate::text::has_prefix(
                    trim(value@),
                    digest_prefix(),
                ) && h@ == digest_body(trim(value@)) && vstd::utf8::encode_utf8(h@).len() as usize == 64
                    && exists|k: int| 0 <= k < h@.len() && !is_lower_hex(#[trigger] h@[k]),
            },
    {
        let chars = chars_of(value);
        let t = trim_chars(&chars);
        let prefix = chars_of("sha256:");
        proof {
            reveal_strlit("sha256:");
        }
        if !crate::text::starts_with_chars(&t, &prefix) {
            proof {
                if is_digest_text(t@) {
                    assert(t@.subrange(0, 7) =~= t@.subrange(0, prefix@.len() as int));
                }
            }
            return Err(DigestError::MissingPrefix(string_of(&t)));
        }
        let mut body: Vec<char> = Vec::new();
        let mut i: usize = 7;
        while i < t.len()
            invariant
                7 <= i <= t.len(),
                body@ == t@.subrange(7, i as int),
            decreases t.len() - i,
        {
            body.push(t[i]);
            assert(t@.subrange(7, i + 1) =~= t@.subrange(7, i as int).push(t@[i as int]));
            i = i + 1;
        }
        let body_text = string_of(&body);
        let byte_len = body_text.as_str().len();
        if byte_len != 64 {
            proof {
                if is_digest_text(t@) {
                    assert(vstd::utf8::is_ascii_chars(body@)) by {
                        assert forall|k: int| 0 <= k < body@.len() implies '\0' <= #[trigger] body@[k] <= '\u{7f}' by {
                            assert(body@[k] == t@[k + 7]);
                            assert(is_lower_hex(t@[k + 7]));
                        }
                    }
                    vstd::utf8::is_ascii_chars_encode_utf8(body@);
                }
            }
            return Err(DigestError::WrongLength { expected: 64, actual: byte_len });
        }
        let mut j: usize = 0;
        while j < body.len()
            invariant
                j <= body.len(),
                t@.len() >= 7,
                body@ == t@.subrange(7, t@.len() as int),
                t@ == trim(value@),
                body_text@ == body@,
                crate::text::has_prefix(t@, digest_prefix()),
                vstd::utf8::encode_utf8(body@).len() as usize == 64,
                forall|k: int| 0 <= k < j ==> is_lower_hex(#[trigger] body@[k]),
            decreases body.len() - j,
        {
            if !lower_hex(body[j]) {
                proof {
                    assert(body@[j as int] == t@[j + 7]);
                    assert(!is_lower_hex(t@[j + 7]));
                    assert(!is_lower_hex(body_text@[j as int]));
                }
                return Err(DigestError::NotLowercaseHex(body_text));
            }
            j = j + 1;
        }
        proof {
            assert(vstd::utf8::is_ascii_chars(body@)) by {
                assert forall|k: int| 0 <= k < body@.len() implies '\0' <= #[trigger] body@[k] <= '\u{7f}' by {
                    assert(is_lower_hex(body@[k]));
                }
            }
            vstd::utf8::is_ascii_chars_encode_utf8(body@);
            assert(t@.subrange(0, 7) =~= t@.subrange(0, prefix@.len() as int));
            assert forall|k: int| 7 <= k < 71 implies is_lower_hex(#[trigger] t@[k]) by {
                assert(t@[k] == body@[k - 7]);
            }
        }
        Ok(Digest { text: string_of(&t) })
    }

    pub fn as_str(&self) -> (r: &str)
        ensures
            r@ == self@,
            is_digest_text(r@),
    {
        proof {
            use_type_invariant(self);
        }
        self.text.as_str()
    }

    /// Twelve hex characters after the prefix, for display truncation.
    pub fn short(&self) -> (r: String)
        ensures
            r@ == self@.subrange(7, 19),
    {
        proof {
            use_type_invariant(self);
        }
        let chars = chars_of(self.text.as_str());
        let mut out: Vec<char> = Vec::new();
        let mut i: usize = 7;
        while i < 19
            invariant
                7 <= i <= 19,
                chars@ == self@,
                chars@.len() == 71,
                out@ == chars@.subrange(7, i as int),
            decreases 19 - i,
        {
            out.push(chars[i]);
            assert(chars@.subrange(7, i + 1) =~= chars@.subrange(7, i as int).push(chars@[i as int]));
            i = i + 1;
        }
        string_of(&out)
    }
}

impl Clone for Digest {
    fn clone(&self) -> (r: Self)
        ensures
            r@ == self@,
    {
        proof {
            use_type_invariant(self);
        }
        Digest { text: self.text.clone() }
    }
}

impl PartialEq for Digest {
    fn eq(&self, other: &Self) -> (r: bool) {
        self.text == other.text
    }
}

impl PartialEqSpecImpl for Digest {
    open spec fn obeys_eq_spec() -> bool {
        true
    }

    open spec fn eq_spec(&self, other: &Self) -> bool {
        self@ == other@
    }
}

impl Eq for Digest {
}


// ---------------------------------------------------------------------------
// Seeds, bounded counts, cost
// ---------------------------------------------------------------------------

/// One rollout seed. Seeds are explicit request data; they are never invented,
/// reordered, or extended.
#[derive(Clone, Copy, Debug, PartialEq, Eq, Structural)]
pub struct Seed(pub i64);

/// A `u32` that is never zero.
#[derive(Clone, Copy, Debug, PartialEq, Eq)]
pub struct PositiveU32 {
    value: u32,
}

impl View for PositiveU32 {
    type V = u32;

    closed spec fn view(&self) -> u32 {
        self.value
    }
}

impl PositiveU32 {
    #[verifier::type_invariant]
    closed spec fn well_formed(self) -> bool {
        self.value > 0
    }

    /// `None` for zero.
    pub fn new(value: u32) -> (r: Option<PositiveU32>)
        ensures
            match r {
                Some(p) => value > 0 && p@ == value,
                None => value == 0,
            },
    {
        if value == 0 {
            None
        } else {
            Some(PositiveU32 { value })
        }
    }

    pub fn get(&self) -> (r: u32)
        ensures
            r == self@,
            r > 0,
    {
        proof {
            use_type_invariant(self);
        }
        self.value
    }
}

/// A `u64` that is never zero.
#[derive(Clone, Copy, Debug, PartialEq, Eq)]
pub struct PositiveU64 {
    value: u64,
}

impl View for PositiveU64 {
    type V = u64;

    closed spec fn view(&self) -> u64 {
        self.value
    }
}

impl PositiveU64 {
    #[verifier::type_invariant]
    closed spec fn well_formed(self) -> bool {
        self.value > 0
    }

    /// `None` for zero.
    pub fn new(value: u64) -> (r: Option<PositiveU64>)
        ensures
            match r {
                Some(p) => value > 0 && p@ == value,
                None => value == 0,
            },
    {
        if value == 0 {
            None
        } else {
            Some(PositiveU64 { value })
        }
    }

    pub fn get(&self) -> (r: u64)
        ensures
            r == self@,
            r > 0,
    {
        proof {
            use_type_invariant(self);
        }
        self.value
    }
}

/// A count of model calls; a limit of zero is not a limit.
#[derive(Clone, Copy, Debug, PartialEq, Eq)]
pub struct ModelCallCount(pub PositiveU32);

/// A count of environment steps.
#[derive(Clone, Copy, Debug, PartialEq, Eq)]
pub struct StepCount(pub PositiveU32);

/// A count of rollouts.
#[derive(Clone, Copy, Debug, PartialEq, Eq)]
pub struct RolloutCount(pub PositiveU32);

/// Currency in micros (1 USD = 1_000_000), never zero.
#[derive(Clone, Copy, Debug, PartialEq, Eq)]
pub struct CostMicros(pub PositiveU64);

impl CostMicros {
    pub fn as_micros(self) -> (r: u64)
        ensures
            r == self.0@,
            r > 0,
    {
        self.0.get()
    }
}

/// A refused zero bound, naming the field.
#[derive(Clone, Copy, Debug, PartialEq, Eq)]
pub struct BoundError {
    pub field: &'static str,
}

impl BoundError {
    /// The error text.
    pub fn message(&self) -> (r: String)
        ensures
            r@ == self.field@ + " must be greater than zero; a zero bound is not a bound"@,
    {
        crate::text::concat(self.field, " must be greater than zero; a zero bound is not a bound")
    }
}

/// A non-zero bound from a request field, or the field's refusal.
pub fn non_zero_u32(value: u32, field: &'static str) -> (r: Result<PositiveU32, BoundError>)
    ensures
        match r {
            Ok(p) => value > 0 && p@ == value,
            Err(e) => value == 0 && e.field == field,
        },
{
    match PositiveU32::new(value) {
        Some(p) => Ok(p),
        None => Err(BoundError { field }),
    }
}

} // verus!
