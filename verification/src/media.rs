//! Images handed to the renderer as data URLs: a local screenshot preview, and
//! the media a visual's own runs produced. Both are allowlisted by type and
//! bounded in size before any bytes are encoded.

use crate::artifacts::{base64_of, encode_base64};
use crate::json::{entries_of, field, object_of, optional_text, text_value, unsigned_value, JsonValue, JsonView};
use crate::limits::IMAGE_PREVIEW_MAX_BYTES;
use crate::text::{ascii_lower_seq, ascii_lowercase, chars_of, concat, concat3, decimal, same_text, string_of, u64_to_string};
use vstd::prelude::*;

verus! {

// ---------------------------------------------------------------------------
// Screenshot previews
// ---------------------------------------------------------------------------

/// How a preview request failed, by the kind of error the host reports.
#[derive(Debug, PartialEq, Eq)]
pub enum PreviewRefusal {
    /// The path has no extension to read a format from.
    NoFormat,
    /// The extension names no supported image format.
    UnsupportedFormat,
    /// The path is not a file, or the file is over the preview cap.
    TooLarge,
}

impl PreviewRefusal {
    pub fn message(&self) -> (r: &'static str)
        ensures
            r@ == match *self {
                PreviewRefusal::NoFormat => "Screenshot has no supported format"@,
                PreviewRefusal::UnsupportedFormat => "Screenshot format is unsupported"@,
                PreviewRefusal::TooLarge => "Screenshot must be a file smaller than 20 MB"@,
            },
    {
        match self {
            PreviewRefusal::NoFormat => "Screenshot has no supported format",
            PreviewRefusal::UnsupportedFormat => "Screenshot format is unsupported",
            PreviewRefusal::TooLarge => "Screenshot must be a file smaller than 20 MB",
        }
    }
}

/// The media type of a preview, by its extension compared without case.
pub open spec fn preview_mime_of(extension: Seq<char>) -> Option<Seq<char>> {
    let e = ascii_lower_seq(extension);
    if e == "png"@ {
        Some("image/png"@)
    } else if e == "jpg"@ || e == "jpeg"@ {
        Some("image/jpeg"@)
    } else if e == "webp"@ {
        Some("image/webp"@)
    } else if e == "gif"@ {
        Some("image/gif"@)
    } else {
        None
    }
}

/// The media type a screenshot is previewed as.
pub fn preview_mime(extension: Option<&str>) -> (r: Result<&'static str, PreviewRefusal>)
    ensures
        match extension {
            None => r == Err::<&str, PreviewRefusal>(PreviewRefusal::NoFormat),
            Some(e) => match preview_mime_of(e@) {
                Some(m) => r matches Ok(t) && t@ == m,
                None => r == Err::<&str, PreviewRefusal>(PreviewRefusal::UnsupportedFormat),
            },
        },
{
    let extension = match extension {
        Some(e) => e,
        None => return Err(PreviewRefusal::NoFormat),
    };
    let lower = string_of(&ascii_lowercase(&chars_of(extension)));
    if same_text(lower.as_str(), "png") {
        Ok("image/png")
    } else if same_text(lower.as_str(), "jpg") || same_text(lower.as_str(), "jpeg") {
        Ok("image/jpeg")
    } else if same_text(lower.as_str(), "webp") {
        Ok("image/webp")
    } else if same_text(lower.as_str(), "gif") {
        Ok("image/gif")
    } else {
        Err(PreviewRefusal::UnsupportedFormat)
    }
}

/// Only a file no larger than the preview cap is read.
pub fn check_preview_size(is_file: bool, byte_size: u64) -> (r: Result<(), PreviewRefusal>)
    ensures
        r is Ok <==> is_file && byte_size <= IMAGE_PREVIEW_MAX_BYTES,
        r matches Err(e) ==> e == PreviewRefusal::TooLarge,
{
    if !is_file || byte_size > IMAGE_PREVIEW_MAX_BYTES {
        Err(PreviewRefusal::TooLarge)
    } else {
        Ok(())
    }
}

/// A data URL: the media type, then the bytes in base64.
pub open spec fn data_url_of(mime: Seq<char>, bytes: Seq<u8>) -> Seq<char> {
    "data:"@ + mime + ";base64,"@ + base64_of(bytes)
}

/// The preview of a screenshot's bytes.
pub fn image_data_url(mime: &str, bytes: &[u8]) -> (r: String)
    requires
        bytes@.len() <= IMAGE_PREVIEW_MAX_BYTES,
    ensures
        r@ == data_url_of(mime@, bytes@),
{
    let encoded = encode_base64(bytes);
    let head = concat3("data:", mime, ";base64,");
    concat(head.as_str(), encoded.as_str())
}

// ---------------------------------------------------------------------------
// Media of a visual's runs
// ---------------------------------------------------------------------------

pub const VISUAL_MEDIA_PROTOCOL: &'static str = "synth.visual.media.v1";

/// Ceiling on one bridged media response.
pub const VISUAL_MEDIA_MAX_BYTES: u64 = 16_777_216;

/// The runs whose media a visual may be granted: those its bindings declare,
/// then the run it was minted for where that is not among them.
pub open spec fn media_runs_of(declared: Seq<Seq<char>>, minted: Option<Seq<char>>) -> Seq<Seq<char>> {
    match minted {
        Some(m) => if declared.contains(m) {
            declared
        } else {
            declared.push(m)
        },
        None => declared,
    }
}

/// The runs a visual's media request may draw on; a visual bound to no run is
/// granted nothing.
pub fn media_run_candidates(visual_id: &str, declared: Vec<String>, minted: Option<String>) -> (r:
    Result<Vec<String>, String>)
    ensures
        match r {
            Ok(runs) => crate::text::texts_of(runs@) == media_runs_of(
                crate::text::texts_of(declared@),
                match minted {
                    Some(m) => Some(m@),
                    None => None,
                },
            ) && runs@.len() > 0,
            Err(m) => media_runs_of(
                crate::text::texts_of(declared@),
                match minted {
                    Some(m) => Some(m@),
                    None => None,
                },
            ).len() == 0 && m@ == "visual "@ + visual_id@
                + " is bound to no optimizer run, so it can be granted no run media"@,
        },
{
    let ghost names = crate::text::texts_of(declared@);
    let mut runs = declared;
    if let Some(m) = minted {
        let mut present = false;
        let mut i: usize = 0;
        while i < runs.len()
            invariant
                i <= runs@.len(),
                crate::text::texts_of(runs@) == names,
                present <==> exists|k: int| 0 <= k < i && names[k] == m@,
            decreases runs@.len() - i,
        {
            assert(names[i as int] == runs@[i as int]@);
            if same_text(runs[i].as_str(), m.as_str()) {
                present = true;
            }
            proof {
                if present && !(exists|k: int| 0 <= k < i && names[k] == m@) {
                    assert(names[i as int] == m@);
                }
                if exists|k: int| 0 <= k < i + 1 && names[k] == m@ {
                    let k = choose|k: int| 0 <= k < i + 1 && names[k] == m@;
                    if k == i {
                        assert(present);
                    }
                }
            }
            i = i + 1;
        }
        proof {
            if names.contains(m@) {
                let k = choose|k: int| 0 <= k < names.len() && names[k] == m@;
                assert(0 <= k < i);
            }
            if present {
                let k = choose|k: int| 0 <= k < i && names[k] == m@;
                assert(names.contains(m@));
            }
        }
        if !present {
            runs.push(m);
            assert(crate::text::texts_of(runs@) =~= names.push(m@));
        }
    }
    if runs.len() == 0 {
        return Err(concat3("visual ", visual_id, " is bound to no optimizer run, so it can be granted no run media"));
    }
    Ok(runs)
}

/// Media a run produced, as the run's store grants it.
#[derive(Debug)]
pub struct MediaGrant {
    pub cas_digest: String,
    pub media_type: String,
    pub byte_size: u64,
    pub width: Option<u64>,
    pub height: Option<u64>,
    pub rollout_id: Option<String>,
    pub step: Option<u64>,
    pub optimizer_run_id: String,
}

/// Why granted media is not handed to a visual.
#[derive(Debug, PartialEq, Eq)]
pub enum MediaRefusal {
    NotServable { media_type: String },
    TooLarge { cas_digest: String, byte_size: u64 },
}

impl MediaRefusal {
    pub fn message(&self) -> (r: String)
        ensures
            r@ == match *self {
                MediaRefusal::NotServable { media_type } => "media type "@ + media_type@
                    + " is not servable to a visual"@,
                MediaRefusal::TooLarge { cas_digest, byte_size } => "media "@ + cas_digest@ + " is "@
                    + decimal(byte_size as nat) + " bytes, over the 16777216-byte bridge ceiling"@,
            },
    {
        match self {
            MediaRefusal::NotServable { media_type } => concat3(
                "media type ",
                media_type.as_str(),
                " is not servable to a visual",
            ),
            MediaRefusal::TooLarge { cas_digest, byte_size } => {
                let head = concat3("media ", cas_digest.as_str(), " is ");
                let size = u64_to_string(*byte_size);
                let with_size = concat(head.as_str(), size.as_str());
                concat(with_size.as_str(), " bytes, over the 16777216-byte bridge ceiling")
            },
        }
    }
}

/// Only a PNG within the bridge ceiling is handed to a visual.
pub fn check_servable(grant: &MediaGrant) -> (r: Result<(), MediaRefusal>)
    ensures
        r is Ok <==> grant.media_type@ == "image/png"@ && grant.byte_size <= VISUAL_MEDIA_MAX_BYTES,
        match r {
            Err(MediaRefusal::NotServable { media_type }) => grant.media_type@ != "image/png"@
                && media_type@ == grant.media_type@,
            Err(MediaRefusal::TooLarge { cas_digest, byte_size }) => grant.media_type@ == "image/png"@
                && grant.byte_size > VISUAL_MEDIA_MAX_BYTES && cas_digest@ == grant.cas_digest@
                && byte_size == grant.byte_size,
            Ok(_) => true,
        },
{
    if !same_text(grant.media_type.as_str(), "image/png") {
        return Err(MediaRefusal::NotServable { media_type: grant.media_type.clone() });
    }
    if grant.byte_size > VISUAL_MEDIA_MAX_BYTES {
        return Err(MediaRefusal::TooLarge { cas_digest: grant.cas_digest.clone(), byte_size: grant.byte_size });
    }
    Ok(())
}

pub open spec fn opt_number_view(n: Option<u64>) -> JsonView {
    match n {
        Some(v) => JsonView::Number(crate::json::NumberView::Unsigned(v)),
        None => JsonView::Null,
    }
}

pub open spec fn opt_text_view(s: Option<String>) -> JsonView {
    match s {
        Some(t) => JsonView::Text(t@),
        None => JsonView::Null,
    }
}

/// The answer to a visual's media request.
pub open spec fn media_response_view(grant: MediaGrant, bytes: Seq<u8>) -> JsonView {
    JsonView::Object(
        seq![
            ("protocol"@, JsonView::Text(VISUAL_MEDIA_PROTOCOL@)),
            ("casDigest"@, JsonView::Text(grant.cas_digest@)),
            ("mediaType"@, JsonView::Text(grant.media_type@)),
            ("byteSize"@, JsonView::Number(crate::json::NumberView::Unsigned(grant.byte_size))),
            ("width"@, opt_number_view(grant.width)),
            ("height"@, opt_number_view(grant.height)),
            ("rolloutId"@, opt_text_view(grant.rollout_id)),
            ("step"@, opt_number_view(grant.step)),
            ("optimizerRunId"@, JsonView::Text(grant.optimizer_run_id@)),
            ("dataUrl"@, JsonView::Text(data_url_of(grant.media_type@, bytes))),
        ],
    )
}

fn opt_number(n: Option<u64>) -> (r: JsonValue)
    ensures
        r@ == opt_number_view(n),
{
    match n {
        Some(v) => unsigned_value(v),
        None => JsonValue::Null,
    }
}

/// Servable media of a visual's run, with its bytes as a data URL.
pub fn media_response(grant: &MediaGrant, bytes: &[u8]) -> (r: JsonValue)
    requires
        bytes@.len() <= VISUAL_MEDIA_MAX_BYTES,
    ensures
        r@ == media_response_view(*grant, bytes@),
{
    let encoded = encode_base64(bytes);
    let head = concat3("data:", grant.media_type.as_str(), ";base64,");
    let data_url = concat(head.as_str(), encoded.as_str());
    let rollout = match &grant.rollout_id {
        Some(t) => text_value(t.as_str()),
        None => JsonValue::Null,
    };
    let entries = vec![
        field("protocol", text_value(VISUAL_MEDIA_PROTOCOL)),
        field("casDigest", text_value(grant.cas_digest.as_str())),
        field("mediaType", text_value(grant.media_type.as_str())),
        field("byteSize", unsigned_value(grant.byte_size)),
        field("width", opt_number(grant.width)),
        field("height", opt_number(grant.height)),
        field("rolloutId", rollout),
        field("step", opt_number(grant.step)),
        field("optimizerRunId", text_value(grant.optimizer_run_id.as_str())),
        field("dataUrl", JsonValue::String(data_url)),
    ];
    let ghost es = entries@;
    let r = object_of(entries);
    proof {
        crate::json::lemma_entries_of(es);
        let expected = media_response_view(*grant, bytes@);
        if let JsonView::Object(want) = expected {
            assert(entries_of(es) =~= want);
        }
    }
    r
}

} // verus!
