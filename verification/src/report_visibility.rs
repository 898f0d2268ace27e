//! The steps an approved change of a Report's visibility takes. A refused
//! request changes nothing; an approved one needs a signed-in account, and
//! then seals and shares, promotes, or unpublishes according to its target.

use crate::json::{member, JsonValue, JsonView};
use crate::text::same_text;
use vstd::prelude::*;

verus! {

/// What an approved visibility request does.
#[derive(Clone, Copy, Debug, PartialEq, Eq, Structural)]
pub enum VisibilityPlan {
    /// Seal and share privately.
    SharePrivately,
    /// Seal and share, then promote the publication under the request's slug.
    Publish,
    /// Look up the shared upload and unpublish its publication.
    Unpublish,
}

/// The plan for a target: `private`, `public` or `unpublished`.
pub open spec fn plan_for(target: Seq<char>) -> Option<VisibilityPlan> {
    if target == "private"@ {
        Some(VisibilityPlan::SharePrivately)
    } else if target == "public"@ {
        Some(VisibilityPlan::Publish)
    } else if target == "unpublished"@ {
        Some(VisibilityPlan::Unpublish)
    } else {
        None
    }
}

/// Plans an approved request: a signed-in account is required first, then a
/// supported target.
pub fn visibility_plan(target: &str, signed_in: bool) -> (r: Result<VisibilityPlan, String>)
    ensures
        match r {
            Ok(p) => signed_in && plan_for(target@) == Some(p),
            Err(m) => if !signed_in {
                m@ == "Approving Report visibility requires a signed-in Synth account"@
            } else {
                plan_for(target@) is None && m@ == "unsupported visibility target"@
            },
        },
{
    if !signed_in {
        return Err(String::from_str("Approving Report visibility requires a signed-in Synth account"));
    }
    if same_text(target, "private") {
        Ok(VisibilityPlan::SharePrivately)
    } else if same_text(target, "public") {
        Ok(VisibilityPlan::Publish)
    } else if same_text(target, "unpublished") {
        Ok(VisibilityPlan::Unpublish)
    } else {
        Err(String::from_str("unsupported visibility target"))
    }
}

/// What promoting a shared Report needs: the committed upload's publication,
/// then the request's slug.
pub fn promotion_inputs(publication_id: Option<String>, slug: Option<String>) -> (r: Result<
    (String, String),
    String,
>)
    ensures
        match r {
            Ok((p, s)) => publication_id == Some(p) && slug == Some(s),
            Err(m) => if publication_id is None {
                m@ == "committed upload has no publication"@
            } else {
                slug is None && m@ == "public request has no slug"@
            },
        },
{
    let p = match publication_id {
        Some(p) => p,
        None => return Err(String::from_str("committed upload has no publication")),
    };
    match slug {
        Some(s) => Ok((p, s)),
        None => Err(String::from_str("public request has no slug")),
    }
}

/// What unpublishing needs: a shared upload, and its publication.
pub fn unpublish_input(upload: Option<Option<String>>) -> (r: Result<String, String>)
    ensures
        match r {
            Ok(p) => upload == Some(Some(p)),
            Err(m) => match upload {
                None => m@ == "sealed Report has not been shared"@,
                Some(inner) => inner is None && m@ == "shared Report has no publication"@,
            },
        },
{
    match upload {
        None => Err(String::from_str("sealed Report has not been shared")),
        Some(None) => Err(String::from_str("shared Report has no publication")),
        Some(Some(p)) => Ok(p),
    }
}

/// Whether a sharing step's event is a visual event to publish: it carries a
/// `schemaVersion`.
pub fn is_visual_event(event: &JsonValue) -> (r: bool)
    ensures
        r == (member(event@, "schemaVersion"@) is Some),
{
    event.get("schemaVersion").is_some()
}

} // verus!
