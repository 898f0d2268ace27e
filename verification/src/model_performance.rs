//! Reading Synth Cloud model telemetry: the request it takes, and what the
//! user is told when it fails. The request is sent by the host.

use crate::cloud::{cloud_base_url, without_trailing_slashes};
use crate::container_hydration::{contains_text, occurs_exec};
use crate::text::{chars_of, concat, concat3, decimal, text_prefix, u64_to_string};
use vstd::prelude::*;

verus! {

/// The telemetry window in minutes: an hour where none is asked, held
/// between one minute and a day.
pub open spec fn telemetry_window(window_minutes: Option<u16>) -> u16 {
    let w = match window_minutes {
        Some(w) => w,
        None => 60,
    };
    if w < 1 {
        1
    } else if w > 1440 {
        1440
    } else {
        w
    }
}

/// Telemetry is read only with an account key.
pub fn telemetry_api_key(api_key: Option<String>) -> (r: Result<String, String>)
    ensures
        match api_key {
            Some(k) => r matches Ok(v) && v@ == k@,
            None => r matches Err(m) && m@ == "Sign in to read Synth Cloud model telemetry"@,
        },
{
    match api_key {
        Some(k) => Ok(k),
        None => Err(String::from_str("Sign in to read Synth Cloud model telemetry")),
    }
}

/// The URL of the model-performance snapshot over a window.
pub fn model_performance_url(backend_url: &str, window_minutes: Option<u16>) -> (r: String)
    ensures
        r@ == without_trailing_slashes(backend_url@) + "/api/v1/usage/model-performance?window_minutes="@
            + decimal(telemetry_window(window_minutes) as nat),
{
    let w: u16 = match window_minutes {
        Some(w) => w,
        None => 60,
    };
    let window: u16 = if w < 1 {
        1
    } else if w > 1440 {
        1440
    } else {
        w
    };
    let base = cloud_base_url(backend_url);
    let n = u64_to_string(window as u64);
    concat3(base.as_str(), "/api/v1/usage/model-performance?window_minutes=", n.as_str())
}

/// Whether a failed request reads as the service being unreachable.
pub open spec fn unreachable_detail(detail: Seq<char>) -> bool {
    ||| contains_text(detail, "backend-api"@)
    ||| contains_text(detail, "dns"@)
    ||| contains_text(detail, "failed to lookup"@)
    ||| contains_text(detail, "Connection refused"@)
    ||| contains_text(detail, "timed out"@)
    ||| contains_text(detail, "error sending request"@)
}

/// What the user is told when the request could not be completed: where
/// the service was unreachable, to check the backend URL; else the failure.
pub fn telemetry_request_failure(detail: &str) -> (r: String)
    ensures
        r@ == if unreachable_detail(detail@) {
            "Synth Cloud telemetry could not be reached. Check Account → Synth backend URL."@
        } else {
            "Synth Cloud telemetry request failed: "@ + detail@
        },
{
    let chars = chars_of(detail);
    if occurs_exec(&chars, "backend-api") || occurs_exec(&chars, "dns") || occurs_exec(
        &chars,
        "failed to lookup",
    ) || occurs_exec(&chars, "Connection refused") || occurs_exec(&chars, "timed out")
        || occurs_exec(&chars, "error sending request") {
        String::from_str("Synth Cloud telemetry could not be reached. Check Account → Synth backend URL.")
    } else {
        concat("Synth Cloud telemetry request failed: ", detail)
    }
}

/// What the user is told when the service answered with a failure status:
/// the status and at most the first 240 characters of the body.
pub fn telemetry_status_failure(status: &str, body: &str) -> (r: String)
    ensures
        r@ == "Synth Cloud telemetry returned "@ + status@ + ": "@ + (if body@.len() > 240 {
            body@.take(240)
        } else {
            body@
        }),
{
    let count = chars_of(body).len();
    let n: usize = if count > 240 {
        240
    } else {
        count
    };
    let shown = text_prefix(body, n);
    let head = concat3("Synth Cloud telemetry returned ", status, ": ");
    let r = concat(head.as_str(), shown.as_str());
    assert(body@.subrange(0, n as int) =~= (if body@.len() > 240 {
        body@.take(240)
    } else {
        body@
    }));
    r
}

} // verus!
