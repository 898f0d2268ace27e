//! What the Computer Use page shows: the plugin's status and the apps the
//! current session may drive without a fresh approval card.

use vstd::prelude::*;

verus! {

/// The Computer Use page's snapshot, over whatever status type the plugin
/// host reports.
pub struct ComputerUseSnapshot<S> {
    pub status: S,
    /// Bundle identifiers this session may drive without a fresh card.
    pub allowed_apps: Vec<String>,
}

/// The snapshot for a request: the session's allow-listed apps where the
/// request names a session, and none otherwise.
pub fn computer_use_snapshot<S>(status: S, session_apps: Option<Vec<String>>) -> (r: ComputerUseSnapshot<S>)
    ensures
        r.status == status,
        r.allowed_apps@ == match session_apps {
            Some(apps) => apps@,
            None => Seq::empty(),
        },
{
    let allowed_apps = match session_apps {
        Some(apps) => apps,
        None => Vec::new(),
    };
    ComputerUseSnapshot { status, allowed_apps }
}

} // verus!
