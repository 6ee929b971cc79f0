//! Request, session and time identifiers.
//!
//! Request ids come from a random UUID; timestamps from the system
//! clock.  Neither value can be pinned down, so callers treat them as
//! opaque; a session id is a readable composition of a kind, the device,
//! and a fresh UUID.

use vstd::prelude::*;
use vstd::string::StringExecFns;

use crate::strutil::starts_with;

verus! {

/// Relies on `uuid::Uuid::new_v4` and its `Display` form: a random UUID
/// printed in the hyphenated format, which is always 36 characters.  The
/// value itself is random; nothing more is promised of it.
#[verifier::external_body]
pub(crate) fn new_request_id() -> (r: String)
    ensures
        r@.len() == 36,
{
    uuid::Uuid::new_v4().to_string()
}

/// Relies on `chrono::Utc::now` / `DateTime::timestamp`: the seconds
/// since the epoch by the system clock.  The clock is outside the
/// library's control, so nothing is promised of the value.
#[verifier::external_body]
pub(crate) fn now_timestamp() -> i64 {
    chrono::Utc::now().timestamp()
}

/// A fresh session id: the flow kind, the device, and a random tail,
/// joined with underscores.
pub fn make_session_id(kind: &str, device_id: &str) -> (r: String)
    ensures
        starts_with(r@, kind@ + "_"@ + device_id@ + "_"@),
        r@.len() == kind@.len() + device_id@.len() + 38,
{
    proof {
        reveal_strlit("_");
    }
    let mut s = kind.to_owned();
    s.append("_");
    s.append(device_id);
    s.append("_");
    let tail = new_request_id();
    s.append(tail.as_str());
    proof {
        let prefix = kind@ + "_"@ + device_id@ + "_"@;
        assert(s@.subrange(0, prefix.len() as int) =~= prefix);
    }
    s
}

} // verus!
