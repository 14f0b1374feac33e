//! The course-level run's decisions: whether the stored session state is
//! complete enough to try validation, and whether a fresh acquisition is
//! needed. The run itself — browser, network, storage round trips — is
//! driven outside the library against these decisions.

use vstd::prelude::*;
use crate::headers::name_ieq;

verus! {

/// Some stored header has this name, ignoring case.
pub open spec fn spec_has_header_named(hs: Seq<(String, String)>, name: Seq<char>) -> bool {
    exists|j: int| 0 <= j < hs.len() && name_ieq((#[trigger] hs[j]).0@, name)
}

/// Whether one named header is present, ignoring case.
pub fn has_header_named(headers: &Vec<(String, String)>, name: &str) -> (r: bool)
    ensures
        r == spec_has_header_named(headers@, name@),
{
    match crate::headers::find_header(headers, name) {
        Some(i) => {
            proof {
                assert(name_ieq(headers@[i as int].0@, name@));
            }
            true
        },
        None => {
            proof {
                assert(!spec_has_header_named(headers@, name@));
            }
            false
        },
    }
}

/// The stored state a run needs before validation is even worth trying:
/// a correlation token, at least one cookie, and the captured security
/// headers — the CSRF token and the provider's account, cluster and
/// host identifiers.
pub open spec fn spec_min_creds(
    scid: Option<String>,
    cookies_len: int,
    hs: Seq<(String, String)>,
) -> bool {
    &&& scid is Some
    &&& cookies_len > 0
    &&& spec_has_header_named(hs, "x-xsrf-token"@)
    &&& spec_has_header_named(hs, "x-zm-aid"@)
    &&& spec_has_header_named(hs, "x-zm-cluster-id"@)
    &&& spec_has_header_named(hs, "x-zm-haid"@)
}

/// Whether the stored session state is complete enough to validate.
pub fn has_min_creds(
    scid: &Option<String>,
    cookies_len: usize,
    headers: &Vec<(String, String)>,
) -> (r: bool)
    ensures
        r == spec_min_creds(*scid, cookies_len as int, headers@),
{
    scid.is_some() && cookies_len > 0 && has_header_named(headers, "x-xsrf-token")
        && has_header_named(headers, "x-zm-aid") && has_header_named(headers, "x-zm-cluster-id")
        && has_header_named(headers, "x-zm-haid")
}

/// How a run obtains its session.
#[derive(Debug, Clone, Copy, PartialEq, Eq, Structural)]
pub enum SessionPlan {
    /// The cached session validated: skip acquisition.
    UseCached,
    /// Acquire a fresh session through the browser flow.
    Acquire,
}

/// Decides the session plan: the cached session is used exactly when the
/// stored state was complete and the lightweight validation call proved
/// it live; anything else re-acquires.
pub fn plan_session(creds_present: bool, validated: bool) -> (r: SessionPlan)
    ensures
        (r == SessionPlan::UseCached) <==> (creds_present && validated),
{
    if creds_present && validated {
        SessionPlan::UseCached
    } else {
        SessionPlan::Acquire
    }
}

} // verus!
