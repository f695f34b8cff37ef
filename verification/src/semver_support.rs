//! Matching of versions against version requirements, done by `semver`.

use crate::text::str_eq;
use vstd::prelude::*;

verus! {

/// Whether a version, given as text, meets a requirement, given as text,
/// as `semver` decides it. `None` where one of the two texts is none.
pub uninterp spec fn semver_matches(req: Seq<char>, version: Seq<char>) -> Option<bool>;

/// `VersionReq::matches`, on a requirement and a version that
/// `VersionReq::parse` and `Version::parse` read from text: `None` where
/// either text is refused.
#[verifier::external_body]
pub(crate) fn semver_req_matches(req: &str, version: &str) -> (r: Option<bool>)
    ensures
        r == semver_matches(req@, version@),
{
    match (semver::VersionReq::parse(req), semver::Version::parse(version)) {
        (Ok(req), Ok(version)) => Some(req.matches(&version)),
        _ => None,
    }
}

/// Whether Cargo takes a version to meet a requirement: as `semver` does,
/// but the requirement `*` admits every version, pre-releases too.
pub open spec fn version_matches(req: Seq<char>, version: Seq<char>) -> bool {
    req == "*"@ || semver_matches(req, version) == Some(true)
}

/// Returns true if the version meets the requirement as Cargo sees it.
pub fn cargo_version_matches(req: &str, version: &str) -> (r: bool)
    ensures
        r == version_matches(req@, version@),
{
    if str_eq(req, "*") {
        true
    } else {
        match semver_req_matches(req, version) {
            Some(b) => b,
            None => false,
        }
    }
}

} // verus!
