//! Version requirement checks: comparing a command's reported version
//! against configured minimum and maximum versions.

use vstd::prelude::*;
use std::str::FromStr;

verus! {

/// Schema for Version Requirement Checks.
///
/// The named command is run and its output checked to be a valid version
/// that falls within the defined minimum and maximum allowed versions.
#[derive(Debug, Clone, Default)]
pub struct VersionRequirement {
    pub command: String,
    pub minimum_version: Option<String>,
    pub maximum_version: Option<String>,
    pub split: Option<bool>,
}

/// How a found version relates to the configured constraints.
#[derive(Debug, Clone, Copy, PartialEq, Eq, Structural)]
pub enum VersionCheck {
    BelowMin,
    AboveMax,
    Valid,
}

/// Whether `semver::Version::from_str` accepts the string.
pub uninterp spec fn is_semver(s: Seq<char>) -> bool;

/// Whether `semver::VersionReq::from_str` accepts `"> "` before the string.
pub uninterp spec fn gt_req_parses(m: Seq<char>) -> bool;

/// Whether `semver::VersionReq::from_str` accepts `"< "` before the string.
pub uninterp spec fn lt_req_parses(m: Seq<char>) -> bool;

/// What `VersionReq::matches` returns for the `> min` requirement.
pub uninterp spec fn semver_gt(version: Seq<char>, min: Seq<char>) -> bool;

/// What `VersionReq::matches` returns for the `< max` requirement.
pub uninterp spec fn semver_lt(version: Seq<char>, max: Seq<char>) -> bool;

/// Relies on `semver::Version::from_str`: whether the string is a valid
/// version, a function of the characters alone.
#[verifier::external_body]
fn is_semver_version(s: &str) -> (r: bool)
    ensures
        r == is_semver(s@),
{
    semver::Version::from_str(s).is_ok()
}

/// Relies on `semver::Version::from_str`, `VersionReq::from_str` and
/// `VersionReq::matches`: whether `version` satisfies the `> min`
/// requirement; success and outcome depend on the two strings alone.
#[verifier::external_body]
fn version_exceeds_min(version: &str, min: &str) -> (r: Option<bool>)
    ensures
        match r {
            Some(b) => is_semver(version@) && gt_req_parses(min@) && b == semver_gt(
                version@,
                min@,
            ),
            None => !(is_semver(version@) && gt_req_parses(min@)),
        },
{
    let v = match semver::Version::from_str(version) {
        Ok(v) => v,
        Err(_) => return None,
    };
    let req = match semver::VersionReq::from_str(&format!("> {}", min)) {
        Ok(r) => r,
        Err(_) => return None,
    };
    Some(req.matches(&v))
}

/// Relies on `semver::Version::from_str`, `VersionReq::from_str` and
/// `VersionReq::matches`: whether `version` satisfies the `< max`
/// requirement; success and outcome depend on the two strings alone.
#[verifier::external_body]
fn version_below_max(version: &str, max: &str) -> (r: Option<bool>)
    ensures
        match r {
            Some(b) => is_semver(version@) && lt_req_parses(max@) && b == semver_lt(
                version@,
                max@,
            ),
            None => !(is_semver(version@) && lt_req_parses(max@)),
        },
{
    let v = match semver::Version::from_str(version) {
        Ok(v) => v,
        Err(_) => return None,
    };
    let req = match semver::VersionReq::from_str(&format!("< {}", max)) {
        Ok(r) => r,
        Err(_) => return None,
    };
    Some(req.matches(&v))
}

/// Parse the version string and compare it against the constraints.
///
/// The minimum constraint is checked first: a version that is neither
/// above the minimum nor below the maximum reports `BelowMin`.
pub fn compare_versions(version: String, minver: Option<String>, maxver: Option<String>) -> (r:
    VersionCheck)
    requires
        is_semver(version@),
        minver matches Some(m) ==> gt_req_parses(m@),
        maxver matches Some(m) ==> lt_req_parses(m@),
    ensures
        r == VersionCheck::BelowMin <==> (minver matches Some(m) && !semver_gt(version@, m@)),
        r == VersionCheck::AboveMax <==> ((minver matches Some(m) ==> semver_gt(version@, m@))
            && (maxver matches Some(m2) && !semver_lt(version@, m2@))),
        r == VersionCheck::Valid <==> ((minver matches Some(m) ==> semver_gt(version@, m@)) && (
        maxver matches Some(m2) ==> semver_lt(version@, m2@))),
{
    // Check Min Version Constraints
    if let Some(m) = &minver {
        let result = version_exceeds_min(version.as_str(), m.as_str()).unwrap();
        if !result {
            return VersionCheck::BelowMin;
        }
    }
    // Check Max Version Constraints
    if let Some(m) = &maxver {
        let result = version_below_max(version.as_str(), m.as_str()).unwrap();
        if !result {
            return VersionCheck::AboveMax;
        }
    }
    VersionCheck::Valid
}

/// [`compare_versions`] behind the runtime checks it relies on: `None`
/// when the version or either constraint cannot be parsed.
pub fn try_compare_versions(version: String, minver: Option<String>, maxver: Option<String>) -> (r:
    Option<VersionCheck>)
    ensures
        r is Some <==> (is_semver(version@) && (minver matches Some(m) ==> gt_req_parses(m@)) && (
        maxver matches Some(m2) ==> lt_req_parses(m2@))),
        r matches Some(c) ==> {
            &&& c == VersionCheck::BelowMin <==> (minver matches Some(m) && !semver_gt(
                version@,
                m@,
            ))
            &&& c == VersionCheck::Valid <==> ((minver matches Some(m) ==> semver_gt(version@, m@))
                && (maxver matches Some(m2) ==> semver_lt(version@, m2@)))
        },
{
    if !is_semver_version(version.as_str()) {
        return None;
    }
    if let Some(m) = &minver {
        if version_exceeds_min(version.as_str(), m.as_str()).is_none() {
            return None;
        }
    }
    if let Some(m) = &maxver {
        if version_below_max(version.as_str(), m.as_str()).is_none() {
            return None;
        }
    }
    Some(compare_versions(version, minver, maxver))
}

} // verus!
