//! Whether a theme works with the installed LeftWM.

use crate::errors::LeftError;
use crate::models::LeftWm;
use vstd::prelude::*;

verus! {

/// Whether `semver::VersionReq::parse` accepts a text as a version requirement.
pub uninterp spec fn requirement_parses(requirement: Seq<char>) -> bool;

/// Whether `semver::Version::parse` accepts a text as a version.
pub uninterp spec fn version_parses(version: Seq<char>) -> bool;

/// Whether `semver::VersionReq::matches` finds that a version, parsed from the second
/// text, meets the requirement parsed from the first.
pub uninterp spec fn requirement_admits(requirement: Seq<char>, version: Seq<char>) -> bool;

/// Parses a requirement with `semver::VersionReq::parse` and a version with
/// `semver::Version::parse`, and asks `semver::VersionReq::matches` whether the version
/// meets the requirement. The first text that does not parse gives its error, the
/// requirement's before the version's. The three functions depend on the texts alone.
#[verifier::external_body]
fn semver_matches(requirement: &str, version: &str) -> (r: Result<bool, semver::Error>)
    ensures
        match r {
            Ok(met) => requirement_parses(requirement@) && version_parses(version@) && met
                == requirement_admits(requirement@, version@),
            Err(_) => !(requirement_parses(requirement@) && version_parses(version@)),
        },
{
    let requirements = semver::VersionReq::parse(requirement)?;
    let version = semver::Version::parse(version)?;
    Ok(requirements.matches(&version))
}

/// Whether the installed LeftWM meets a theme's version requirement. Fails where the
/// requirement or the installed version cannot be parsed: that is not the answer "no".
pub fn check(vstring: &str, lwmv: &LeftWm) -> (r: Result<bool, LeftError>)
    ensures
        r.is_ok() <==> requirement_parses(vstring@) && version_parses(lwmv.version@),
        r matches Ok(met) ==> met == requirement_admits(vstring@, lwmv.version@),
        r matches Err(e) ==> e.inner is SemVerError,
{
    match semver_matches(vstring, lwmv.version.as_str()) {
        Ok(met) => Ok(met),
        Err(err) => Err(LeftError::from(err)),
    }
}

} // verus!
