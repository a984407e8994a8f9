//! Semantic versions, parsed and ordered through the `semver` crate.

use vstd::prelude::*;

verus! {

/// What `semver::Version::parse` yields for a string: the numeric triple
/// and the pre-release identifier, or `None` where the string is not a
/// valid semantic version.
pub uninterp spec fn parsed_version(s: Seq<char>) -> Option<(u64, u64, u64, Seq<char>)>;

/// Whether the version `a` parses to precedes the version `b` parses to
/// under the `semver` crate's total order on versions (semantic-version
/// precedence, refined by build metadata), for two parseable strings.
pub uninterp spec fn ver_lt(a: Seq<char>, b: Seq<char>) -> bool;

/// A parsed semantic version: the numeric triple, the pre-release
/// identifier (empty on a stable version), and the text it was parsed from.
pub struct VersionParts {
    pub major: u64,
    pub minor: u64,
    pub patch: u64,
    pub pre: String,
    pub text: String,
}

/// Relies on `semver::Version::parse`: the result is a function of the text
/// alone, and the fields are the parsed version's own.
#[verifier::external_body]
pub(crate) fn parse_semver(text: &str) -> (r: Option<VersionParts>)
    ensures
        r is Some <==> parsed_version(text@) is Some,
        r matches Some(v) ==> parsed_version(text@) == Some((v.major, v.minor, v.patch, v.pre@))
            && v.text@ == text@,
{
    match semver::Version::parse(text) {
        Ok(version) => Some(VersionParts {
            major: version.major,
            minor: version.minor,
            patch: version.patch,
            pre: version.pre.as_str().to_string(),
            text: text.to_string(),
        }),
        Err(_) => None,
    }
}

/// Relies on `semver::Version`'s `Ord`: compares two version strings by
/// the crate's total order (precedence, then build metadata); `None` where
/// either fails to parse.
#[verifier::external_body]
pub(crate) fn semver_lt(a: &str, b: &str) -> (r: Option<bool>)
    ensures
        r is Some <==> (parsed_version(a@) is Some && parsed_version(b@) is Some),
        r matches Some(lt) ==> lt == ver_lt(a@, b@),
{
    match (semver::Version::parse(a), semver::Version::parse(b)) {
        (Ok(va), Ok(vb)) => Some(va < vb),
        _ => None,
    }
}

} // verus!
