//! Semantic versions, as the device reports them.
//!
//! Version strings are parsed by the `semver` crate; the library only needs
//! the numeric triple and whether a pre-release identifier is attached, and
//! does the one comparison the status evaluator asks for in verified code.

use vstd::prelude::*;

verus! {

/// What `semver::Version::parse` yields on a given string: the numeric
/// major/minor/patch triple and whether a pre-release identifier is
/// present, or `None` where the string is not a semantic version.  The
/// result depends on the characters alone.
pub uninterp spec fn parsed_semver(s: Seq<char>) -> Option<(u64, u64, u64, bool)>;

/// Relies on `semver::Version::parse`: the numeric triple of a semantic
/// version, and whether a pre-release identifier follows it.
#[verifier::external_body]
pub(crate) fn parse_semver(s: &str) -> (r: Option<(u64, u64, u64, bool)>)
    ensures
        r == parsed_semver(s@),
{
    match semver::Version::parse(s) {
        Ok(v) => Some((v.major, v.minor, v.patch, !v.pre.is_empty())),
        Err(_) => None,
    }
}

/// Semantic-version precedence of a parsed version against the plain
/// release `2.1.4`: the triple decides, and on an equal triple a
/// pre-release sorts before the release.
pub open spec fn spec_lt_2_1_4(p: (u64, u64, u64, bool)) -> bool {
    ||| p.0 < 2
    ||| (p.0 == 2 && p.1 < 1)
    ||| (p.0 == 2 && p.1 == 1 && p.2 < 4)
    ||| (p.0 == 2 && p.1 == 1 && p.2 == 4 && p.3)
}

pub fn lt_2_1_4(p: (u64, u64, u64, bool)) -> (b: bool)
    ensures
        b == spec_lt_2_1_4(p),
{
    p.0 < 2 || (p.0 == 2 && p.1 < 1) || (p.0 == 2 && p.1 == 1 && p.2 < 4) || (p.0 == 2 && p.1
        == 1 && p.2 == 4 && p.3)
}

} // verus!
