//! Semantic versions, as parsed by the `semver` crate.

use vstd::prelude::*;

verus! {

/// A semantic version produced by `Version::parse`, kept as its canonical text.
#[derive(Debug, Clone, PartialEq, Eq)]
pub struct Version {
    text: String,
}

/// The outcome of `semver::Version::parse` on the given text: the parsed
/// version's canonical `Display` text, or the parse error's message.
pub uninterp spec fn semver_parse(input: Seq<char>) -> Result<Seq<char>, Seq<char>>;

pub open spec fn version_result_view(r: Result<Version, String>) -> Result<Seq<char>, Seq<char>> {
    match r {
        Ok(v) => Ok(v@),
        Err(e) => Err(e@),
    }
}

impl View for Version {
    type V = Seq<char>;

    closed spec fn view(&self) -> Seq<char> {
        self.text@
    }
}

impl Version {
    /// Parses a semantic version: the version or the parse error's message, as
    /// `semver_parse` names them for this input.
    pub fn parse(input: &str) -> (r: Result<Version, String>)
        ensures
            version_result_view(r) == semver_parse(input@),
    {
        Self::parse_with_semver(input)
    }

    /// `semver::Version::parse`: parses a SemVer 2.0 version. The result is the
    /// version's `Display` text (major.minor.patch with any pre-release and build
    /// metadata) or the `Display` text of the `semver::Error`; both are claimed
    /// to be exactly what `semver_parse` names for this input.
    #[verifier::external_body]
    fn parse_with_semver(input: &str) -> (r: Result<Version, String>)
        ensures
            version_result_view(r) == semver_parse(input@),
    {
        match ::semver::Version::parse(input) {
            Ok(v) => Ok(Version { text: v.to_string() }),
            Err(e) => Err(e.to_string()),
        }
    }

    /// The canonical text of the version (`Version::to_string`).
    pub fn to_text(&self) -> (r: String)
        ensures
            r@ == self@,
    {
        self.text.clone()
    }

    /// A copy of the version.
    pub fn duplicate(&self) -> (r: Version)
        ensures
            r@ == self@,
    {
        Version { text: self.text.clone() }
    }
}

} // verus!
