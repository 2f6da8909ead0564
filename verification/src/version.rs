//! A semantic version number as plain values.

use crate::text::{decimal, push_decimal, push_text, string_of};
use vstd::prelude::*;

verus! {

/// A semantic version: three numbers, and the pre-release and build texts
/// that may follow them (empty where there are none).
#[derive(Debug, PartialEq, Eq)]
pub struct Version {
    pub major: u64,
    pub minor: u64,
    pub patch: u64,
    pub pre: String,
    pub build: String,
}

/// A `Version` with its texts as character sequences.
pub struct VersionView {
    pub major: u64,
    pub minor: u64,
    pub patch: u64,
    pub pre: Seq<char>,
    pub build: Seq<char>,
}

impl View for Version {
    type V = VersionView;

    open spec fn view(&self) -> VersionView {
        VersionView {
            major: self.major,
            minor: self.minor,
            patch: self.patch,
            pre: self.pre@,
            build: self.build@,
        }
    }
}

impl Clone for Version {
    fn clone(&self) -> (r: Self)
        ensures
            r == *self,
    {
        Version {
            major: self.major,
            minor: self.minor,
            patch: self.patch,
            pre: self.pre.clone(),
            build: self.build.clone(),
        }
    }
}

impl Version {
    /// The version `major.minor.patch` without pre-release or build text.
    pub fn new(major: u64, minor: u64, patch: u64) -> (r: Version)
        ensures
            r@ == (VersionView {
                major,
                minor,
                patch,
                pre: Seq::<char>::empty(),
                build: Seq::<char>::empty(),
            }),
    {
        Version { major, minor, patch, pre: String::new(), build: String::new() }
    }
}

/// What `semver::Version::parse` makes of a text: the version that the text
/// writes, or the words in which the text is refused.
pub uninterp spec fn semver_parse(text: Seq<char>) -> Result<VersionView, Seq<char>>;

/// The view of a version read from a text, or of the refusal.
pub open spec fn version_result_view(r: Result<Version, String>) -> Result<
    VersionView,
    Seq<char>,
> {
    match r {
        Ok(v) => Ok(v@),
        Err(e) => Err(e@),
    }
}

/// `semver::Version::parse` on `text`. A version comes back with its three
/// numbers and the texts of its pre-release and build parts, a refusal as
/// the error shows itself.
#[verifier::external_body]
fn parse_semver(text: &str) -> (r: Result<Version, String>)
    ensures
        version_result_view(r) == semver_parse(text@),
{
    match semver::Version::parse(text) {
        Ok(v) => Ok(
            Version {
                major: v.major,
                minor: v.minor,
                patch: v.patch,
                pre: v.pre.as_str().to_owned(),
                build: v.build.as_str().to_owned(),
            },
        ),
        Err(e) => Err(e.to_string()),
    }
}

/// A version as it is written: the three numbers with dots between them,
/// then the pre-release text after a hyphen and the build text after a plus
/// sign, each where it is not empty.
pub open spec fn written(v: VersionView) -> Seq<char> {
    decimal(v.major as nat) + "."@ + decimal(v.minor as nat) + "."@ + decimal(v.patch as nat) + (
    if v.pre.len() > 0 {
        "-"@ + v.pre
    } else {
        Seq::<char>::empty()
    }) + (if v.build.len() > 0 {
        "+"@ + v.build
    } else {
        Seq::<char>::empty()
    })
}

impl Version {
    /// Reads a version from a text such as `1.2.3` or `1.0.0-rc.1+build`.
    pub fn parse(text: &str) -> (r: Result<Version, String>)
        ensures
            version_result_view(r) == semver_parse(text@),
    {
        parse_semver(text)
    }

    /// Adds the version as it is written to `out`.
    pub fn write_to(&self, out: &mut Vec<char>)
        ensures
            final(out)@ == old(out)@ + written(self@),
    {
        let ghost before = out@;
        push_decimal(out, self.major);
        push_text(out, ".");
        push_decimal(out, self.minor);
        push_text(out, ".");
        push_decimal(out, self.patch);
        if !self.pre.as_str().is_empty() {
            push_text(out, "-");
            push_text(out, self.pre.as_str());
        }
        if !self.build.as_str().is_empty() {
            push_text(out, "+");
            push_text(out, self.build.as_str());
        }
        assert(out@ =~= before + written(self@));
    }

    /// The version as it is written.
    pub fn to_string(&self) -> (r: String)
        ensures
            r@ == written(self@),
    {
        let mut out: Vec<char> = Vec::new();
        self.write_to(&mut out);
        string_of(out.as_slice())
    }
}

} // verus!
