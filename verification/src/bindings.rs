//! The options and results of the scripting interface, as plain values, and
//! how they map to a release run and back.

use crate::authors::AuthorOptions;
use crate::cli_def::wanted_version;
use crate::config::TextMap;
use crate::conventional::{option_view, string_views};
use crate::eco::{held_texts, texts_from};
use crate::git::{tag_version_text, version_text_of};
use crate::infer::version_option_view;
use crate::pipeline::{ExitCode, ReleaseOutcome, ReleaseOptionsView};
use crate::text::{push_text, string_of};
use crate::version::{written, Version, VersionView};
use vstd::prelude::*;

verus! {

/// The options that every call of the scripting interface takes.
#[derive(Debug)]
pub struct JsConfigOptions {
    pub cwd: Option<String>,
    pub from: Option<String>,
    pub to: Option<String>,
    pub new_version: Option<String>,
    pub exclude_authors: Option<Vec<String>>,
    pub hide_author_email: Option<bool>,
    pub no_authors: Option<bool>,
    pub github_token: Option<String>,
    pub no_github_alias: Option<bool>,
    pub dry_run: Option<bool>,
}

/// The next version and the kind of step that leads to it.
#[derive(Debug, PartialEq, Eq)]
pub struct JsVersionResult {
    pub version: String,
    pub bump_type: String,
}

/// A generated release block.
#[derive(Debug, PartialEq, Eq)]
pub struct JsGenerateResult {
    pub markdown: String,
    pub version: String,
    pub commit_count: u32,
}

/// What a release came to.
#[derive(Debug, PartialEq, Eq)]
pub struct JsReleaseResult {
    pub version: String,
    pub commit_count: u32,
    pub changelog_updated: bool,
}

/// Options for generating a changelog.
#[derive(Debug)]
pub struct GenerateOptions {
    pub cwd: Option<String>,
    pub from: Option<String>,
    pub to: Option<String>,
    pub output: Option<String>,
    pub write: Option<bool>,
    pub exclude_authors: Option<Vec<String>>,
    pub no_authors: Option<bool>,
    pub dry_run: Option<bool>,
    pub hide_author_email: Option<bool>,
}

/// Options for a release.
#[derive(Debug)]
pub struct ReleaseOptions {
    pub cwd: Option<String>,
    pub from: Option<String>,
    pub to: Option<String>,
    pub new_version: Option<String>,
    pub output: Option<String>,
    pub sign: Option<bool>,
    pub exclude_authors: Option<Vec<String>>,
    pub no_authors: Option<bool>,
    pub dry_run: Option<bool>,
    pub yes: Option<bool>,
    pub hide_author_email: Option<bool>,
    pub clean: Option<bool>,
}

/// Result of generating a changelog.
#[derive(Debug, PartialEq, Eq)]
pub struct GenerateResult {
    pub content: String,
    pub commits: u32,
    pub version: Option<String>,
}

/// Result of a release.
#[derive(Debug, PartialEq, Eq)]
pub struct ReleaseResult {
    pub content: String,
    pub commits: u32,
    pub previous_version: String,
    pub new_version: String,
    pub tag_created: bool,
}

/// The switch, or off where it is not given.
pub open spec fn on(switch: Option<bool>) -> bool {
    switch == Some(true)
}

/// The texts, or none where they are not given.
pub open spec fn texts_or_none(texts: Option<Vec<String>>) -> Seq<Seq<char>> {
    match texts {
        Some(v) => string_views(v@),
        None => Seq::empty(),
    }
}

/// The directory that is given, or the current one.
pub open spec fn dir_or(cwd: Option<String>, current_dir: Seq<char>) -> Seq<char> {
    match cwd {
        Some(d) => d@,
        None => current_dir,
    }
}

/// The switch, or off where it is not given.
fn is_on(switch: &Option<bool>) -> (r: bool)
    ensures
        r == on(*switch),
{
    match switch {
        Some(b) => *b,
        None => false,
    }
}

/// A copy of an optional text.
fn copy_text(text: &Option<String>) -> (r: Option<String>)
    ensures
        r == *text,
{
    match text {
        Some(t) => Some(t.clone()),
        None => None,
    }
}

/// A copy of the texts, or none where they are not given.
fn copy_texts(texts: &Option<Vec<String>>) -> (r: Vec<String>)
    ensures
        string_views(r@) == texts_or_none(*texts),
{
    let mut out: Vec<String> = Vec::new();
    match texts {
        Some(v) => {
            let mut i: usize = 0;
            while i < v.len()
                invariant
                    i <= v@.len(),
                    out@.len() == i,
                    forall|j: int| 0 <= j < i ==> (#[trigger] out@[j])@ == v@[j]@,
                decreases v@.len() - i,
            {
                out.push(v[i].clone());
                i += 1;
            }
            assert(string_views(out@) =~= string_views(v@));
        },
        None => {
            assert(string_views(out@) =~= Seq::<Seq<char>>::empty());
        },
    }
    out
}

/// The directory that is given, or the current one.
fn dir_or_else(cwd: &Option<String>, current_dir: &str) -> (r: String)
    ensures
        r@ == dir_or(*cwd, current_dir@),
{
    match cwd {
        Some(d) => d.clone(),
        None => current_dir.to_owned(),
    }
}

/// The version that a text writes, if it writes one.
fn read_version(text: &Option<String>) -> (r: Option<Version>)
    ensures
        version_option_view(r) == wanted_version(option_view(*text)),
{
    match text {
        Some(t) => match Version::parse(t.as_str()) {
            Ok(v) => Some(v),
            Err(_) => None,
        },
        None => None,
    }
}

/// The version that a text writes after the `v`s at its front, if it writes
/// one.
pub open spec fn wanted_tag_version(text: Option<Seq<char>>) -> Option<VersionView> {
    match text {
        Some(t) => wanted_version(Some(tag_version_text(t))),
        None => None,
    }
}

/// The version that a text writes after the `v`s at its front.
fn read_tag_version(text: &Option<String>) -> (r: Option<Version>)
    ensures
        version_option_view(r) == wanted_tag_version(option_view(*text)),
{
    match text {
        Some(t) => {
            let rest = version_text_of(t.as_str());
            match Version::parse(rest.as_str()) {
                Ok(v) => Some(v),
                Err(_) => None,
            }
        },
        None => None,
    }
}

impl JsConfigOptions {
    /// The release run that these options ask for. What is not given is
    /// off. The run never asks the user, and neither signs nor demands a
    /// clean working tree.
    pub open spec fn requested(&self, current_dir: Seq<char>) -> ReleaseOptionsView {
        ReleaseOptionsView {
            cwd: dir_or(self.cwd, current_dir),
            from: option_view(self.from),
            to: option_view(self.to),
            dry_run: on(self.dry_run),
            new_version: wanted_version(option_view(self.new_version)),
            no_authors: on(self.no_authors),
            exclude_authors: texts_or_none(self.exclude_authors),
            hide_author_email: on(self.hide_author_email),
            clean: false,
            sign: false,
            yes: true,
            github_alias: !on(self.no_github_alias),
            github_token: option_view(self.github_token),
        }
    }

    /// The release run that these options ask for, in `current_dir` where
    /// they name no directory.
    pub fn to_release_options(&self, current_dir: &str) -> (r: crate::pipeline::ReleaseOptions)
        ensures
            r@ == self.requested(current_dir@),
    {
        crate::pipeline::ReleaseOptions {
            cwd: dir_or_else(&self.cwd, current_dir),
            from: copy_text(&self.from),
            to: copy_text(&self.to),
            dry_run: is_on(&self.dry_run),
            new_version: read_version(&self.new_version),
            no_authors: is_on(&self.no_authors),
            exclude_authors: texts_from(copy_texts(&self.exclude_authors)),
            hide_author_email: is_on(&self.hide_author_email),
            clean: false,
            sign: false,
            yes: true,
            github_alias: !is_on(&self.no_github_alias),
            github_token: copy_text(&self.github_token),
        }
    }
}

impl ReleaseOptions {
    /// The release run that these options ask for. What is not given is
    /// off. The wanted version may have `v`s at its front. Authors are not
    /// shown by handles.
    pub open spec fn requested(&self, current_dir: Seq<char>) -> ReleaseOptionsView {
        ReleaseOptionsView {
            cwd: dir_or(self.cwd, current_dir),
            from: option_view(self.from),
            to: option_view(self.to),
            dry_run: on(self.dry_run),
            new_version: wanted_tag_version(option_view(self.new_version)),
            no_authors: on(self.no_authors),
            exclude_authors: texts_or_none(self.exclude_authors),
            hide_author_email: on(self.hide_author_email),
            clean: on(self.clean),
            sign: on(self.sign),
            yes: on(self.yes),
            github_alias: false,
            github_token: None,
        }
    }

    /// The release run that these options ask for, in `current_dir` where
    /// they name no directory.
    pub fn to_release_options(&self, current_dir: &str) -> (r: crate::pipeline::ReleaseOptions)
        ensures
            r@ == self.requested(current_dir@),
    {
        crate::pipeline::ReleaseOptions {
            cwd: dir_or_else(&self.cwd, current_dir),
            from: copy_text(&self.from),
            to: copy_text(&self.to),
            dry_run: is_on(&self.dry_run),
            new_version: read_tag_version(&self.new_version),
            no_authors: is_on(&self.no_authors),
            exclude_authors: texts_from(copy_texts(&self.exclude_authors)),
            hide_author_email: is_on(&self.hide_author_email),
            clean: is_on(&self.clean),
            sign: is_on(&self.sign),
            yes: is_on(&self.yes),
            github_alias: false,
            github_token: None,
        }
    }
}

impl GenerateOptions {
    /// Whether the changelog is to be written: where writing is asked for
    /// and the run is not a dry one.
    pub fn writes(&self) -> (r: bool)
        ensures
            r == (on(self.write) && !on(self.dry_run)),
    {
        is_on(&self.write) && !is_on(&self.dry_run)
    }

    /// How authors are gathered, or none where they are not shown.
    pub fn author_options(&self) -> (r: Option<AuthorOptions>)
        ensures
            on(self.no_authors) <==> r is None,
            match r {
                Some(opts) => string_views(held_texts(opts.exclude)) == texts_or_none(
                    self.exclude_authors,
                )
                    && opts.hide_author_email == on(self.hide_author_email) && !opts.no_authors
                    && opts.aliases.wf() && (forall|k: Seq<char>| opts.aliases.lookup(k) is None)
                    && opts.github_token is None && !opts.enable_github_aliasing,
                None => true,
            },
    {
        if is_on(&self.no_authors) {
            None
        } else {
            Some(
                AuthorOptions {
                    exclude: texts_from(copy_texts(&self.exclude_authors)),
                    hide_author_email: is_on(&self.hide_author_email),
                    no_authors: false,
                    aliases: TextMap::new(),
                    github_token: None,
                    enable_github_aliasing: false,
                },
            )
        }
    }
}

/// The kind of step from the previous version to the next: named after the
/// first number that is higher, `none` where none is, and `initial` where
/// there is no previous version.
pub open spec fn step_name(previous: Option<VersionView>, version: VersionView) -> Seq<char> {
    match previous {
        Some(p) => if version.major > p.major {
            "major"@
        } else if version.minor > p.minor {
            "minor"@
        } else if version.patch > p.patch {
            "patch"@
        } else {
            "none"@
        },
        None => "initial"@,
    }
}

/// The kind of step from the previous version to the next.
pub fn bump_type(previous: &Option<Version>, version: &Version) -> (r: &'static str)
    ensures
        r@ == step_name(version_option_view(*previous), version@),
{
    match previous {
        Some(p) => if version.major > p.major {
            "major"
        } else if version.minor > p.minor {
            "minor"
        } else if version.patch > p.patch {
            "patch"
        } else {
            "none"
        },
        None => "initial",
    }
}

/// The number of commits as the scripting interface holds it, in 32 bits.
pub open spec fn count32(n: usize) -> u32 {
    n as u32
}

/// The number of commits in 32 bits.
fn to_count32(n: usize) -> (r: u32)
    ensures
        r == count32(n),
{
    #[verifier::truncate]
    (n as u32)
}

/// The text that stands for a changelog that could not be read.
pub open spec fn no_changelog(version: VersionView) -> Seq<char> {
    "## v"@ + written(version) + "\n\nNo changelog generated"@
}

impl JsVersionResult {
    /// The next version of a run and the kind of step that leads to it.
    pub fn of(outcome: &ReleaseOutcome) -> (r: JsVersionResult)
        ensures
            r.version@ == written(outcome.version@),
            r.bump_type@ == step_name(version_option_view(outcome.previous), outcome.version@),
    {
        JsVersionResult {
            version: outcome.version.to_string(),
            bump_type: bump_type(&outcome.previous, &outcome.version).to_owned(),
        }
    }
}

impl JsGenerateResult {
    /// The release block of a run: the changelog as it was read, or a text
    /// that says that none was generated.
    pub fn of(outcome: &ReleaseOutcome, changelog: Option<String>) -> (r: JsGenerateResult)
        ensures
            r.markdown@ == match changelog {
                Some(text) => text@,
                None => no_changelog(outcome.version@),
            },
            r.version@ == written(outcome.version@),
            r.commit_count == count32(outcome.commit_count),
    {
        let markdown = match changelog {
            Some(text) => text,
            None => {
                let mut out: Vec<char> = Vec::new();
                push_text(&mut out, "## v");
                outcome.version.write_to(&mut out);
                push_text(&mut out, "\n\nNo changelog generated");
                string_of(out.as_slice())
            },
        };
        JsGenerateResult {
            markdown,
            version: outcome.version.to_string(),
            commit_count: to_count32(outcome.commit_count),
        }
    }
}

impl JsReleaseResult {
    /// What a run came to.
    pub fn of(outcome: &ReleaseOutcome) -> (r: JsReleaseResult)
        ensures
            r.version@ == written(outcome.version@),
            r.commit_count == count32(outcome.commit_count),
            r.changelog_updated == outcome.wrote,
    {
        JsReleaseResult {
            version: outcome.version.to_string(),
            commit_count: to_count32(outcome.commit_count),
            changelog_updated: outcome.wrote,
        }
    }
}

impl GenerateResult {
    /// The result of generating: the block, the number of commits, and the
    /// tag of the version.
    pub fn of(content: String, commits: usize, version: &Version) -> (r: GenerateResult)
        ensures
            r.content == content,
            r.commits == count32(commits),
            option_view(r.version) == Some("v"@ + written(version@)),
    {
        GenerateResult {
            content,
            commits: to_count32(commits),
            version: Some(crate::pipeline::tag_name(version)),
        }
    }
}

impl ReleaseResult {
    /// The result of a release: the changelog, the versions, and whether a
    /// tag was made, which is so where the run wrote and ended well.
    pub fn of(outcome: &ReleaseOutcome, content: String) -> (r: ReleaseResult)
        ensures
            r.content == content,
            r.commits == count32(outcome.commit_count),
            r.previous_version@ == match outcome.previous {
                Some(p) => written(p@),
                None => "0.0.0"@,
            },
            r.new_version@ == written(outcome.version@),
            r.tag_created == (outcome.wrote && outcome.exit == ExitCode::Success),
    {
        let previous_version = match &outcome.previous {
            Some(p) => p.to_string(),
            None => "0.0.0".to_owned(),
        };
        ReleaseResult {
            content,
            commits: to_count32(outcome.commit_count),
            previous_version,
            new_version: outcome.version.to_string(),
            tag_created: outcome.wrote && matches!(outcome.exit, ExitCode::Success),
        }
    }
}

} // verus!
