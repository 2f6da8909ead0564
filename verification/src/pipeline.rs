//! What a release run is asked to do, and how it ends.

use crate::conventional::{option_view, string_views};
use crate::eco::held_texts;
use crate::infer::version_option_view;
use crate::repository::{without_leading, same_as};
use crate::text::{
    chars_of, lemma_prefix_len_is, push_text, slice, string_of,
};
use crate::version::{semver_parse, written, Version, VersionView};
use ecow::EcoVec;
use vstd::prelude::*;

verus! {

/// How a run ended.
#[derive(Debug, Clone, Copy, PartialEq, Eq, Structural)]
pub enum ExitCode {
    /// The release was written.
    Success,
    /// Nothing had changed.
    NoChange,
}

impl ExitCode {
    /// The number that the process exits with.
    pub open spec fn number(self) -> i32 {
        match self {
            ExitCode::Success => 0,
            ExitCode::NoChange => 3,
        }
    }

    /// The number that the process exits with.
    pub fn code(self) -> (r: i32)
        ensures
            r == self.number(),
    {
        match self {
            ExitCode::Success => 0,
            ExitCode::NoChange => 3,
        }
    }

    /// The exit code of a run that did or did not write a release.
    pub fn of_change(changed: bool) -> (r: ExitCode)
        ensures
            r == if changed {
                ExitCode::Success
            } else {
                ExitCode::NoChange
            },
    {
        if changed {
            ExitCode::Success
        } else {
            ExitCode::NoChange
        }
    }
}

/// What a release run is asked to do.
#[derive(Debug)]
pub struct ReleaseOptions {
    /// The directory of the repository.
    pub cwd: String,
    /// Where the range of commits starts; the last tag where it is not given.
    pub from: Option<String>,
    /// Where the range of commits ends; `HEAD` where it is not given.
    pub to: Option<String>,
    pub dry_run: bool,
    pub new_version: Option<Version>,
    pub no_authors: bool,
    pub exclude_authors: EcoVec<String>,
    pub hide_author_email: bool,
    pub clean: bool,
    pub sign: bool,
    pub yes: bool,
    /// Whether authors are shown by their GitHub handles.
    pub github_alias: bool,
    pub github_token: Option<String>,
}

/// A `ReleaseOptions` with its texts as character sequences.
pub struct ReleaseOptionsView {
    pub cwd: Seq<char>,
    pub from: Option<Seq<char>>,
    pub to: Option<Seq<char>>,
    pub dry_run: bool,
    pub new_version: Option<VersionView>,
    pub no_authors: bool,
    pub exclude_authors: Seq<Seq<char>>,
    pub hide_author_email: bool,
    pub clean: bool,
    pub sign: bool,
    pub yes: bool,
    pub github_alias: bool,
    pub github_token: Option<Seq<char>>,
}

impl View for ReleaseOptions {
    type V = ReleaseOptionsView;

    open spec fn view(&self) -> ReleaseOptionsView {
        ReleaseOptionsView {
            cwd: self.cwd@,
            from: option_view(self.from),
            to: option_view(self.to),
            dry_run: self.dry_run,
            new_version: version_option_view(self.new_version),
            no_authors: self.no_authors,
            exclude_authors: string_views(held_texts(self.exclude_authors)),
            hide_author_email: self.hide_author_email,
            clean: self.clean,
            sign: self.sign,
            yes: self.yes,
            github_alias: self.github_alias,
            github_token: option_view(self.github_token),
        }
    }
}

/// What a release run came to.
#[derive(Debug)]
pub struct ReleaseOutcome {
    pub version: Version,
    pub previous: Option<Version>,
    /// Whether the changelog was written.
    pub wrote: bool,
    pub changelog_path: String,
    pub commit_count: usize,
    pub exit: ExitCode,
}

/// How a question to the user ended.
#[derive(Debug)]
pub enum PromptAnswer {
    /// The user chose yes or no.
    Chosen(bool),
    /// The user broke the question off.
    Interrupted,
    /// The question could not be asked.
    Failed(String),
}

/// Whether the user has to be asked before something is done.
pub fn must_ask(yes_flag: bool) -> (r: bool)
    ensures
        r == !yes_flag,
{
    !yes_flag
}

/// Whether to go on with an action. Confirmed up front, it goes on without a
/// question. Else it goes on as the user chose; not, where the user broke the
/// question off or was never asked; and the error comes back where the
/// question could not be asked.
pub fn confirm_action(yes_flag: bool, answer: Option<PromptAnswer>) -> (r: Result<bool, String>)
    ensures
        yes_flag ==> r == Ok::<bool, String>(true),
        !yes_flag ==> match answer {
            None => r == Ok::<bool, String>(false),
            Some(PromptAnswer::Chosen(choice)) => r == Ok::<bool, String>(choice),
            Some(PromptAnswer::Interrupted) => r == Ok::<bool, String>(false),
            Some(PromptAnswer::Failed(e)) => r == Err::<bool, String>(e),
        },
{
    if yes_flag {
        return Ok(true);
    }
    match answer {
        None => Ok(false),
        Some(PromptAnswer::Chosen(choice)) => Ok(choice),
        Some(PromptAnswer::Interrupted) => Ok(false),
        Some(PromptAnswer::Failed(e)) => Err(e),
    }
}

/// The reference at which the range of commits ends.
pub fn head_ref(to: &Option<String>) -> (r: String)
    ensures
        r@ == match to {
            Some(t) => t@,
            None => "HEAD"@,
        },
{
    match to {
        Some(t) => t.clone(),
        None => "HEAD".to_owned(),
    }
}

/// The version that a tag stands for: what the tag writes after the `v`s at
/// its front, or 0.0.0 where there is no tag or it writes no version.
pub open spec fn version_of_tag(tag: Option<Seq<char>>) -> VersionView {
    match tag {
        Some(t) => match semver_parse(without_leading(t, 'v')) {
            Ok(v) => v,
            Err(_) => zero_version(),
        },
        None => zero_version(),
    }
}

/// Version 0.0.0.
pub open spec fn zero_version() -> VersionView {
    VersionView {
        major: 0,
        minor: 0,
        patch: 0,
        pre: Seq::<char>::empty(),
        build: Seq::<char>::empty(),
    }
}

/// The version that the last tag stands for.
pub fn previous_version(tag: Option<&str>) -> (r: Version)
    ensures
        r@ == version_of_tag(
            match tag {
                Some(t) => Some(t@),
                None => None,
            },
        ),
{
    match tag {
        Some(t) => {
            let chars = chars_of(t);
            let all = chars.as_slice();
            let mut i: usize = 0;
            while i < all.len() && all[i] == 'v'
                invariant
                    i <= all@.len(),
                    forall|k: int| 0 <= k < i ==> same_as('v')(#[trigger] all@[k]),
                decreases all@.len() - i,
            {
                i += 1;
            }
            proof {
                lemma_prefix_len_is(all@, same_as('v'), i as int);
            }
            let rest = string_of(slice(all, i, all.len()));
            match Version::parse(rest.as_str()) {
                Ok(v) => v,
                Err(_) => Version::new(0, 0, 0),
            }
        },
        None => Version::new(0, 0, 0),
    }
}

/// The name of the tag for a version: `v` and the version as it is written.
pub fn tag_name(version: &Version) -> (r: String)
    ensures
        r@ == "v"@ + written(version@),
{
    let mut out: Vec<char> = Vec::new();
    push_text(&mut out, "v");
    version.write_to(&mut out);
    string_of(out.as_slice())
}

/// Whether authors are to be shown by their GitHub handles: where that is
/// asked for, authors are shown at all, and a token is at hand.
pub fn resolves_handles(opts: &ReleaseOptions) -> (r: bool)
    ensures
        r == (!opts.no_authors && opts.github_alias && opts.github_token is Some),
{
    !opts.no_authors && opts.github_alias && opts.github_token.is_some()
}

/// Whether the changelog may be written at all: not in a dry run.
pub fn may_write(opts: &ReleaseOptions) -> (r: bool)
    ensures
        r == !opts.dry_run,
{
    !opts.dry_run
}

} // verus!
