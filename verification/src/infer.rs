//! Inference of the next version from a change set.

use crate::bump::{escalate_all, BumpKind};
use crate::parse::{commit_views, ParsedCommit, ParsedCommitView};
use crate::version::{Version, VersionView};
use vstd::prelude::*;

verus! {

/// What one commit asks of the version number: a major bump where it breaks
/// something, else what its entry of the type table says, else nothing.
pub open spec fn contribution(c: ParsedCommitView) -> BumpKind {
    if c.breaking {
        BumpKind::Major
    } else {
        match c.type_cfg {
            Some(t) => t.semver.bump(),
            None => BumpKind::Unchanged,
        }
    }
}

/// What the commits ask of the version number, one by one.
pub open spec fn contributions(commits: Seq<ParsedCommitView>) -> Seq<BumpKind> {
    Seq::new(commits.len(), |i: int| contribution(commits[i]))
}

/// What a change set asks of the version number as a whole.
pub open spec fn aggregate(commits: Seq<ParsedCommitView>) -> BumpKind {
    escalate_all(contributions(commits))
}

/// The number that `impact` raises in a version after `previous`. Before
/// version 1 a major impact raises the minor number and a minor impact the
/// patch number. No impact raises the patch number as well.
pub open spec fn raised(previous: VersionView, impact: BumpKind) -> BumpKind {
    match impact {
        BumpKind::Major => if previous.major == 0 {
            BumpKind::Minor
        } else {
            BumpKind::Major
        },
        BumpKind::Minor => if previous.major == 0 {
            BumpKind::Patch
        } else {
            BumpKind::Minor
        },
        BumpKind::Patch => BumpKind::Patch,
        BumpKind::Unchanged => BumpKind::Patch,
    }
}

/// Whether the number that `impact` raises can be raised.
pub open spec fn bump_fits(previous: VersionView, impact: BumpKind) -> bool {
    match raised(previous, impact) {
        BumpKind::Major => previous.major < u64::MAX,
        BumpKind::Minor => previous.minor < u64::MAX,
        _ => previous.patch < u64::MAX,
    }
}

/// The version after `previous` for a change set of the given impact: the
/// raised number one higher, the numbers after it zero, the rest kept.
pub open spec fn bumped(previous: VersionView, impact: BumpKind) -> VersionView {
    match raised(previous, impact) {
        BumpKind::Major => VersionView {
            major: (previous.major + 1) as u64,
            minor: 0,
            patch: 0,
            pre: previous.pre,
            build: previous.build,
        },
        BumpKind::Minor => VersionView {
            major: previous.major,
            minor: (previous.minor + 1) as u64,
            patch: 0,
            pre: previous.pre,
            build: previous.build,
        },
        _ => VersionView {
            major: previous.major,
            minor: previous.minor,
            patch: (previous.patch + 1) as u64,
            pre: previous.pre,
            build: previous.build,
        },
    }
}

/// The kind of bump that is reported for a change set of the given impact. A
/// major impact is reported as major even before version 1. A minor impact
/// before version 1 is reported as a patch, and so is no impact at all.
pub open spec fn reported(previous: VersionView, impact: BumpKind) -> BumpKind {
    match impact {
        BumpKind::Major => BumpKind::Major,
        BumpKind::Minor => if previous.major == 0 {
            BumpKind::Patch
        } else {
            BumpKind::Minor
        },
        BumpKind::Patch => BumpKind::Patch,
        BumpKind::Unchanged => BumpKind::Patch,
    }
}

/// The next version and the reported kind of bump: the override as it is,
/// with no bump reported; the previous version, with no bump reported, where
/// there are no commits; else the previous version bumped by what the
/// commits ask.
pub open spec fn inferred(
    previous: VersionView,
    commits: Seq<ParsedCommitView>,
    override_new: Option<VersionView>,
) -> (VersionView, BumpKind) {
    match override_new {
        Some(v) => (v, BumpKind::Unchanged),
        None => if commits.len() == 0 {
            (previous, BumpKind::Unchanged)
        } else {
            (bumped(previous, aggregate(commits)), reported(previous, aggregate(commits)))
        },
    }
}

/// The view of an optional version.
pub open spec fn version_option_view(v: Option<Version>) -> Option<VersionView> {
    match v {
        Some(v) => Some(v@),
        None => None,
    }
}

/// Whether a version can be inferred without a number leaving its range.
pub open spec fn can_infer(
    previous: VersionView,
    commits: Seq<ParsedCommitView>,
    override_new: Option<VersionView>,
) -> bool {
    override_new is None && commits.len() > 0 ==> bump_fits(previous, aggregate(commits))
}

/// An override is returned as it is, whatever the commits, and no bump is
/// reported.
pub proof fn lemma_override_wins(
    previous: VersionView,
    commits: Seq<ParsedCommitView>,
    override_new: VersionView,
)
    ensures
        inferred(previous, commits, Some(override_new)) == (override_new, BumpKind::Unchanged),
{
}

/// Without commits the previous version comes back with no bump reported, so
/// inferring again from the result changes nothing.
pub proof fn lemma_no_commits_no_change(previous: VersionView)
    ensures
        inferred(previous, Seq::empty(), None) == (previous, BumpKind::Unchanged),
        inferred(inferred(previous, Seq::empty(), None).0, Seq::empty(), None) == inferred(
            previous,
            Seq::empty(),
            None,
        ),
{
}

/// A change set with commits always bumps: at least a patch is reported, and
/// never a minor bump before version 1.
pub proof fn lemma_commits_always_bump(previous: VersionView, commits: Seq<ParsedCommitView>)
    requires
        commits.len() > 0,
    ensures
        inferred(previous, commits, None).1 != BumpKind::Unchanged,
        previous.major == 0 ==> inferred(previous, commits, None).1 != BumpKind::Minor,
{
}

/// A breaking commit anywhere in the change set makes the reported bump major.
pub proof fn lemma_breaking_reports_major(
    previous: VersionView,
    commits: Seq<ParsedCommitView>,
    k: int,
)
    requires
        0 <= k < commits.len(),
        commits[k].breaking,
    ensures
        aggregate(commits) == BumpKind::Major,
        inferred(previous, commits, None).1 == BumpKind::Major,
{
    assert(contributions(commits)[k] == BumpKind::Major);
    crate::bump::lemma_escalate_all_with_major(contributions(commits));
}

/// What one commit asks of the version number.
fn contribution_of(c: &ParsedCommit) -> (r: BumpKind)
    ensures
        r == contribution(c@),
{
    if c.breaking {
        BumpKind::Major
    } else {
        match &c.type_cfg {
            Some(tc) => tc.semver.to_bump(),
            None => BumpKind::Unchanged,
        }
    }
}

/// What the commits ask of the version number as a whole.
pub fn aggregate_of(commits: &[ParsedCommit]) -> (r: BumpKind)
    ensures
        r == aggregate(commit_views(commits@)),
{
    let ghost kinds = contributions(commit_views(commits@));
    let mut impact = BumpKind::Unchanged;
    let mut i: usize = 0;
    assert(kinds.take(0) == Seq::<BumpKind>::empty());
    while i < commits.len()
        invariant
            i <= commits@.len(),
            kinds == contributions(commit_views(commits@)),
            impact == escalate_all(kinds.take(i as int)),
        decreases commits@.len() - i,
    {
        proof {
            let next = kinds.take(i + 1);
            assert(next.drop_last() == kinds.take(i as int));
            assert(next.last() == contribution(commits@[i as int]@));
        }
        impact = impact.escalate(contribution_of(&commits[i]));
        i += 1;
    }
    assert(kinds.take(i as int) == kinds);
    impact
}

/// The next version after `previous` for the commits of a change set, and the
/// kind of bump that is reported. An override is returned as it is.
pub fn infer_version(
    previous: &Version,
    commits: &[ParsedCommit],
    override_new: Option<Version>,
) -> (r: (Version, BumpKind))
    requires
        can_infer(previous@, commit_views(commits@), version_option_view(override_new)),
    ensures
        (r.0@, r.1) == inferred(
            previous@,
            commit_views(commits@),
            version_option_view(override_new),
        ),
        override_new is Some ==> r.0 == override_new->0 && r.1 == BumpKind::Unchanged,
        override_new is None && commits@.len() == 0 ==> r.0@ == previous@ && r.1
            == BumpKind::Unchanged,
{
    match override_new {
        Some(v) => {
            return (v, BumpKind::Unchanged);
        },
        None => {},
    }
    if commits.len() == 0 {
        return (previous.clone(), BumpKind::Unchanged);
    }
    let impact = aggregate_of(commits);
    let mut next = previous.clone();
    match impact {
        BumpKind::Major => {
            if previous.major == 0 {
                next.minor = next.minor + 1;
                next.patch = 0;
            } else {
                next.major = next.major + 1;
                next.minor = 0;
                next.patch = 0;
            }
            (next, BumpKind::Major)
        },
        BumpKind::Minor => {
            if previous.major == 0 {
                next.patch = next.patch + 1;
                (next, BumpKind::Patch)
            } else {
                next.minor = next.minor + 1;
                next.patch = 0;
                (next, BumpKind::Minor)
            }
        },
        BumpKind::Patch => {
            next.patch = next.patch + 1;
            (next, BumpKind::Patch)
        },
        BumpKind::Unchanged => {
            next.patch = next.patch + 1;
            (next, BumpKind::Patch)
        },
    }
}

} // verus!
