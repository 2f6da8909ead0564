//! The release block of a changelog, in markdown.

use crate::authors::{author_views, AuthorView, Authors};
use crate::eco::{authors_in, held_authors, numbers_in};
use crate::config::{type_views, ResolvedConfig, TypeConfigResolved, TypeConfigView};
use crate::parse::{commit_views, ParsedCommit, ParsedCommitView};
use crate::repository::{
    compare_changes_text, format_compare_changes, issue_link, repository_option_view, Repository,
    RepositoryView,
};
use crate::text::{decimal, push_decimal, push_text, string_of};
use crate::version::{written, Version, VersionView};
use vstd::prelude::*;

verus! {

/// What a release block is rendered from.
#[derive(Debug)]
pub struct RenderContext<'a> {
    pub version: &'a Version,
    pub previous_version: Option<&'a Version>,
    pub commits: &'a [ParsedCommit],
    pub authors: Option<&'a Authors>,
    pub repo: Option<&'a Repository>,
    pub cfg: &'a ResolvedConfig,
    pub previous_tag: Option<&'a str>,
    /// The reference that the release is made from.
    pub current_ref: &'a str,
}

/// One issue as a line shows it: a link where the repository is known.
pub open spec fn issue_text(repo: Option<RepositoryView>, n: u64) -> Seq<char> {
    match repo {
        Some(r) => "[#"@ + decimal(n as nat) + "]("@ + issue_link(r, n) + ")"@,
        None => "#"@ + decimal(n as nat),
    }
}

/// The issues of a commit, with commas between them.
pub open spec fn issues_text(repo: Option<RepositoryView>, issues: Seq<u64>) -> Seq<char>
    decreases issues.len(),
{
    if issues.len() == 0 {
        Seq::empty()
    } else if issues.len() == 1 {
        issue_text(repo, issues[0])
    } else {
        issues_text(repo, issues.drop_last()) + ", "@ + issue_text(repo, issues.last())
    }
}

/// The scope as a line shows it: in parentheses, or not at all.
pub open spec fn scope_text(scope: Option<Seq<char>>) -> Seq<char> {
    match scope {
        Some(s) => "("@ + s + ")"@,
        None => Seq::empty(),
    }
}

/// The mark of a breaking change on a line.
pub open spec fn breaking_text(breaking: bool) -> Seq<char> {
    if breaking {
        " (BREAKING)"@
    } else {
        Seq::empty()
    }
}

/// The issues at the end of a line: in parentheses, or nothing where the
/// commit refers to none.
pub open spec fn issues_suffix(repo: Option<RepositoryView>, issues: Seq<u64>) -> Seq<char> {
    if issues.len() > 0 {
        " ("@ + issues_text(repo, issues) + ")"@
    } else {
        Seq::empty()
    }
}

/// The line of one commit in the section of its type.
pub open spec fn commit_line(emoji: Seq<char>, c: ParsedCommitView, repo: Option<RepositoryView>)
    -> Seq<char> {
    "* "@ + emoji + scope_text(c.scope) + ": "@ + c.description + breaking_text(c.breaking)
        + issues_suffix(repo, c.issues) + "\n"@
}

/// The commits of type `key`, in the order of the list.
pub open spec fn of_type(commits: Seq<ParsedCommitView>, key: Seq<char>) -> Seq<ParsedCommitView>
    decreases commits.len(),
{
    if commits.len() == 0 {
        Seq::empty()
    } else if commits.last().commit_type == key {
        of_type(commits.drop_last(), key).push(commits.last())
    } else {
        of_type(commits.drop_last(), key)
    }
}

/// `sorted` with `c` put after the last commit whose place is not above its
/// own.
pub open spec fn insert_by_place(sorted: Seq<ParsedCommitView>, c: ParsedCommitView) -> Seq<
    ParsedCommitView,
>
    decreases sorted.len(),
{
    if sorted.len() == 0 {
        seq![c]
    } else if sorted.last().index <= c.index {
        sorted.push(c)
    } else {
        insert_by_place(sorted.drop_last(), c).push(sorted.last())
    }
}

/// The commits ordered by place, commits of one place in the order of the
/// list.
pub open spec fn ordered_by_place(commits: Seq<ParsedCommitView>) -> Seq<ParsedCommitView>
    decreases commits.len(),
{
    if commits.len() == 0 {
        Seq::empty()
    } else {
        insert_by_place(ordered_by_place(commits.drop_last()), commits.last())
    }
}

/// The lines of the commits of a section.
pub open spec fn section_lines(
    emoji: Seq<char>,
    commits: Seq<ParsedCommitView>,
    repo: Option<RepositoryView>,
) -> Seq<char>
    decreases commits.len(),
{
    if commits.len() == 0 {
        Seq::empty()
    } else {
        section_lines(emoji, commits.drop_last(), repo) + commit_line(
            emoji,
            commits.last(),
            repo,
        )
    }
}

/// The section of one type: nothing where the type is disabled or no commit
/// is of that type; else an empty line, the heading, and the lines of the
/// commits of that type, ordered by place.
pub open spec fn section(
    tc: TypeConfigView,
    commits: Seq<ParsedCommitView>,
    repo: Option<RepositoryView>,
) -> Seq<char> {
    if !tc.enabled || of_type(commits, tc.key).len() == 0 {
        Seq::empty()
    } else {
        "\n### "@ + tc.emoji + " "@ + tc.title + "\n"@ + section_lines(
            tc.emoji,
            ordered_by_place(of_type(commits, tc.key)),
            repo,
        )
    }
}

/// The sections of all types, in the order of the type table.
pub open spec fn sections(
    types: Seq<TypeConfigView>,
    commits: Seq<ParsedCommitView>,
    repo: Option<RepositoryView>,
) -> Seq<char>
    decreases types.len(),
{
    if types.len() == 0 {
        Seq::empty()
    } else {
        sections(types.drop_last(), commits, repo) + section(types.last(), commits, repo)
    }
}

/// The line of one contributor.
pub open spec fn contributor_line(a: AuthorView) -> Seq<char> {
    match a.email {
        Some(e) => "- "@ + a.name + " <"@ + e + ">\n"@,
        None => "- "@ + a.name + "\n"@,
    }
}

/// The lines of the contributors.
pub open spec fn contributor_lines(list: Seq<AuthorView>) -> Seq<char>
    decreases list.len(),
{
    if list.len() == 0 {
        Seq::empty()
    } else {
        contributor_lines(list.drop_last()) + contributor_line(list.last())
    }
}

/// The section of the contributors: nothing where authors are not given,
/// suppressed or none.
pub open spec fn contributors(authors: Option<&Authors>) -> Seq<char> {
    match authors {
        Some(a) => if !a.suppressed && held_authors(a.list).len() > 0 {
            "\n### Contributors\n"@ + contributor_lines(author_views(held_authors(a.list)))
        } else {
            Seq::empty()
        },
        None => Seq::empty(),
    }
}

/// The line with the link to the comparison with the previous release:
/// present where the previous version, its tag and the repository are known
/// and the provider has comparisons.
pub open spec fn compare_line(
    version: VersionView,
    has_previous: bool,
    repo: Option<RepositoryView>,
    previous_tag: Option<Seq<char>>,
) -> Seq<char> {
    if has_previous && repo is Some && previous_tag is Some {
        match compare_changes_text(None, previous_tag->0, "v"@ + written(version), repo) {
            Some(link) => link + "\n"@,
            None => Seq::empty(),
        }
    } else {
        Seq::empty()
    }
}

/// The view of an optional text.
pub open spec fn str_option_view(text: Option<&str>) -> Option<Seq<char>> {
    match text {
        Some(t) => Some(t@),
        None => None,
    }
}

/// The release block: the heading with the version, the link to the
/// comparison, the sections of the types in the order of the type table,
/// and the contributors.
pub open spec fn rendered(ctx: &RenderContext) -> Seq<char> {
    "## v"@ + written(ctx.version@) + "\n"@ + compare_line(
        ctx.version@,
        ctx.previous_version is Some,
        repository_option_view(ctx.repo),
        str_option_view(ctx.previous_tag),
    ) + sections(
        type_views(ctx.cfg.types@),
        commit_views(ctx.commits@),
        repository_option_view(ctx.repo),
    ) + contributors(ctx.authors)
}

/// Adds one issue to `out`.
fn push_issue(out: &mut Vec<char>, repo: Option<&Repository>, n: u64)
    ensures
        final(out)@ == old(out)@ + issue_text(repository_option_view(repo), n),
{
    let ghost before = out@;
    match repo {
        Some(r) => {
            push_text(out, "[#");
            push_decimal(out, n);
            push_text(out, "](");
            let url = r.issue_url(n);
            push_text(out, url.as_str());
            push_text(out, ")");
        },
        None => {
            push_text(out, "#");
            push_decimal(out, n);
        },
    }
    assert(out@ =~= before + issue_text(repository_option_view(repo), n));
}

/// Adds the issues of a commit to `out`, with commas between them.
fn push_issues(out: &mut Vec<char>, repo: Option<&Repository>, issues: &[u64])
    ensures
        final(out)@ == old(out)@ + issues_text(repository_option_view(repo), issues@),
{
    let ghost before = out@;
    let ghost shown = repository_option_view(repo);
    let mut i: usize = 0;
    assert(issues@.take(0) == Seq::<u64>::empty());
    assert(before + Seq::<char>::empty() =~= before);
    while i < issues.len()
        invariant
            i <= issues@.len(),
            shown == repository_option_view(repo),
            out@ == before + issues_text(shown, issues@.take(i as int)),
        decreases issues@.len() - i,
    {
        proof {
            let next = issues@.take(i + 1);
            assert(next.drop_last() == issues@.take(i as int));
            assert(next.last() == issues@[i as int]);
            if i == 0 {
                assert(next[0] == issues@[0]);
            }
        }
        let ghost so_far = out@;
        if i > 0 {
            push_text(out, ", ");
        }
        push_issue(out, repo, issues[i]);
        assert(out@ =~= before + issues_text(shown, issues@.take(i + 1)));
        i += 1;
    }
    assert(issues@.take(i as int) == issues@);
}

/// Adds the line of one commit to `out`.
fn push_commit_line(out: &mut Vec<char>, emoji: &str, c: &ParsedCommit, repo: Option<&Repository>)
    ensures
        final(out)@ == old(out)@ + commit_line(emoji@, c@, repository_option_view(repo)),
{
    let ghost before = out@;
    push_text(out, "* ");
    push_text(out, emoji);
    match &c.scope {
        Some(s) => {
            push_text(out, "(");
            push_text(out, s.as_str());
            push_text(out, ")");
        },
        None => {},
    }
    assert(out@ =~= before + "* "@ + emoji@ + scope_text(c@.scope));
    push_text(out, ": ");
    push_text(out, c.description.as_str());
    if c.breaking {
        push_text(out, " (BREAKING)");
    }
    assert(out@ =~= before + "* "@ + emoji@ + scope_text(c@.scope) + ": "@ + c@.description
        + breaking_text(c@.breaking));
    let issues = numbers_in(&c.issues);
    if issues.len() > 0 {
        push_text(out, " (");
        push_issues(out, repo, issues);
        push_text(out, ")");
    }
    assert(out@ =~= before + "* "@ + emoji@ + scope_text(c@.scope) + ": "@ + c@.description
        + breaking_text(c@.breaking) + issues_suffix(repository_option_view(repo), c@.issues));
    push_text(out, "\n");
    assert(out@ =~= before + commit_line(emoji@, c@, repository_option_view(repo)));
}

/// The commits that `order` names, one after the other.
pub open spec fn picked(commits: Seq<ParsedCommitView>, order: Seq<usize>) -> Seq<ParsedCommitView> {
    Seq::new(order.len(), |k: int| commits[order[k] as int])
}

/// Puts the commit at `at` in its place among those that `order` names.
fn insert_place(order: &mut Vec<usize>, commits: &[ParsedCommit], at: usize)
    requires
        at < commits@.len(),
        forall|k: int| 0 <= k < old(order)@.len() ==> (#[trigger] old(order)@[k]) < commits@.len(),
    ensures
        forall|k: int| 0 <= k < final(order)@.len() ==> (#[trigger] final(order)@[k]) < commits@.len(),
        picked(commit_views(commits@), final(order)@) == insert_by_place(
            picked(commit_views(commits@), old(order)@),
            commits@[at as int]@,
        ),
{
    let ghost views = commit_views(commits@);
    let ghost orig = order@;
    let ghost sorted = picked(views, orig);
    let ghost c = commits@[at as int]@;
    let place = commits[at].index;
    let mut i: usize = order.len();
    assert(sorted.take(i as int) == sorted);
    assert(sorted.skip(i as int) == Seq::<ParsedCommitView>::empty());
    assert(insert_by_place(sorted, c) + Seq::<ParsedCommitView>::empty() == insert_by_place(
        sorted,
        c,
    ));
    while i > 0 && commits[order[i - 1]].index > place
        invariant
            order@ == orig,
            views == commit_views(commits@),
            sorted == picked(views, orig),
            c == commits@[at as int]@,
            place == c.index,
            i <= orig.len(),
            forall|k: int| 0 <= k < orig.len() ==> (#[trigger] orig[k]) < commits@.len(),
            insert_by_place(sorted, c) == insert_by_place(sorted.take(i as int), c) + sorted.skip(
                i as int,
            ),
        decreases i,
    {
        proof {
            let t = sorted.take(i as int);
            assert(t.drop_last() == sorted.take(i - 1));
            assert(t.last() == sorted[i - 1]);
            assert(sorted[i - 1] == views[orig[i - 1] as int]);
            assert(t.last().index > c.index);
            assert(insert_by_place(t, c) == insert_by_place(sorted.take(i - 1), c).push(
                sorted[i - 1],
            ));
            assert(insert_by_place(sorted.take(i - 1), c).push(sorted[i - 1]) + sorted.skip(
                i as int,
            ) == insert_by_place(sorted.take(i - 1), c) + sorted.skip(i - 1));
        }
        i -= 1;
    }
    proof {
        let t = sorted.take(i as int);
        if i > 0 {
            assert(t.last() == sorted[i - 1]);
            assert(sorted[i - 1] == views[orig[i - 1] as int]);
        }
        assert(insert_by_place(t, c) == t.push(c));
        assert(t.push(c) + sorted.skip(i as int) == sorted.insert(i as int, c));
    }
    order.insert(i, at);
    assert(picked(views, order@) =~= sorted.insert(i as int, c));
}

/// The places in `commits` of the commits of type `key`, ordered by the
/// place that each commit had in its batch.
fn order_of_type(commits: &[ParsedCommit], key: &String) -> (r: Vec<usize>)
    ensures
        forall|k: int| 0 <= k < r@.len() ==> (#[trigger] r@[k]) < commits@.len(),
        picked(commit_views(commits@), r@) == ordered_by_place(
            of_type(commit_views(commits@), key@),
        ),
        r@.len() == 0 <==> of_type(commit_views(commits@), key@).len() == 0,
{
    let ghost views = commit_views(commits@);
    let mut order: Vec<usize> = Vec::new();
    let mut i: usize = 0;
    assert(views.take(0) == Seq::<ParsedCommitView>::empty());
    assert(picked(views, order@) =~= Seq::<ParsedCommitView>::empty());
    while i < commits.len()
        invariant
            i <= commits@.len(),
            views == commit_views(commits@),
            forall|k: int| 0 <= k < order@.len() ==> (#[trigger] order@[k]) < commits@.len(),
            picked(views, order@) == ordered_by_place(of_type(views.take(i as int), key@)),
            order@.len() == of_type(views.take(i as int), key@).len(),
        decreases commits@.len() - i,
    {
        proof {
            let next = views.take(i + 1);
            assert(next.drop_last() == views.take(i as int));
            assert(next.last() == commits@[i as int]@);
        }
        if commits[i].commit_type == *key {
            let ghost before = order@;
            insert_place(&mut order, commits, i);
            proof {
                let c = commits@[i as int]@;
                let earlier = of_type(views.take(i as int), key@);
                lemma_insert_grows(picked(views, before), c);
                assert(picked(views, order@).len() == order@.len());
                assert(picked(views, before).len() == before.len());
                assert(of_type(views.take(i + 1), key@) == earlier.push(c));
                assert(earlier.push(c).drop_last() == earlier);
                assert(earlier.push(c).last() == c);
            }
        }
        i += 1;
    }
    assert(views.take(i as int) == views);
    order
}

/// Putting a commit in its place makes the list one longer.
proof fn lemma_insert_grows(sorted: Seq<ParsedCommitView>, c: ParsedCommitView)
    ensures
        insert_by_place(sorted, c).len() == sorted.len() + 1,
    decreases sorted.len(),
{
    if sorted.len() > 0 && sorted.last().index > c.index {
        lemma_insert_grows(sorted.drop_last(), c);
    }
}

/// Adds the section of one type to `out`.
fn push_section(
    out: &mut Vec<char>,
    tc: &TypeConfigResolved,
    commits: &[ParsedCommit],
    repo: Option<&Repository>,
)
    ensures
        final(out)@ == old(out)@ + section(
            tc@,
            commit_views(commits@),
            repository_option_view(repo),
        ),
{
    let ghost before = out@;
    let ghost views = commit_views(commits@);
    let ghost shown = repository_option_view(repo);
    assert(before + Seq::<char>::empty() =~= before);
    if !tc.enabled {
        return;
    }
    let order = order_of_type(commits, &tc.key);
    if order.len() == 0 {
        return;
    }
    push_text(out, "\n### ");
    push_text(out, tc.emoji.as_str());
    push_text(out, " ");
    push_text(out, tc.title.as_str());
    push_text(out, "\n");
    let ghost head = out@;
    assert(head =~= before + ("\n### "@ + tc@.emoji + " "@ + tc@.title + "\n"@));
    let ghost chosen = picked(views, order@);
    let mut k: usize = 0;
    assert(chosen.take(0) == Seq::<ParsedCommitView>::empty());
    assert(head + Seq::<char>::empty() =~= head);
    while k < order.len()
        invariant
            k <= order@.len(),
            views == commit_views(commits@),
            shown == repository_option_view(repo),
            chosen == picked(views, order@),
            forall|j: int| 0 <= j < order@.len() ==> (#[trigger] order@[j]) < commits@.len(),
            out@ == head + section_lines(tc@.emoji, chosen.take(k as int), shown),
        decreases order@.len() - k,
    {
        proof {
            let next = chosen.take(k + 1);
            assert(next.drop_last() == chosen.take(k as int));
            assert(next.last() == commits@[order@[k as int] as int]@);
        }
        push_commit_line(out, tc.emoji.as_str(), &commits[order[k]], repo);
        assert(out@ =~= head + section_lines(tc@.emoji, chosen.take(k + 1), shown));
        k += 1;
    }
    assert(chosen.take(k as int) == chosen);
    assert(out@ =~= before + section(tc@, views, shown));
}

/// Adds the section of the contributors to `out`.
fn push_contributors(out: &mut Vec<char>, authors: Option<&Authors>)
    ensures
        final(out)@ == old(out)@ + contributors(authors),
{
    let ghost before = out@;
    assert(before + Seq::<char>::empty() =~= before);
    let a = match authors {
        Some(a) => a,
        None => {
            return;
        },
    };
    let list = authors_in(&a.list);
    if a.suppressed || list.len() == 0 {
        return;
    }
    push_text(out, "\n### Contributors\n");
    let ghost head = out@;
    let ghost views = author_views(list@);
    let mut i: usize = 0;
    assert(views.take(0) == Seq::<AuthorView>::empty());
    assert(head + Seq::<char>::empty() =~= head);
    while i < list.len()
        invariant
            i <= list@.len(),
            views == author_views(list@),
            out@ == head + contributor_lines(views.take(i as int)),
        decreases list@.len() - i,
    {
        proof {
            let next = views.take(i + 1);
            assert(next.drop_last() == views.take(i as int));
            assert(next.last() == list@[i as int]@);
        }
        let ghost so_far = out@;
        let author = &list[i];
        push_text(out, "- ");
        push_text(out, author.name.as_str());
        match &author.email {
            Some(e) => {
                push_text(out, " <");
                push_text(out, e.as_str());
                push_text(out, ">\n");
            },
            None => {
                push_text(out, "\n");
            },
        }
        assert(out@ =~= so_far + contributor_line(author@));
        assert(out@ =~= head + contributor_lines(views.take(i + 1)));
        i += 1;
    }
    assert(views.take(i as int) == views);
    assert(out@ =~= before + contributors(authors));
}

/// Render a changelog release block in markdown: the heading with the
/// version, the link to the comparison with the previous release, one
/// section for each enabled type that has commits, and the contributors.
pub fn render_release_block(ctx: &RenderContext<'_>) -> (r: String)
    ensures
        r@ == rendered(ctx),
{
    let mut out: Vec<char> = Vec::new();
    push_text(&mut out, "## v");
    ctx.version.write_to(&mut out);
    push_text(&mut out, "\n");
    let ghost head = out@;
    assert(head =~= "## v"@ + written(ctx.version@) + "\n"@);
    if ctx.previous_version.is_some() {
        match (ctx.repo, ctx.previous_tag) {
            (Some(repo), Some(tag)) => {
                let mut name: Vec<char> = Vec::new();
                push_text(&mut name, "v");
                ctx.version.write_to(&mut name);
                let to = string_of(name.as_slice());
                match format_compare_changes(None, tag, to.as_str(), Some(repo)) {
                    Some(link) => {
                        push_text(&mut out, link.as_str());
                        push_text(&mut out, "\n");
                    },
                    None => {},
                }
            },
            _ => {},
        }
    }
    let ghost with_compare = out@;
    assert(with_compare =~= head + compare_line(
        ctx.version@,
        ctx.previous_version is Some,
        repository_option_view(ctx.repo),
        str_option_view(ctx.previous_tag),
    ));
    let ghost types = type_views(ctx.cfg.types@);
    let ghost views = commit_views(ctx.commits@);
    let ghost shown = repository_option_view(ctx.repo);
    let mut i: usize = 0;
    assert(types.take(0) == Seq::<TypeConfigView>::empty());
    assert(with_compare + Seq::<char>::empty() =~= with_compare);
    while i < ctx.cfg.types.len()
        invariant
            i <= ctx.cfg.types@.len(),
            types == type_views(ctx.cfg.types@),
            views == commit_views(ctx.commits@),
            shown == repository_option_view(ctx.repo),
            out@ == with_compare + sections(types.take(i as int), views, shown),
        decreases ctx.cfg.types@.len() - i,
    {
        proof {
            let next = types.take(i + 1);
            assert(next.drop_last() == types.take(i as int));
            assert(next.last() == ctx.cfg.types@[i as int]@);
        }
        push_section(&mut out, &ctx.cfg.types[i], ctx.commits, ctx.repo);
        assert(out@ =~= with_compare + sections(types.take(i + 1), views, shown));
        i += 1;
    }
    assert(types.take(i as int) == types);
    push_contributors(&mut out, ctx.authors);
    assert(out@ =~= rendered(ctx));
    string_of(out.as_slice())
}

} // verus!
