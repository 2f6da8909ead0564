//! The hosted repository that a remote URL names, and the links into it.

use crate::text::{chars_of, decimal, ends_with, find, find_char, has_prefix, lemma_suffix_len_is, push_decimal, push_text, same_chars, slice, starts_with, string_of, suffix_len, prefix_len, lemma_prefix_len_is};
use vstd::prelude::*;

verus! {

/// Where a repository is hosted, as far as links depend on it.
#[derive(Debug, Clone, Copy, PartialEq, Eq, Structural)]
pub enum Provider {
    GitHub,
    GitLab,
    Bitbucket,
    /// Any other host: no links are made.
    Other,
}

/// What a reference points at.
#[derive(Debug, Clone, Copy, PartialEq, Eq, Structural)]
pub enum ReferenceKind {
    PullRequest,
    Issue,
    Hash,
}

/// A hosted repository: host, owner and name, as a remote URL gives them.
#[derive(Debug, PartialEq, Eq)]
pub struct Repository {
    pub host: String,
    pub owner: String,
    pub name: String,
    pub provider: Provider,
    /// The remote URL that the repository was read from.
    pub original: String,
}

/// A `Repository` with its texts as character sequences.
pub struct RepositoryView {
    pub host: Seq<char>,
    pub owner: Seq<char>,
    pub name: Seq<char>,
    pub provider: Provider,
    pub original: Seq<char>,
}

impl View for Repository {
    type V = RepositoryView;

    open spec fn view(&self) -> RepositoryView {
        RepositoryView {
            host: self.host@,
            owner: self.owner@,
            name: self.name@,
            provider: self.provider,
            original: self.original@,
        }
    }
}

impl Clone for Repository {
    fn clone(&self) -> (r: Self)
        ensures
            r == *self,
    {
        Repository {
            host: self.host.clone(),
            owner: self.owner.clone(),
            name: self.name.clone(),
            provider: self.provider,
            original: self.original.clone(),
        }
    }
}

impl Provider {
    /// The provider's name.
    pub open spec fn name(self) -> Seq<char> {
        match self {
            Provider::GitHub => "GitHub"@,
            Provider::GitLab => "GitLab"@,
            Provider::Bitbucket => "Bitbucket"@,
            Provider::Other => "Other"@,
        }
    }

    /// The provider that runs `host`.
    pub open spec fn of_host(host: Seq<char>) -> Provider {
        if host == "github.com"@ {
            Provider::GitHub
        } else if host == "gitlab.com"@ {
            Provider::GitLab
        } else if host == "bitbucket.org"@ {
            Provider::Bitbucket
        } else {
            Provider::Other
        }
    }

    /// The provider's name.
    pub fn to_string(&self) -> (r: String)
        ensures
            r@ == self.name(),
    {
        match self {
            Provider::GitHub => "GitHub".to_owned(),
            Provider::GitLab => "GitLab".to_owned(),
            Provider::Bitbucket => "Bitbucket".to_owned(),
            Provider::Other => "Other".to_owned(),
        }
    }

    /// The provider that runs `host`.
    fn for_host(host: &[char]) -> (r: Provider)
        ensures
            r == Self::of_host(host@),
    {
        if same_chars(host, chars_of("github.com").as_slice()) {
            Provider::GitHub
        } else if same_chars(host, chars_of("gitlab.com").as_slice()) {
            Provider::GitLab
        } else if same_chars(host, chars_of("bitbucket.org").as_slice()) {
            Provider::Bitbucket
        } else {
            Provider::Other
        }
    }
}

/// The test for the character `c`.
pub open spec fn same_as(c: char) -> spec_fn(char) -> bool {
    |x: char| x == c
}

/// `s` without the run of `c` at its end.
pub open spec fn without_trailing(s: Seq<char>, c: char) -> Seq<char> {
    s.take(s.len() - suffix_len(s, same_as(c)))
}

/// `s` without the run of `c` at its front.
pub open spec fn without_leading(s: Seq<char>, c: char) -> Seq<char> {
    s.skip(prefix_len(s, same_as(c)) as int)
}

/// `s` without any `.git` at its end, however often it is repeated.
pub open spec fn without_git_suffix(s: Seq<char>) -> Seq<char>
    decreases s.len(),
{
    if ends_with(s, seq!['.', 'g', 'i', 't']) {
        without_git_suffix(s.take(s.len() - 4))
    } else {
        s
    }
}

/// The path of a remote as it is read: trailing slashes off, then `.git` off.
pub open spec fn clean_path(path: Seq<char>) -> Seq<char> {
    without_git_suffix(without_trailing(path, '/'))
}

/// Whether the cleaned path has exactly two segments.
pub open spec fn has_owner_and_name(path: Seq<char>) -> bool {
    find(clean_path(path), '/') < clean_path(path).len() && find(
        clean_path(path).skip(find(clean_path(path), '/') + 1),
        '/',
    ) == clean_path(path).skip(find(clean_path(path), '/') + 1).len()
}

/// The repository at `host` under `path`, if the path names owner and name
/// and nothing more.
pub open spec fn repository_at(host: Seq<char>, path: Seq<char>, original: Seq<char>) -> Option<
    RepositoryView,
> {
    if has_owner_and_name(path) {
        Some(
            RepositoryView {
                host,
                owner: clean_path(path).take(find(clean_path(path), '/')),
                name: clean_path(path).skip(find(clean_path(path), '/') + 1),
                provider: Provider::of_host(host),
                original,
            },
        )
    } else {
        None
    }
}

/// Host and path after a scheme, split at the first slash.
pub open spec fn after_scheme(rest: Seq<char>, original: Seq<char>) -> Option<RepositoryView> {
    if find(rest, '/') < rest.len() {
        repository_at(rest.take(find(rest, '/')), rest.skip(find(rest, '/') + 1), original)
    } else {
        None
    }
}

/// The repository that a remote URL names. Four forms are read:
/// `git@host:owner/name`, `ssh://git@host/owner/name`,
/// `https://host/owner/name` and `http://host/owner/name`, each with or
/// without `.git` and slashes at its end.
pub open spec fn parse_remote(remote: Seq<char>) -> Option<RepositoryView> {
    if starts_with(remote, "git@"@) {
        if find(remote.skip(4), ':') < remote.skip(4).len() {
            repository_at(
                remote.skip(4).take(find(remote.skip(4), ':')),
                remote.skip(4).skip(find(remote.skip(4), ':') + 1),
                remote,
            )
        } else {
            None
        }
    } else if starts_with(remote, "ssh://git@"@) {
        after_scheme(remote.skip(10), remote)
    } else if starts_with(remote, "https://"@) {
        after_scheme(remote.skip(8), remote)
    } else if starts_with(remote, "http://"@) {
        after_scheme(remote.skip(7), remote)
    } else {
        None
    }
}

/// `s` without the run of `c` at its end.
fn strip_trailing<'a>(s: &'a [char], c: char) -> (r: &'a [char])
    ensures
        r@ == without_trailing(s@, c),
{
    let mut j: usize = s.len();
    while j > 0 && s[j - 1] == c
        invariant
            j <= s@.len(),
            forall|k: int| j <= k < s@.len() ==> same_as(c)(#[trigger] s@[k]),
        decreases j,
    {
        j -= 1;
    }
    proof {
        lemma_suffix_len_is(s@, same_as(c), s@.len() - j);
    }
    slice(s, 0, j)
}

/// `s` without the run of `c` at its front.
fn strip_leading<'a>(s: &'a [char], c: char) -> (r: &'a [char])
    ensures
        r@ == without_leading(s@, c),
{
    let mut i: usize = 0;
    while i < s.len() && s[i] == c
        invariant
            i <= s@.len(),
            forall|k: int| 0 <= k < i ==> same_as(c)(#[trigger] s@[k]),
        decreases s@.len() - i,
    {
        i += 1;
    }
    proof {
        lemma_prefix_len_is(s@, same_as(c), i as int);
    }
    slice(s, i, s.len())
}

/// Whether `s` ends in `.git`.
fn ends_in_git(s: &[char]) -> (r: bool)
    ensures
        r == ends_with(s@, seq!['.', 'g', 'i', 't']),
{
    let n = s.len();
    if n < 4 {
        return false;
    }
    let r = s[n - 4] == '.' && s[n - 3] == 'g' && s[n - 2] == 'i' && s[n - 1] == 't';
    proof {
        let tail = s@.skip(n - 4);
        assert(tail.len() == 4);
        assert(tail[0] == s@[n - 4] && tail[1] == s@[n - 3] && tail[2] == s@[n - 2] && tail[3]
            == s@[n - 1]);
        if r {
            assert(tail =~= seq!['.', 'g', 'i', 't']);
        } else {
            let want = seq!['.', 'g', 'i', 't'];
            assert(want[0] == '.' && want[1] == 'g' && want[2] == 'i' && want[3] == 't');
        }
    }
    r
}

/// `s` without any `.git` at its end.
fn strip_git_suffix<'a>(s: &'a [char]) -> (r: &'a [char])
    ensures
        r@ == without_git_suffix(s@),
{
    let mut cur = s;
    while ends_in_git(cur)
        invariant
            without_git_suffix(cur@) == without_git_suffix(s@),
        decreases cur@.len(),
    {
        let n = cur.len();
        cur = slice(cur, 0, n - 4);
    }
    cur
}

impl Repository {
    /// The repository at `host` under `path`.
    fn from_host_path(host: &[char], path: &[char], original: &[char]) -> (r: Option<Repository>)
        ensures
            match r {
                Some(repo) => repository_at(host@, path@, original@) == Some(repo@),
                None => repository_at(host@, path@, original@) is None,
            },
    {
        let cleaned = strip_git_suffix(strip_trailing(path, '/'));
        let n = cleaned.len();
        let k = find_char(cleaned, '/');
        if k >= n {
            return None;
        }
        let rest = slice(cleaned, k + 1, n);
        assert(rest@ == cleaned@.skip(k + 1));
        if find_char(rest, '/') < rest.len() {
            return None;
        }
        Some(
            Repository {
                host: string_of(host),
                owner: string_of(slice(cleaned, 0, k)),
                name: string_of(rest),
                provider: Provider::for_host(host),
                original: string_of(original),
            },
        )
    }

    /// Host and path after a scheme.
    fn from_rest(rest: &[char], original: &[char]) -> (r: Option<Repository>)
        ensures
            match r {
                Some(repo) => after_scheme(rest@, original@) == Some(repo@),
                None => after_scheme(rest@, original@) is None,
            },
    {
        let n = rest.len();
        let k = find_char(rest, '/');
        if k < n {
            Repository::from_host_path(slice(rest, 0, k), slice(rest, k + 1, n), original)
        } else {
            None
        }
    }

    /// Reads the repository that a remote URL names.
    pub fn parse(remote: &str) -> (r: Option<Repository>)
        ensures
            match r {
                Some(repo) => parse_remote(remote@) == Some(repo@),
                None => parse_remote(remote@) is None,
            },
    {
        let chars = chars_of(remote);
        let all = chars.as_slice();
        let n = all.len();
        if has_prefix(all, chars_of("git@").as_slice()) {
            proof {
                reveal_strlit("git@");
            }
            let rest = slice(all, 4, n);
            assert(rest@ == remote@.skip(4));
            let m = rest.len();
            let k = find_char(rest, ':');
            if k < m {
                Repository::from_host_path(slice(rest, 0, k), slice(rest, k + 1, m), all)
            } else {
                None
            }
        } else if has_prefix(all, chars_of("ssh://git@").as_slice()) {
            proof {
                reveal_strlit("ssh://git@");
            }
            let rest = slice(all, 10, n);
            assert(rest@ == remote@.skip(10));
            Repository::from_rest(rest, all)
        } else if has_prefix(all, chars_of("https://").as_slice()) {
            proof {
                reveal_strlit("https://");
            }
            let rest = slice(all, 8, n);
            assert(rest@ == remote@.skip(8));
            Repository::from_rest(rest, all)
        } else if has_prefix(all, chars_of("http://").as_slice()) {
            proof {
                reveal_strlit("http://");
            }
            let rest = slice(all, 7, n);
            assert(rest@ == remote@.skip(7));
            Repository::from_rest(rest, all)
        } else {
            None
        }
    }
}

/// The address of the repository's front page.
pub open spec fn base_url(repo: RepositoryView) -> Seq<char> {
    "https://"@ + repo.host + "/"@ + repo.owner + "/"@ + repo.name
}

/// The address of a commit.
pub open spec fn commit_link(repo: RepositoryView, sha: Seq<char>) -> Seq<char> {
    match repo.provider {
        Provider::GitHub | Provider::GitLab => base_url(repo) + "/commit/"@ + sha,
        Provider::Bitbucket => base_url(repo) + "/commits/"@ + sha,
        Provider::Other => Seq::empty(),
    }
}

/// The address of a tag.
pub open spec fn tag_link(repo: RepositoryView, tag: Seq<char>) -> Seq<char> {
    match repo.provider {
        Provider::GitHub | Provider::GitLab => base_url(repo) + "/releases/tag/"@ + tag,
        Provider::Bitbucket => base_url(repo) + "/src/"@ + tag,
        Provider::Other => Seq::empty(),
    }
}

/// The address of an issue.
pub open spec fn issue_link(repo: RepositoryView, num: u64) -> Seq<char> {
    match repo.provider {
        Provider::Other => Seq::empty(),
        _ => base_url(repo) + "/issues/"@ + decimal(num as nat),
    }
}

/// The address of a pull request, or of what the provider has in its place.
pub open spec fn pr_link(repo: RepositoryView, num: u64) -> Seq<char> {
    match repo.provider {
        Provider::GitHub => base_url(repo) + "/pull/"@ + decimal(num as nat),
        Provider::GitLab => base_url(repo) + "/merge_requests/"@ + decimal(num as nat),
        Provider::Bitbucket => base_url(repo) + "/pull-requests/"@ + decimal(num as nat),
        Provider::Other => Seq::empty(),
    }
}

/// The address of the comparison of two references. Bitbucket names the head
/// first.
pub open spec fn compare_link(repo: RepositoryView, base: Seq<char>, head: Seq<char>) -> Seq<
    char,
> {
    match repo.provider {
        Provider::GitHub | Provider::GitLab => base_url(repo) + "/compare/"@ + base + "..."@
            + head,
        Provider::Bitbucket => base_url(repo) + "/branches/compare/"@ + head + ".."@ + base,
        Provider::Other => Seq::empty(),
    }
}

/// The repository in short: host, colon, owner, slash, name.
pub open spec fn short_form(repo: RepositoryView) -> Seq<char> {
    repo.host + ":"@ + repo.owner + "/"@ + repo.name
}

/// The part of an address under which the provider keeps references of a
/// kind, if links to them are made. Issues are linked on every host.
pub open spec fn reference_segment(provider: Provider, kind: ReferenceKind) -> Option<Seq<char>> {
    match kind {
        ReferenceKind::PullRequest => match provider {
            Provider::GitHub => Some("pull"@),
            Provider::GitLab => Some("merge_requests"@),
            Provider::Bitbucket => Some("pull-requests"@),
            Provider::Other => None,
        },
        ReferenceKind::Issue => Some("issues"@),
        ReferenceKind::Hash => match provider {
            Provider::GitHub | Provider::GitLab => Some("commit"@),
            Provider::Bitbucket => Some("commits"@),
            Provider::Other => None,
        },
    }
}

/// The reference as the address names it: a hash as it is, a number without
/// the number signs before it.
pub open spec fn reference_target(kind: ReferenceKind, raw: Seq<char>) -> Seq<char> {
    match kind {
        ReferenceKind::Hash => raw,
        _ => without_leading(raw, '#'),
    }
}

/// A reference as it is shown: a markdown link where the repository is known
/// and the provider links references of this kind, else the reference alone.
pub open spec fn reference_text(
    repo: Option<RepositoryView>,
    kind: ReferenceKind,
    raw: Seq<char>,
) -> Seq<char> {
    match repo {
        None => raw,
        Some(r) => match reference_segment(r.provider, kind) {
            None => raw,
            Some(segment) => "["@ + raw + "]("@ + base_url(r) + "/"@ + segment + "/"@
                + reference_target(kind, raw) + ")"@,
        },
    }
}

/// The markdown link to the comparison between `from` and the head, which is
/// `v` where it is given and `to` else. None where the repository is not
/// known or its provider has no comparison.
pub open spec fn compare_changes_text(
    v: Option<Seq<char>>,
    from: Seq<char>,
    to: Seq<char>,
    repo: Option<RepositoryView>,
) -> Option<Seq<char>> {
    match repo {
        None => None,
        Some(r) => match r.provider {
            Provider::Other => None,
            _ => Some(
                "[compare changes]("@ + compare_link(
                    r,
                    from,
                    match v {
                        Some(head) => head,
                        None => to,
                    },
                ) + ")"@,
            ),
        },
    }
}

/// Adds the address of the repository's front page to `out`.
fn push_base(out: &mut Vec<char>, repo: &Repository)
    ensures
        final(out)@ == old(out)@ + base_url(repo@),
{
    let ghost before = out@;
    push_text(out, "https://");
    push_text(out, repo.host.as_str());
    push_text(out, "/");
    push_text(out, repo.owner.as_str());
    push_text(out, "/");
    push_text(out, repo.name.as_str());
    assert(out@ =~= before + base_url(repo@));
}

/// Adds the address of the comparison of two references to `out`.
fn push_compare(out: &mut Vec<char>, repo: &Repository, base: &str, head: &str)
    ensures
        final(out)@ == old(out)@ + compare_link(repo@, base@, head@),
{
    let ghost before = out@;
    match repo.provider {
        Provider::GitHub | Provider::GitLab => {
            push_base(out, repo);
            push_text(out, "/compare/");
            push_text(out, base);
            push_text(out, "...");
            push_text(out, head);
        },
        Provider::Bitbucket => {
            push_base(out, repo);
            push_text(out, "/branches/compare/");
            push_text(out, head);
            push_text(out, "..");
            push_text(out, base);
        },
        Provider::Other => {},
    }
    assert(out@ =~= before + compare_link(repo@, base@, head@));
}

impl Repository {
    /// The address of the commit `sha`; empty where the provider is not known.
    pub fn commit_url(&self, sha: &str) -> (r: String)
        ensures
            r@ == commit_link(self@, sha@),
    {
        let mut out: Vec<char> = Vec::new();
        match self.provider {
            Provider::GitHub | Provider::GitLab => {
                push_base(&mut out, self);
                push_text(&mut out, "/commit/");
                push_text(&mut out, sha);
            },
            Provider::Bitbucket => {
                push_base(&mut out, self);
                push_text(&mut out, "/commits/");
                push_text(&mut out, sha);
            },
            Provider::Other => {},
        }
        assert(out@ =~= commit_link(self@, sha@));
        string_of(out.as_slice())
    }

    /// The address of the tag `tag`; empty where the provider is not known.
    pub fn tag_url(&self, tag: &str) -> (r: String)
        ensures
            r@ == tag_link(self@, tag@),
    {
        let mut out: Vec<char> = Vec::new();
        match self.provider {
            Provider::GitHub | Provider::GitLab => {
                push_base(&mut out, self);
                push_text(&mut out, "/releases/tag/");
                push_text(&mut out, tag);
            },
            Provider::Bitbucket => {
                push_base(&mut out, self);
                push_text(&mut out, "/src/");
                push_text(&mut out, tag);
            },
            Provider::Other => {},
        }
        assert(out@ =~= tag_link(self@, tag@));
        string_of(out.as_slice())
    }

    /// The address of issue `num`; empty where the provider is not known.
    pub fn issue_url(&self, num: u64) -> (r: String)
        ensures
            r@ == issue_link(self@, num),
    {
        let mut out: Vec<char> = Vec::new();
        match self.provider {
            Provider::Other => {},
            _ => {
                push_base(&mut out, self);
                push_text(&mut out, "/issues/");
                push_decimal(&mut out, num);
            },
        }
        assert(out@ =~= issue_link(self@, num));
        string_of(out.as_slice())
    }

    /// The address of pull request `num`; empty where the provider is not
    /// known.
    pub fn pr_url(&self, num: u64) -> (r: String)
        ensures
            r@ == pr_link(self@, num),
    {
        let mut out: Vec<char> = Vec::new();
        match self.provider {
            Provider::GitHub => {
                push_base(&mut out, self);
                push_text(&mut out, "/pull/");
                push_decimal(&mut out, num);
            },
            Provider::GitLab => {
                push_base(&mut out, self);
                push_text(&mut out, "/merge_requests/");
                push_decimal(&mut out, num);
            },
            Provider::Bitbucket => {
                push_base(&mut out, self);
                push_text(&mut out, "/pull-requests/");
                push_decimal(&mut out, num);
            },
            Provider::Other => {},
        }
        assert(out@ =~= pr_link(self@, num));
        string_of(out.as_slice())
    }

    /// The address of the comparison of `base` and `head`; empty where the
    /// provider is not known.
    pub fn compare_url(&self, base: &str, head: &str) -> (r: String)
        ensures
            r@ == compare_link(self@, base@, head@),
    {
        let mut out: Vec<char> = Vec::new();
        push_compare(&mut out, self, base, head);
        assert(out@ =~= compare_link(self@, base@, head@));
        string_of(out.as_slice())
    }

    /// The repository in short: host, colon, owner, slash, name.
    pub fn to_string(&self) -> (r: String)
        ensures
            r@ == short_form(self@),
    {
        let mut out: Vec<char> = Vec::new();
        push_text(&mut out, self.host.as_str());
        push_text(&mut out, ":");
        push_text(&mut out, self.owner.as_str());
        push_text(&mut out, "/");
        push_text(&mut out, self.name.as_str());
        assert(out@ =~= short_form(self@));
        string_of(out.as_slice())
    }
}

/// The view of an optional repository.
pub open spec fn repository_option_view(repo: Option<&Repository>) -> Option<RepositoryView> {
    match repo {
        Some(r) => Some(r@),
        None => None,
    }
}

/// The part of an address under which the provider keeps references of a kind.
fn segment_of(provider: Provider, kind: ReferenceKind) -> (r: Option<&'static str>)
    ensures
        match r {
            Some(s) => reference_segment(provider, kind) == Some(s@),
            None => reference_segment(provider, kind) is None,
        },
{
    match kind {
        ReferenceKind::PullRequest => match provider {
            Provider::GitHub => Some("pull"),
            Provider::GitLab => Some("merge_requests"),
            Provider::Bitbucket => Some("pull-requests"),
            Provider::Other => None,
        },
        ReferenceKind::Issue => Some("issues"),
        ReferenceKind::Hash => match provider {
            Provider::GitHub | Provider::GitLab => Some("commit"),
            Provider::Bitbucket => Some("commits"),
            Provider::Other => None,
        },
    }
}

/// Shows a reference to an issue, a pull request or a commit: as a markdown
/// link into the repository where that can be made, else as it was given.
pub fn format_reference(repo: Option<&Repository>, kind: ReferenceKind, raw: &str) -> (r: String)
    ensures
        r@ == reference_text(repository_option_view(repo), kind, raw@),
{
    let repo = match repo {
        None => {
            return raw.to_owned();
        },
        Some(r) => r,
    };
    let segment = match segment_of(repo.provider, kind) {
        None => {
            return raw.to_owned();
        },
        Some(s) => s,
    };
    let chars = chars_of(raw);
    let target = match kind {
        ReferenceKind::Hash => chars.as_slice(),
        _ => strip_leading(chars.as_slice(), '#'),
    };
    let mut out: Vec<char> = Vec::new();
    push_text(&mut out, "[");
    push_text(&mut out, raw);
    push_text(&mut out, "](");
    push_base(&mut out, repo);
    push_text(&mut out, "/");
    push_text(&mut out, segment);
    push_text(&mut out, "/");
    out.extend_from_slice(target);
    push_text(&mut out, ")");
    assert(out@ =~= reference_text(Some(repo@), kind, raw@));
    string_of(out.as_slice())
}

/// The markdown link to the comparison between `from` and the head, which is
/// `v` where it is given and `to` else.
pub fn format_compare_changes(
    v: Option<&str>,
    from: &str,
    to: &str,
    repo: Option<&Repository>,
) -> (r: Option<String>)
    ensures
        crate::conventional::option_view(r) == compare_changes_text(
            match v {
                Some(head) => Some(head@),
                None => None,
            },
            from@,
            to@,
            repository_option_view(repo),
        ),
{
    let repo = match repo {
        None => {
            return None;
        },
        Some(r) => r,
    };
    let head = match v {
        Some(head) => head,
        None => to,
    };
    match repo.provider {
        Provider::Other => None,
        _ => {
            let mut out: Vec<char> = Vec::new();
            push_text(&mut out, "[compare changes](");
            push_compare(&mut out, repo, from, head);
            push_text(&mut out, ")");
            Some(string_of(out.as_slice()))
        },
    }
}

} // verus!
