//! The commit record handed over by the source-control layer.

use crate::conventional::option_view;
use crate::repository::{same_as, without_leading};
use crate::text::{chars_of, join_lines, join_lines_between, lemma_prefix_len_is, line_views, lines_of, push_text, slice, split_lines, string_of};
use crate::version::{semver_parse, Version};
use vstd::prelude::*;

verus! {

/// One commit as read from history: identifiers, the header line, the text
/// below it, and who wrote it when.
#[derive(Debug)]
pub struct RawCommit {
    pub id: String,
    pub short_id: String,
    pub summary: String,
    pub body: String,
    pub author_name: String,
    pub author_email: String,
    /// Seconds since the Unix epoch.
    pub timestamp: i64,
}

/// The texts of a `RawCommit` as character sequences.
pub struct RawCommitView {
    pub id: Seq<char>,
    pub short_id: Seq<char>,
    pub summary: Seq<char>,
    pub body: Seq<char>,
    pub author_name: Seq<char>,
    pub author_email: Seq<char>,
    pub timestamp: i64,
}

impl View for RawCommit {
    type V = RawCommitView;

    open spec fn view(&self) -> RawCommitView {
        RawCommitView {
            id: self.id@,
            short_id: self.short_id@,
            summary: self.summary@,
            body: self.body@,
            author_name: self.author_name@,
            author_email: self.author_email@,
            timestamp: self.timestamp,
        }
    }
}

impl Clone for RawCommit {
    fn clone(&self) -> (r: Self)
        ensures
            r == *self,
    {
        RawCommit {
            id: self.id.clone(),
            short_id: self.short_id.clone(),
            summary: self.summary.clone(),
            body: self.body.clone(),
            author_name: self.author_name.clone(),
            author_email: self.author_email.clone(),
            timestamp: self.timestamp,
        }
    }
}

/// The header of a commit message: its first line, or nothing where the
/// message has no line.
pub open spec fn message_summary(message: Seq<char>) -> Seq<char> {
    if split_lines(message).len() > 0 {
        split_lines(message)[0]
    } else {
        Seq::empty()
    }
}

/// The body of a commit message: the lines after the first, joined by line
/// feeds.
pub open spec fn message_body(message: Seq<char>) -> Seq<char> {
    if split_lines(message).len() > 0 {
        join_lines(split_lines(message).skip(1))
    } else {
        Seq::empty()
    }
}

/// The commit record for a commit with the given identifier, message and
/// author: the message split into header and body, and the first seven
/// characters of the identifier as the short one.
pub fn to_raw_commit(
    id: &str,
    message: &str,
    author_name: &str,
    author_email: &str,
    timestamp: i64,
) -> (r: RawCommit)
    requires
        id@.len() >= 7,
    ensures
        r@ == (RawCommitView {
            id: id@,
            short_id: id@.take(7),
            summary: message_summary(message@),
            body: message_body(message@),
            author_name: author_name@,
            author_email: author_email@,
            timestamp,
        }),
{
    let id_chars = chars_of(id);
    let text = chars_of(message);
    let lines = lines_of(text.as_slice());
    let ghost views = line_views(lines@);
    let (summary, body) = if lines.len() > 0 {
        assert(views[0] == lines@[0]@);
        assert(views.skip(1) == views.subrange(1, views.len() as int));
        (string_of(lines[0]), string_of(join_lines_between(&lines, 1, lines.len()).as_slice()))
    } else {
        (String::new(), String::new())
    };
    RawCommit {
        id: id.to_owned(),
        short_id: string_of(slice(id_chars.as_slice(), 0, 7)),
        summary,
        body,
        author_name: author_name.to_owned(),
        author_email: author_email.to_owned(),
        timestamp,
    }
}

/// A tag, and when the commit that it points at was made.
#[derive(Debug)]
pub struct TagInfo {
    pub name: String,
    /// Seconds since the Unix epoch.
    pub time: i64,
}

/// The version that a tag writes after the `v`s at its front.
pub open spec fn tag_version_text(name: Seq<char>) -> Seq<char> {
    without_leading(name, 'v')
}

/// Whether a tag writes a version.
pub open spec fn is_version_tag(name: Seq<char>) -> bool {
    semver_parse(tag_version_text(name)) is Ok
}

/// Whether the version that `a` writes comes after the one that `b` writes,
/// in the order of precedence that `semver` gives to versions. Not so where
/// either writes none.
pub uninterp spec fn semver_newer(a: Seq<char>, b: Seq<char>) -> bool;

/// `semver::Version::parse` on both texts, and `>` on what they write.
#[verifier::external_body]
fn version_is_newer(a: &str, b: &str) -> (r: bool)
    ensures
        r == semver_newer(a@, b@),
{
    match (semver::Version::parse(a), semver::Version::parse(b)) {
        (Ok(x), Ok(y)) => x > y,
        _ => false,
    }
}

/// Whether tag `a` replaces tag `b` as the latest: it points at a later
/// commit, or at one of the same time and writes the newer version.
pub open spec fn replaces(a: &TagInfo, b: &TagInfo) -> bool {
    a.time > b.time || (a.time == b.time && semver_newer(
        tag_version_text(a.name@),
        tag_version_text(b.name@),
    ))
}

/// Index of the latest version tag among the first `n` tags: each version
/// tag in turn takes the place of the latest so far if it replaces it.
pub open spec fn latest_tag(tags: Seq<TagInfo>, n: int) -> Option<int>
    decreases n,
{
    if n <= 0 || n > tags.len() {
        None
    } else if !is_version_tag(tags[n - 1].name@) {
        latest_tag(tags, n - 1)
    } else {
        match latest_tag(tags, n - 1) {
            Some(best) => if 0 <= best < tags.len() && replaces(&tags[n - 1], &tags[best]) {
                Some(n - 1)
            } else {
                Some(best)
            },
            None => Some(n - 1),
        }
    }
}

/// The text of a tag after the `v`s at its front.
pub fn version_text_of(name: &str) -> (r: String)
    ensures
        r@ == tag_version_text(name@),
{
    let chars = chars_of(name);
    let all = chars.as_slice();
    let mut i: usize = 0;
    while i < all.len() && all[i] == 'v'
        invariant
            i <= all@.len(),
            forall|k: int| 0 <= k < i ==> same_as('v')(#[trigger] all@[k]),
        decreases all@.len() - i,
    {
        i += 1;
    }
    proof {
        lemma_prefix_len_is(all@, same_as('v'), i as int);
    }
    string_of(slice(all, i, all.len()))
}

/// The name of the latest version tag: among the tags that write a version,
/// the one on the latest commit, and among those on commits of one time the
/// one with the newest version. None where no tag writes a version.
pub fn last_tag(tags: &Vec<TagInfo>) -> (r: Option<String>)
    ensures
        match latest_tag(tags@, tags@.len() as int) {
            Some(best) => 0 <= best < tags@.len() && r == Some(tags@[best].name),
            None => r is None,
        },
{
    let mut best: Option<(usize, String)> = None;
    let mut i: usize = 0;
    while i < tags.len()
        invariant
            i <= tags@.len(),
            match latest_tag(tags@, i as int) {
                Some(b) => 0 <= b < i && (best matches Some(found) && found.0 == b && found.1@
                    == tag_version_text(tags@[b].name@)),
                None => best is None,
            },
        decreases tags@.len() - i,
    {
        let text = version_text_of(tags[i].name.as_str());
        if Version::parse(text.as_str()).is_ok() {
            let wins = match &best {
                Some((b, best_text)) => tags[i].time > tags[*b].time || (tags[i].time
                    == tags[*b].time && version_is_newer(text.as_str(), best_text.as_str())),
                None => true,
            };
            if wins {
                best = Some((i, text));
            }
        }
        i += 1;
    }
    match best {
        Some((b, _)) => Some(tags[b].name.clone()),
        None => None,
    }
}

/// Where `HEAD` stands.
#[derive(Debug)]
pub enum HeadState {
    /// No commit was made yet.
    Unborn,
    /// On a branch, with its short name where it has one.
    Branch(Option<String>),
    /// On no branch: at the commit `oid`, which the tag `tag` points at, if
    /// one does.
    Detached { oid: Option<String>, tag: Option<String> },
}

/// The name of the reference that `HEAD` stands at: the branch, or the tag
/// that points at the commit, or `DETACHED@` and the commit.
pub open spec fn head_name(head: &HeadState) -> Option<Seq<char>> {
    match head {
        HeadState::Unborn => None,
        HeadState::Branch(name) => option_view(*name),
        HeadState::Detached { oid, tag } => match tag {
            Some(t) => Some(t@),
            None => Some(
                "DETACHED@"@ + match oid {
                    Some(o) => o@,
                    None => Seq::<char>::empty(),
                },
            ),
        },
    }
}

/// The name of the reference that `HEAD` stands at.
pub fn current_ref(head: &HeadState) -> (r: Option<String>)
    ensures
        option_view(r) == head_name(head),
{
    match head {
        HeadState::Unborn => None,
        HeadState::Branch(name) => match name {
            Some(n) => Some(n.clone()),
            None => None,
        },
        HeadState::Detached { oid, tag } => match tag {
            Some(t) => Some(t.clone()),
            None => {
                let mut out: Vec<char> = Vec::new();
                push_text(&mut out, "DETACHED@");
                match oid {
                    Some(o) => {
                        push_text(&mut out, o.as_str());
                    },
                    None => {},
                }
                Some(string_of(out.as_slice()))
            },
        },
    }
}

/// A remote of the repository, with its address where it has one.
#[derive(Debug)]
pub struct RemoteInfo {
    pub name: String,
    pub url: Option<String>,
}

/// The address of the first remote called `origin`, if it has one.
pub open spec fn origin_url(remotes: Seq<RemoteInfo>) -> Option<Seq<char>>
    decreases remotes.len(),
{
    if remotes.len() == 0 {
        None
    } else if remotes[0].name@ == "origin"@ {
        option_view(remotes[0].url)
    } else {
        origin_url(remotes.drop_first())
    }
}

/// The address of the first remote that has one.
pub open spec fn first_url(remotes: Seq<RemoteInfo>) -> Option<Seq<char>>
    decreases remotes.len(),
{
    if remotes.len() == 0 {
        None
    } else if remotes[0].url is Some {
        option_view(remotes[0].url)
    } else {
        first_url(remotes.drop_first())
    }
}

/// The address under which the repository is hosted: that of `origin` where
/// it has one, else that of the first remote that has one.
pub open spec fn hosted_at(remotes: Seq<RemoteInfo>) -> Option<Seq<char>> {
    match origin_url(remotes) {
        Some(url) => Some(url),
        None => first_url(remotes),
    }
}

/// The address of the first remote called `origin`, if it has one.
fn find_origin(remotes: &Vec<RemoteInfo>) -> (r: Option<String>)
    ensures
        option_view(r) == origin_url(remotes@),
{
    let mut i: usize = 0;
    assert(remotes@.skip(0) == remotes@);
    while i < remotes.len()
        invariant
            i <= remotes@.len(),
            origin_url(remotes@) == origin_url(remotes@.skip(i as int)),
        decreases remotes@.len() - i,
    {
        proof {
            let rest = remotes@.skip(i as int);
            assert(rest[0] == remotes@[i as int]);
            assert(rest.drop_first() == remotes@.skip(i + 1));
        }
        if crate::text::same_text(remotes[i].name.as_str(), "origin") {
            return match &remotes[i].url {
                Some(u) => Some(u.clone()),
                None => None,
            };
        }
        i += 1;
    }
    None
}

/// The address under which the repository is hosted.
pub fn pick_remote_url(remotes: &Vec<RemoteInfo>) -> (r: Option<String>)
    ensures
        option_view(r) == hosted_at(remotes@),
{
    match find_origin(remotes) {
        Some(url) => Some(url),
        None => {
            let mut i: usize = 0;
            assert(remotes@.skip(0) == remotes@);
            while i < remotes.len()
                invariant
                    i <= remotes@.len(),
                    origin_url(remotes@) is None,
                    first_url(remotes@) == first_url(remotes@.skip(i as int)),
                decreases remotes@.len() - i,
            {
                proof {
                    let rest = remotes@.skip(i as int);
                    assert(rest[0] == remotes@[i as int]);
                    assert(rest.drop_first() == remotes@.skip(i + 1));
                }
                match &remotes[i].url {
                    Some(u) => {
                        assert(first_url(remotes@.skip(i as int)) == Some(u@));
                        return Some(u.clone());
                    },
                    None => {},
                }
                i += 1;
            }
            None
        },
    }
}

} // verus!
