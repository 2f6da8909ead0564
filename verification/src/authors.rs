//! The authors of a change set: each person once, in the order of first
//! appearance, after normalisation, aliasing and exclusion.

use crate::config::TextMap;
use crate::eco::{authors_from, authors_in, held_authors, held_texts, texts_from, texts_in};
use crate::conventional::{option_view, string_views};
use crate::parse::{commit_views, ParsedCommit, ParsedCommitView};
use crate::text::{chars_of, rfind, rfind_char_end, same_chars, slice, string_of, trim, trim_of};
use ecow::EcoVec;
use unicode_normalization::UnicodeNormalization;
use vstd::prelude::*;

verus! {

/// A person who wrote commits.
#[derive(Debug, Clone, PartialEq, Eq, Hash)]
pub struct Author {
    pub name: String,
    /// The address, unless addresses are hidden or there is none.
    pub email: Option<String>,
}

/// An `Author` over character sequences.
pub struct AuthorView {
    pub name: Seq<char>,
    pub email: Option<Seq<char>>,
}

impl View for Author {
    type V = AuthorView;

    open spec fn view(&self) -> AuthorView {
        AuthorView { name: self.name@, email: option_view(self.email) }
    }
}

/// The authors of a change set.
#[derive(Debug, Clone)]
pub struct Authors {
    /// Each author once, in the order of first appearance.
    pub list: EcoVec<Author>,
    /// Whether the list was left empty on purpose.
    pub suppressed: bool,
}

/// How authors are gathered and shown.
#[derive(Debug)]
pub struct AuthorOptions {
    /// Names and addresses of authors to leave out.
    pub exclude: EcoVec<String>,
    pub hide_author_email: bool,
    pub no_authors: bool,
    /// Names and addresses to replace by others.
    pub aliases: TextMap,
    pub github_token: Option<String>,
    pub enable_github_aliasing: bool,
}

impl Default for AuthorOptions {
    fn default() -> (r: AuthorOptions)
        ensures
            held_texts(r.exclude).len() == 0,
            !r.hide_author_email,
            !r.no_authors,
            r.aliases.wf(),
            forall|k: Seq<char>| r.aliases.lookup(k) is None,
            r.github_token is None,
            !r.enable_github_aliasing,
    {
        AuthorOptions {
            exclude: texts_from(Vec::new()),
            hide_author_email: false,
            no_authors: false,
            aliases: TextMap::new(),
            github_token: None,
            enable_github_aliasing: false,
        }
    }
}

/// The views of a list of authors.
pub open spec fn author_views(list: Seq<Author>) -> Seq<AuthorView> {
    Seq::new(list.len(), |i: int| list[i]@)
}

/// The canonical composition (NFC) of a text, as the tables of
/// `unicode_normalization` give it.
pub uninterp spec fn nfc(text: Seq<char>) -> Seq<char>;

/// `UnicodeNormalization::nfc` over the characters of `text`, collected.
#[verifier::external_body]
fn normalize(text: &[char]) -> (r: Vec<char>)
    ensures
        r@ == nfc(text@),
{
    text.iter().copied().nfc().collect()
}

/// What `key` stands for after aliasing.
pub open spec fn aliased(aliases: &TextMap, key: Seq<char>) -> Seq<char> {
    match aliases.lookup(key) {
        Some(to) => to,
        None => key,
    }
}

/// The name under which an author is known: trimmed, composed, aliased.
pub open spec fn known_name(name: Seq<char>, aliases: &TextMap) -> Seq<char> {
    aliased(aliases, nfc(trim(name)))
}

/// The address under which an author is known, if the author has one:
/// trimmed, composed, aliased.
pub open spec fn known_email(email: Seq<char>, aliases: &TextMap) -> Option<Seq<char>> {
    if trim(email).len() == 0 {
        None
    } else {
        Some(aliased(aliases, nfc(trim(email))))
    }
}

/// Whether an author is left out: by name, or by address.
pub open spec fn is_excluded(
    exclude: Seq<Seq<char>>,
    name: Seq<char>,
    email: Option<Seq<char>>,
) -> bool {
    exclude.contains(name) || (email is Some && exclude.contains(email->0))
}

/// The authors gathered so far, and the identities that were seen.
pub struct Gathered {
    pub list: Seq<AuthorView>,
    pub seen: Seq<(Seq<char>, Option<Seq<char>>)>,
}

/// The authors after one more person was met. Someone who is excluded, or
/// who was seen under the same name and address before, adds nothing.
pub open spec fn add_author(
    g: Gathered,
    name: Seq<char>,
    email: Seq<char>,
    opts: &AuthorOptions,
) -> Gathered {
    let id = (known_name(name, &opts.aliases), known_email(email, &opts.aliases));
    if is_excluded(string_views(held_texts(opts.exclude)), id.0, id.1) || g.seen.contains(id) {
        g
    } else {
        Gathered {
            list: g.list.push(
                AuthorView {
                    name: id.0,
                    email: if opts.hide_author_email {
                        None
                    } else {
                        id.1
                    },
                },
            ),
            seen: g.seen.push(id),
        }
    }
}

/// Name and address of a co-author line `Name <address>`: what stands before
/// the last `<`, trimmed, and what stands between it and the last `>`. None
/// where the line has no `<` with a `>` after it.
pub open spec fn co_author_parts(line: Seq<char>) -> Option<(Seq<char>, Seq<char>)> {
    let t = trim(line);
    let open = rfind(t, '<');
    let close = rfind(t, '>');
    if 0 <= open < close {
        Some((trim(t.take(open)), t.subrange(open + 1, close)))
    } else {
        None
    }
}

/// The authors after the co-author lines of a commit.
pub open spec fn add_co_authors(g: Gathered, lines: Seq<Seq<char>>, opts: &AuthorOptions)
    -> Gathered
    decreases lines.len(),
{
    if lines.len() == 0 {
        g
    } else {
        let before = add_co_authors(g, lines.drop_last(), opts);
        match co_author_parts(lines.last()) {
            Some(parts) => add_author(before, parts.0, parts.1, opts),
            None => before,
        }
    }
}

/// The authors after a commit: its author, then its co-authors.
pub open spec fn add_commit(g: Gathered, commit: ParsedCommitView, opts: &AuthorOptions)
    -> Gathered {
    add_co_authors(
        add_author(g, commit.raw.author_name, commit.raw.author_email, opts),
        commit.co_authors,
        opts,
    )
}

/// The authors of a list of commits.
pub open spec fn gather(commits: Seq<ParsedCommitView>, opts: &AuthorOptions) -> Gathered
    decreases commits.len(),
{
    if commits.len() == 0 {
        Gathered { list: Seq::empty(), seen: Seq::empty() }
    } else {
        add_commit(gather(commits.drop_last(), opts), commits.last(), opts)
    }
}

/// Whether every author stands for one identity that was seen, and no
/// identity was seen twice.
pub open spec fn each_once(g: Gathered) -> bool {
    g.list.len() == g.seen.len() && g.seen.no_duplicates()
}

/// One more person keeps each author once.
proof fn lemma_add_author_once(g: Gathered, name: Seq<char>, email: Seq<char>, opts: &AuthorOptions)
    requires
        each_once(g),
    ensures
        each_once(add_author(g, name, email, opts)),
{
    let id = (known_name(name, &opts.aliases), known_email(email, &opts.aliases));
    let after = add_author(g, name, email, opts);
    if after != g {
        assert(after.seen == g.seen.push(id));
        assert forall|i: int, j: int|
            0 <= i < after.seen.len() && 0 <= j < after.seen.len() && i != j implies after.seen[i]
            != after.seen[j] by {
            if i < g.seen.len() && j < g.seen.len() {
                assert(after.seen[i] == g.seen[i] && after.seen[j] == g.seen[j]);
            } else if i < g.seen.len() {
                assert(g.seen[i] == after.seen[i]);
                assert(g.seen.contains(g.seen[i]));
            } else {
                assert(g.seen[j] == after.seen[j]);
                assert(g.seen.contains(g.seen[j]));
            }
        }
    }
}

/// The co-authors of a commit keep each author once.
proof fn lemma_add_co_authors_once(g: Gathered, lines: Seq<Seq<char>>, opts: &AuthorOptions)
    requires
        each_once(g),
    ensures
        each_once(add_co_authors(g, lines, opts)),
    decreases lines.len(),
{
    if lines.len() > 0 {
        lemma_add_co_authors_once(g, lines.drop_last(), opts);
        match co_author_parts(lines.last()) {
            Some(parts) => {
                lemma_add_author_once(
                    add_co_authors(g, lines.drop_last(), opts),
                    parts.0,
                    parts.1,
                    opts,
                );
            },
            None => {},
        }
    }
}

/// Among the authors of a change set each person stands once: no two were
/// gathered under the same name and address.
pub proof fn lemma_gathered_once(commits: Seq<ParsedCommitView>, opts: &AuthorOptions)
    ensures
        each_once(gather(commits, opts)),
    decreases commits.len(),
{
    if commits.len() > 0 {
        let before = gather(commits.drop_last(), opts);
        lemma_gathered_once(commits.drop_last(), opts);
        let c = commits.last();
        lemma_add_author_once(before, c.raw.author_name, c.raw.author_email, opts);
        lemma_add_co_authors_once(
            add_author(before, c.raw.author_name, c.raw.author_email, opts),
            c.co_authors,
            opts,
        );
    }
}

/// An identity as it is held while gathering.
pub struct Identity {
    pub name: Vec<char>,
    pub email: Option<Vec<char>>,
}

impl View for Identity {
    type V = (Seq<char>, Option<Seq<char>>);

    open spec fn view(&self) -> (Seq<char>, Option<Seq<char>>) {
        (
            self.name@,
            match self.email {
                Some(e) => Some(e@),
                None => None,
            },
        )
    }
}

/// The views of a list of identities.
pub open spec fn identity_views(ids: Seq<Identity>) -> Seq<(Seq<char>, Option<Seq<char>>)> {
    Seq::new(ids.len(), |i: int| ids[i]@)
}

/// What `key` stands for after aliasing.
fn apply_alias(aliases: &TextMap, key: Vec<char>) -> (r: Vec<char>)
    ensures
        r@ == aliased(aliases, key@),
{
    match aliases.get_chars(key.as_slice()) {
        Some(to) => chars_of(to.as_str()),
        None => key,
    }
}

/// Whether `exclude` holds `text`.
fn holds(exclude: &[String], text: &[char]) -> (r: bool)
    ensures
        r == string_views(exclude@).contains(text@),
{
    let ghost views = string_views(exclude@);
    let mut i: usize = 0;
    while i < exclude.len()
        invariant
            i <= exclude@.len(),
            views == string_views(exclude@),
            forall|j: int| 0 <= j < i ==> views[j] != text@,
        decreases exclude@.len() - i,
    {
        let entry = chars_of(exclude[i].as_str());
        assert(views[i as int] == exclude@[i as int]@);
        if same_chars(entry.as_slice(), text) {
            return true;
        }
        i += 1;
    }
    false
}

/// Whether an author is left out.
fn excluded(opts: &AuthorOptions, id: &Identity) -> (r: bool)
    ensures
        r == is_excluded(string_views(held_texts(opts.exclude)), id@.0, id@.1),
{
    let exclude = texts_in(&opts.exclude);
    if holds(exclude, id.name.as_slice()) {
        return true;
    }
    match &id.email {
        Some(e) => holds(exclude, e.as_slice()),
        None => false,
    }
}

/// Whether two identities are the same.
fn same_identity(a: &Identity, b: &Identity) -> (r: bool)
    ensures
        r == (a@ == b@),
{
    if !same_chars(a.name.as_slice(), b.name.as_slice()) {
        return false;
    }
    match (&a.email, &b.email) {
        (Some(x), Some(y)) => same_chars(x.as_slice(), y.as_slice()),
        (None, None) => true,
        _ => false,
    }
}

/// Whether `id` was seen.
fn was_seen(seen: &Vec<Identity>, id: &Identity) -> (r: bool)
    ensures
        r == identity_views(seen@).contains(id@),
{
    let ghost views = identity_views(seen@);
    let mut i: usize = 0;
    while i < seen.len()
        invariant
            i <= seen@.len(),
            views == identity_views(seen@),
            forall|j: int| 0 <= j < i ==> views[j] != id@,
        decreases seen@.len() - i,
    {
        assert(views[i as int] == seen@[i as int]@);
        if same_identity(&seen[i], id) {
            return true;
        }
        i += 1;
    }
    false
}

/// Adds one person to the authors, unless excluded or seen before.
fn push_author(
    out: &mut Vec<Author>,
    seen: &mut Vec<Identity>,
    name: &[char],
    email: &[char],
    opts: &AuthorOptions,
)
    ensures
        (Gathered { list: author_views(final(out)@), seen: identity_views(final(seen)@) })
            == add_author(
            Gathered { list: author_views(old(out)@), seen: identity_views(old(seen)@) },
            name@,
            email@,
            opts,
        ),
{
    let ghost list_before = author_views(out@);
    let ghost seen_before = identity_views(seen@);
    let known = apply_alias(&opts.aliases, normalize(trim_of(name)));
    let address = trim_of(email);
    let known_address = if address.len() == 0 {
        None
    } else {
        Some(apply_alias(&opts.aliases, normalize(address)))
    };
    let id = Identity { name: known, email: known_address };
    assert(id@ == (known_name(name@, &opts.aliases), known_email(email@, &opts.aliases)));
    if excluded(opts, &id) {
        return;
    }
    if was_seen(seen, &id) {
        return;
    }
    let shown = if opts.hide_author_email {
        None
    } else {
        match &id.email {
            Some(e) => Some(string_of(e.as_slice())),
            None => None,
        }
    };
    let author = Author { name: string_of(id.name.as_slice()), email: shown };
    out.push(author);
    seen.push(id);
    assert(author_views(out@) =~= list_before.push(author@));
    assert(identity_views(seen@) =~= seen_before.push(id@));
}

/// Parse a co-author line in the format `Name <email>`.
pub fn parse_co_author_line(line: &str) -> (r: Option<(String, String)>)
    ensures
        match r {
            Some(parts) => co_author_parts(line@) == Some((parts.0@, parts.1@)),
            None => co_author_parts(line@) is None,
        },
{
    let chars = chars_of(line);
    match co_author_split(chars.as_slice()) {
        Some((name, email)) => Some((string_of(name), string_of(email))),
        None => None,
    }
}

/// Name and address of a co-author line, as parts of the line.
fn co_author_split<'a>(line: &'a [char]) -> (r: Option<(&'a [char], &'a [char])>)
    ensures
        match r {
            Some(parts) => co_author_parts(line@) == Some((parts.0@, parts.1@)),
            None => co_author_parts(line@) is None,
        },
{
    let t = trim_of(line);
    let open_end = rfind_char_end(t, '<');
    let close_end = rfind_char_end(t, '>');
    if open_end > 0 && close_end > open_end {
        let name = trim_of(slice(t, 0, open_end - 1));
        let email = slice(t, open_end, close_end - 1);
        Some((name, email))
    } else {
        None
    }
}

impl Authors {
    /// The authors of `commits`: for each commit its author, then its
    /// co-authors; each person once, in the order of first appearance. With
    /// `no_authors` the list is left empty and marked as suppressed.
    pub fn collect(commits: &[ParsedCommit], opts: &AuthorOptions) -> (r: Authors)
        ensures
            opts.no_authors ==> r.suppressed && held_authors(r.list).len() == 0,
            !opts.no_authors ==> !r.suppressed && author_views(held_authors(r.list)) == gather(
                commit_views(commits@),
                opts,
            ).list,
    {
        if opts.no_authors {
            return Authors { list: authors_from(Vec::new()), suppressed: true };
        }
        let ghost views = commit_views(commits@);
        let mut out: Vec<Author> = Vec::new();
        let mut seen: Vec<Identity> = Vec::new();
        let mut i: usize = 0;
        assert(views.take(0) == Seq::<ParsedCommitView>::empty());
        assert(author_views(out@) =~= Seq::<AuthorView>::empty());
        assert(identity_views(seen@) =~= Seq::<(Seq<char>, Option<Seq<char>>)>::empty());
        while i < commits.len()
            invariant
                i <= commits@.len(),
                views == commit_views(commits@),
                (Gathered { list: author_views(out@), seen: identity_views(seen@) }) == gather(
                    views.take(i as int),
                    opts,
                ),
            decreases commits@.len() - i,
        {
            proof {
                let next = views.take(i + 1);
                assert(next.drop_last() == views.take(i as int));
                assert(next.last() == commits@[i as int]@);
            }
            let c = &commits[i];
            let name = chars_of(c.raw.author_name.as_str());
            let email = chars_of(c.raw.author_email.as_str());
            push_author(&mut out, &mut seen, name.as_slice(), email.as_slice(), opts);
            let co_authors = texts_in(&c.co_authors);
            let ghost lines = string_views(co_authors@);
            let ghost start = Gathered {
                list: author_views(out@),
                seen: identity_views(seen@),
            };
            let mut j: usize = 0;
            assert(lines.take(0) == Seq::<Seq<char>>::empty());
            while j < co_authors.len()
                invariant
                    j <= co_authors@.len(),
                    lines == string_views(co_authors@),
                    (Gathered { list: author_views(out@), seen: identity_views(seen@) })
                        == add_co_authors(start, lines.take(j as int), opts),
                decreases co_authors@.len() - j,
            {
                proof {
                    let next = lines.take(j + 1);
                    assert(next.drop_last() == lines.take(j as int));
                    assert(next.last() == co_authors@[j as int]@);
                }
                let line = chars_of(co_authors[j].as_str());
                match co_author_split(line.as_slice()) {
                    Some((co_name, co_email)) => {
                        push_author(&mut out, &mut seen, co_name, co_email, opts);
                    },
                    None => {},
                }
                j += 1;
            }
            assert(lines.take(j as int) == lines);
            i += 1;
        }
        assert(views.take(i as int) == views);
        Authors { list: authors_from(out), suppressed: false }
    }
}

/// The names after handles were found for some authors: the author at the
/// place that a pair names, if there is one, takes the handle of the pair.
/// Later pairs override earlier ones.
pub open spec fn with_handles(list: Seq<AuthorView>, found: Seq<(usize, Option<String>)>) -> Seq<
    AuthorView,
>
    decreases found.len(),
{
    if found.len() == 0 {
        list
    } else {
        let before = with_handles(list, found.drop_last());
        match found.last().1 {
            Some(handle) => if found.last().0 < before.len() {
                before.update(
                    found.last().0 as int,
                    AuthorView { name: handle@, email: before[found.last().0 as int].email },
                )
            } else {
                before
            },
            None => before,
        }
    }
}

/// The places and addresses of the authors that have an address.
pub open spec fn addresses(list: Seq<AuthorView>) -> Seq<(usize, Seq<char>)>
    decreases list.len(),
{
    if list.len() == 0 {
        Seq::empty()
    } else {
        match list.last().email {
            Some(e) => addresses(list.drop_last()).push(((list.len() - 1) as usize, e)),
            None => addresses(list.drop_last()),
        }
    }
}

/// The views of a list of places with addresses.
pub open spec fn address_views(found: Seq<(usize, String)>) -> Seq<(usize, Seq<char>)> {
    Seq::new(found.len(), |i: int| (found[i].0, found[i].1@))
}

impl Authors {
    /// The authors whose handles can be looked up: place and address of each
    /// author that has an address, in the order of the list.
    pub fn emails_to_resolve(&self) -> (r: Vec<(usize, String)>)
        ensures
            address_views(r@) == addresses(author_views(held_authors(self.list))),
    {
        let list = authors_in(&self.list);
        let ghost views = author_views(list@);
        let mut out: Vec<(usize, String)> = Vec::new();
        let mut i: usize = 0;
        assert(views.take(0) == Seq::<AuthorView>::empty());
        assert(address_views(out@) =~= Seq::<(usize, Seq<char>)>::empty());
        while i < list.len()
            invariant
                i <= list@.len(),
                views == author_views(list@),
                address_views(out@) == addresses(views.take(i as int)),
            decreases list@.len() - i,
        {
            proof {
                let next = views.take(i + 1);
                assert(next.drop_last() == views.take(i as int));
                assert(next.last() == list@[i as int]@);
            }
            match &list[i].email {
                Some(e) => {
                    let ghost before = address_views(out@);
                    out.push((i, e.clone()));
                    assert(address_views(out@) =~= before.push((i, e@)));
                },
                None => {},
            }
            i += 1;
        }
        assert(views.take(i as int) == views);
        out
    }

    /// Shows the authors for whom a handle was found by that handle. `found`
    /// holds, for places in the list, the handle that the look-up gave, or
    /// none.
    pub fn apply_handles(&mut self, found: &Vec<(usize, Option<String>)>)
        ensures
            author_views(held_authors(final(self).list)) == with_handles(
                author_views(held_authors(old(self).list)),
                found@,
            ),
            final(self).suppressed == old(self).suppressed,
    {
        let mut list = copy_authors(authors_in(&self.list));
        let ghost start = author_views(list@);
        let mut i: usize = 0;
        assert(found@.take(0) == Seq::<(usize, Option<String>)>::empty());
        while i < found.len()
            invariant
                i <= found@.len(),
                author_views(list@) == with_handles(start, found@.take(i as int)),
            decreases found@.len() - i,
        {
            proof {
                let next = found@.take(i + 1);
                assert(next.drop_last() == found@.take(i as int));
                assert(next.last() == found@[i as int]);
            }
            let place = found[i].0;
            match &found[i].1 {
                Some(handle) => {
                    if place < list.len() {
                        let ghost before = author_views(list@);
                        let email = match &list[place].email {
                            Some(e) => Some(e.clone()),
                            None => None,
                        };
                        assert(option_view(email) == before[place as int].email);
                        list.set(place, Author { name: handle.clone(), email });
                        assert(author_views(list@) =~= before.update(
                            place as int,
                            AuthorView { name: handle@, email: before[place as int].email },
                        ));
                    }
                },
                None => {},
            }
            i += 1;
        }
        assert(found@.take(i as int) == found@);
        self.list = authors_from(list);
    }
}

/// A copy of a list of authors.
fn copy_authors(list: &[Author]) -> (r: Vec<Author>)
    ensures
        author_views(r@) == author_views(list@),
{
    let mut out: Vec<Author> = Vec::new();
    let mut i: usize = 0;
    while i < list.len()
        invariant
            i <= list@.len(),
            out@.len() == i,
            forall|j: int| 0 <= j < i ==> (#[trigger] out@[j])@ == list@[j]@,
        decreases list@.len() - i,
    {
        let email = match &list[i].email {
            Some(e) => Some(e.clone()),
            None => None,
        };
        out.push(Author { name: list[i].name.clone(), email });
        i += 1;
    }
    assert(author_views(out@) =~= author_views(list@));
    out
}

} // verus!
