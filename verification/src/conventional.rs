//! Parser for conventional commits: header, body, footers and issue
//! references, recovered from the two texts of a commit.

use crate::eco::{held_numbers, numbers_from, held_pairs, pairs_from, held_texts, texts_from};
use crate::footers::{
    any_breaking, co_author_values, co_authors_of, find_footer_start, footer_start, footers_break,
    footers_of, pair_views, read_footers, text_views,
};
use crate::git::RawCommit;
use crate::issues::{
    issue_refs, issue_refs_of, lemma_sorted_unique, sorted_unique, sorted_unique_of,
    strictly_ascending,
};
use crate::text::{ascii_alphabetic, ascii_whitespace, char_is_ascii_alphabetic, char_is_ascii_whitespace, chars_of, copy_of, find, find_char, is_ascii_lowercase, join_lines, join_lines_of, is_ascii_alphabetic, lemma_prefix_len_is, lemma_prefix_len_run, lines_of, lower, lower_of, other_than, prefix_len, slice, split_lines, string_of, trim, trim_of, whitespace};
use ecow::EcoVec;
use vstd::prelude::*;

verus! {

/// What a commit's header line says.
pub struct HeaderView {
    pub commit_type: Seq<char>,
    pub scope: Option<Seq<char>>,
    pub breaking: bool,
    pub description: Seq<char>,
}

/// Length of the run of ASCII letters that opens `h`.
pub open spec fn type_len(h: Seq<char>) -> int {
    prefix_len(h, ascii_alphabetic()) as int
}

/// Whether a parenthesis opens right after the type.
pub open spec fn scope_opens(h: Seq<char>) -> bool {
    type_len(h) < h.len() && h[type_len(h)] == '('
}

/// What follows the opening parenthesis.
pub open spec fn scope_rest(h: Seq<char>) -> Seq<char> {
    h.skip(type_len(h) + 1)
}

/// Whether the parenthesis that opens after the type is closed again.
pub open spec fn scope_closes(h: Seq<char>) -> bool {
    scope_opens(h) && find(scope_rest(h), ')') < scope_rest(h).len()
}

/// Where the header goes on after type and scope. An opening parenthesis that
/// is never closed is passed over alone.
pub open spec fn after_scope(h: Seq<char>) -> int {
    if scope_closes(h) {
        type_len(h) + 1 + find(scope_rest(h), ')') + 1
    } else if scope_opens(h) {
        type_len(h) + 1
    } else {
        type_len(h)
    }
}

/// Whether an exclamation mark follows type and scope.
pub open spec fn header_breaking(h: Seq<char>) -> bool {
    after_scope(h) < h.len() && h[after_scope(h)] == '!'
}

/// Where the header goes on after the exclamation mark, if there is one.
pub open spec fn after_bang(h: Seq<char>) -> int {
    if header_breaking(h) {
        after_scope(h) + 1
    } else {
        after_scope(h)
    }
}

/// Where the header goes on after the colon, if there is one.
pub open spec fn after_colon(h: Seq<char>) -> int {
    if after_bang(h) < h.len() && h[after_bang(h)] == ':' {
        after_bang(h) + 1
    } else {
        after_bang(h)
    }
}

/// The header read as `type(scope)!: description`, each part optional but the
/// last: the type in small letters or `other`, the scope between the first
/// pair of parentheses, the description trimmed.
pub open spec fn parse_header(h: Seq<char>) -> HeaderView {
    HeaderView {
        commit_type: if type_len(h) > 0 {
            lower(h.take(type_len(h)))
        } else {
            "other"@
        },
        scope: if scope_closes(h) {
            Some(scope_rest(h).take(find(scope_rest(h), ')')))
        } else {
            None
        },
        breaking: header_breaking(h),
        description: trim(
            h.skip(after_colon(h)).skip(
                prefix_len(h.skip(after_colon(h)), ascii_whitespace()) as int,
            ),
        ),
    }
}

/// The parts of a header, the scope and the description as parts of the
/// header's own text.
pub struct HeaderParts<'a> {
    pub commit_type: Vec<char>,
    pub scope: Option<&'a [char]>,
    pub breaking: bool,
    pub description: &'a [char],
}

impl<'a> View for HeaderParts<'a> {
    type V = HeaderView;

    open spec fn view(&self) -> HeaderView {
        HeaderView {
            commit_type: self.commit_type@,
            scope: match self.scope {
                Some(s) => Some(s@),
                None => None,
            },
            breaking: self.breaking,
            description: self.description@,
        }
    }
}

/// Length of the run of ASCII letters that opens `h`.
fn read_type_len(h: &[char]) -> (pos: usize)
    ensures
        pos == type_len(h@),
        pos <= h@.len(),
{
    let n = h.len();
    let mut pos: usize = 0;
    while pos < n && char_is_ascii_alphabetic(h[pos])
        invariant
            n == h@.len(),
            pos <= n,
            forall|j: int| 0 <= j < pos ==> ascii_alphabetic()(#[trigger] h@[j]),
        decreases n - pos,
    {
        pos += 1;
    }
    proof {
        lemma_prefix_len_is(h@, ascii_alphabetic(), pos as int);
    }
    pos
}

/// The scope that opens at `pos`, if one does, and where the header goes on.
fn read_scope<'a>(h: &'a [char], pos: usize) -> (r: (Option<&'a [char]>, usize))
    requires
        pos == type_len(h@),
        pos <= h@.len(),
    ensures
        r.1 == after_scope(h@),
        r.1 <= h@.len(),
        scope_closes(h@) ==> r.0 is Some && r.0->0@ == scope_rest(h@).take(
            find(scope_rest(h@), ')'),
        ),
        !scope_closes(h@) ==> r.0 is None,
{
    let n = h.len();
    if pos < n && h[pos] == '(' {
        let rest = slice(h, pos + 1, n);
        assert(rest@ == scope_rest(h@));
        let k = find_char(rest, ')');
        if k < rest.len() {
            (Some(slice(rest, 0, k)), pos + 1 + k + 1)
        } else {
            (None, pos + 1)
        }
    } else {
        (None, pos)
    }
}

/// Passes over an exclamation mark and a colon at `pos`.
fn read_marks(h: &[char], pos: usize) -> (r: (bool, usize))
    requires
        pos == after_scope(h@),
        pos <= h@.len(),
    ensures
        r.0 == header_breaking(h@),
        r.1 == after_colon(h@),
        r.1 <= h@.len(),
{
    let n = h.len();
    let mut pos = pos;
    let mut breaking = false;
    if pos < n && h[pos] == '!' {
        breaking = true;
        pos += 1;
    }
    if pos < n && h[pos] == ':' {
        pos += 1;
    }
    (breaking, pos)
}

/// What follows `start`, without ASCII whitespace at its front and trimmed.
fn read_description<'a>(h: &'a [char], start: usize) -> (r: &'a [char])
    requires
        start <= h@.len(),
    ensures
        r@ == trim(
            h@.skip(start as int).skip(prefix_len(h@.skip(start as int), ascii_whitespace()) as int),
        ),
{
    let n = h.len();
    let mut pos = start;
    while pos < n && char_is_ascii_whitespace(h[pos])
        invariant
            n == h@.len(),
            start <= pos <= n,
            forall|j: int| start <= j < pos ==> ascii_whitespace()(#[trigger] h@[j]),
        decreases n - pos,
    {
        pos += 1;
    }
    proof {
        let tail = h@.skip(start as int);
        assert forall|j: int| 0 <= j < pos - start implies ascii_whitespace()(
            #[trigger] tail[j],
        ) by {
            assert(tail[j] == h@[start + j]);
        }
        lemma_prefix_len_is(tail, ascii_whitespace(), pos - start);
        assert(tail.skip(pos - start) == h@.skip(pos as int));
    }
    trim_of(slice(h, pos, n))
}

/// Reads a header line.
pub fn read_header<'a>(h: &'a [char]) -> (r: HeaderParts<'a>)
    ensures
        r@ == parse_header(h@),
{
    let n = read_type_len(h);
    let commit_type = if n > 0 {
        lower_of(slice(h, 0, n))
    } else {
        chars_of("other")
    };
    let (scope, pos) = read_scope(h, n);
    let (breaking, pos) = read_marks(h, pos);
    let description = read_description(h, pos);
    HeaderParts { commit_type, scope, breaking, description }
}

/// The structure recovered from the two texts of a commit.
#[derive(Debug)]
pub struct ParsedFields {
    /// The type in small letters, `other` where the header names none.
    pub commit_type: String,
    pub scope: Option<String>,
    pub description: String,
    /// The free text of the body, without the footer block.
    pub body: String,
    /// The footers in the order in which they stand in the body.
    pub footers: EcoVec<(String, String)>,
    pub breaking: bool,
    /// The issues referred to, ascending, each once.
    pub issues: EcoVec<u64>,
    pub co_authors: EcoVec<String>,
}

/// A `ParsedFields` with its texts as character sequences.
pub struct ParsedFieldsView {
    pub commit_type: Seq<char>,
    pub scope: Option<Seq<char>>,
    pub description: Seq<char>,
    pub body: Seq<char>,
    pub footers: Seq<(Seq<char>, Seq<char>)>,
    pub breaking: bool,
    pub issues: Seq<u64>,
    pub co_authors: Seq<Seq<char>>,
}

/// The sequences that pairs of strings stand for.
pub open spec fn footer_views(footers: Seq<(String, String)>) -> Seq<(Seq<char>, Seq<char>)> {
    Seq::new(footers.len(), |i: int| (footers[i].0@, footers[i].1@))
}

/// The sequences that strings stand for.
pub open spec fn string_views(texts: Seq<String>) -> Seq<Seq<char>> {
    Seq::new(texts.len(), |i: int| texts[i]@)
}

/// The sequence that an optional string stands for.
pub open spec fn option_view(text: Option<String>) -> Option<Seq<char>> {
    match text {
        Some(s) => Some(s@),
        None => None,
    }
}

impl View for ParsedFields {
    type V = ParsedFieldsView;

    open spec fn view(&self) -> ParsedFieldsView {
        ParsedFieldsView {
            commit_type: self.commit_type@,
            scope: option_view(self.scope),
            description: self.description@,
            body: self.body@,
            footers: footer_views(held_pairs(self.footers)),
            breaking: self.breaking,
            issues: held_numbers(self.issues),
            co_authors: string_views(held_texts(self.co_authors)),
        }
    }
}

/// The free text that a commit keeps of its body: all of it, trimmed, where
/// the body has no footer block; else the lines before the blank line that
/// sets the block off, joined and trimmed.
pub open spec fn retained_body(body: Seq<char>) -> Seq<char> {
    match footer_start(split_lines(body)) {
        None => trim(body),
        Some(start) => if start > 0 {
            trim(join_lines(split_lines(body).take(start - 1)))
        } else {
            Seq::empty()
        },
    }
}

/// The footers of a commit body, in order.
pub open spec fn body_footers(body: Seq<char>) -> Seq<(Seq<char>, Seq<char>)> {
    match footer_start(split_lines(body)) {
        None => Seq::empty(),
        Some(start) => footers_of(split_lines(body).skip(start)),
    }
}

/// The issues referred to in the footers: for each footer in turn, those of
/// its token, then those of its value.
pub open spec fn footer_refs(footers: Seq<(Seq<char>, Seq<char>)>) -> Seq<u64>
    decreases footers.len(),
{
    if footers.len() == 0 {
        Seq::empty()
    } else {
        footer_refs(footers.drop_last()) + issue_refs(footers.last().0) + issue_refs(
            footers.last().1,
        )
    }
}

/// Every issue reference of a commit: those of the header, of the retained
/// body and of the footers.
pub open spec fn all_issue_refs(header: Seq<char>, body: Seq<char>) -> Seq<u64> {
    issue_refs(header) + issue_refs(retained_body(body)) + footer_refs(body_footers(body))
}

/// What the header and the body of a commit say.
pub open spec fn parse_commit(header: Seq<char>, body: Seq<char>) -> ParsedFieldsView {
    ParsedFieldsView {
        commit_type: parse_header(header).commit_type,
        scope: parse_header(header).scope,
        description: parse_header(header).description,
        body: retained_body(body),
        footers: body_footers(body),
        breaking: parse_header(header).breaking || any_breaking(body_footers(body)),
        issues: sorted_unique(all_issue_refs(header, body)),
        co_authors: co_author_values(body_footers(body)),
    }
}

/// Retained text and footers of a commit body.
fn read_body(body: &[char]) -> (r: (Vec<char>, Vec<(Vec<char>, Vec<char>)>))
    ensures
        r.0@ == retained_body(body@),
        pair_views(r.1@) == body_footers(body@),
{
    let lines = lines_of(body);
    match find_footer_start(&lines) {
        None => {
            let footers: Vec<(Vec<char>, Vec<char>)> = Vec::new();
            assert(pair_views(footers@) == Seq::<(Seq<char>, Seq<char>)>::empty());
            (copy_of(trim_of(body)), footers)
        },
        Some(start) => {
            let kept = if start > 0 {
                let joined = join_lines_of(&lines, start - 1);
                copy_of(trim_of(joined.as_slice()))
            } else {
                Vec::new()
            };
            (kept, read_footers(&lines, start))
        },
    }
}

/// The issues referred to in `footers`.
fn footer_refs_of(footers: &Vec<(Vec<char>, Vec<char>)>) -> (r: Vec<u64>)
    ensures
        r@ == footer_refs(pair_views(footers@)),
{
    let ghost views = pair_views(footers@);
    let mut out: Vec<u64> = Vec::new();
    let mut i: usize = 0;
    assert(views.take(0) == Seq::<(Seq<char>, Seq<char>)>::empty());
    while i < footers.len()
        invariant
            i <= footers@.len(),
            views == pair_views(footers@),
            out@ == footer_refs(views.take(i as int)),
        decreases footers@.len() - i,
    {
        proof {
            let next = views.take(i + 1);
            assert(next.drop_last() == views.take(i as int));
            assert(next.last() == views[i as int]);
        }
        let mut of_token = issue_refs_of(footers[i].0.as_slice());
        let mut of_value = issue_refs_of(footers[i].1.as_slice());
        out.append(&mut of_token);
        out.append(&mut of_value);
        i += 1;
    }
    assert(views.take(i as int) == views);
    out
}

/// The footers as pairs of strings.
fn footers_to_strings(footers: &Vec<(Vec<char>, Vec<char>)>) -> (r: Vec<(String, String)>)
    ensures
        footer_views(r@) == pair_views(footers@),
{
    let mut out: Vec<(String, String)> = Vec::new();
    let mut i: usize = 0;
    while i < footers.len()
        invariant
            i <= footers@.len(),
            out@.len() == i,
            forall|j: int|
                0 <= j < i ==> (#[trigger] out@[j]).0@ == footers@[j].0@ && out@[j].1@
                    == footers@[j].1@,
        decreases footers@.len() - i,
    {
        let token = string_of(footers[i].0.as_slice());
        let value = string_of(footers[i].1.as_slice());
        out.push((token, value));
        i += 1;
    }
    assert(footer_views(out@) =~= pair_views(footers@));
    out
}

/// The texts as strings.
fn texts_to_strings(texts: &Vec<Vec<char>>) -> (r: Vec<String>)
    ensures
        string_views(r@) == text_views(texts@),
{
    let mut out: Vec<String> = Vec::new();
    let mut i: usize = 0;
    while i < texts.len()
        invariant
            i <= texts@.len(),
            out@.len() == i,
            forall|j: int| 0 <= j < i ==> (#[trigger] out@[j])@ == texts@[j]@,
        decreases texts@.len() - i,
    {
        out.push(string_of(texts[i].as_slice()));
        i += 1;
    }
    assert(string_views(out@) =~= text_views(texts@));
    out
}

/// The type that a header yields is never empty and holds small ASCII
/// letters only.
pub proof fn lemma_type_lower_case(header: Seq<char>)
    ensures
        parse_header(header).commit_type.len() > 0,
        forall|i: int|
            0 <= i < parse_header(header).commit_type.len() ==> is_ascii_lowercase(
                #[trigger] parse_header(header).commit_type[i],
            ),
{
    reveal_strlit("other");
    if type_len(header) > 0 {
        lemma_prefix_len_run(header, ascii_alphabetic());
    }
}

/// The scope as a header writes it: between parentheses, or not at all.
pub open spec fn written_scope(scope: Option<Seq<char>>) -> Seq<char> {
    match scope {
        Some(s) => seq!['('] + s + seq![')'],
        None => Seq::empty(),
    }
}

/// The marks that end the front of a header: `!` where the change breaks, and
/// the colon.
pub open spec fn written_marks(breaking: bool) -> Seq<char> {
    if breaking {
        seq!['!', ':']
    } else {
        seq![':']
    }
}

/// A header written out as `type(scope)!:` and the description.
pub open spec fn written_header(
    kind: Seq<char>,
    scope: Option<Seq<char>>,
    breaking: bool,
    description: Seq<char>,
) -> Seq<char> {
    kind + written_scope(scope) + written_marks(breaking) + description
}

/// Trimming does not see ASCII whitespace that was taken off the front before.
proof fn lemma_trim_after_ascii_whitespace(d: Seq<char>)
    ensures
        trim(d.skip(prefix_len(d, ascii_whitespace()) as int)) == trim(d),
{
    let a = prefix_len(d, ascii_whitespace()) as int;
    let w = prefix_len(d, whitespace()) as int;
    lemma_prefix_len_run(d, ascii_whitespace());
    lemma_prefix_len_run(d, whitespace());
    if w < a {
        assert(ascii_whitespace()(d[w]));
        assert(whitespace()(d[w]));
    }
    let rest = d.skip(a);
    assert forall|i: int| 0 <= i < w - a implies whitespace()(#[trigger] rest[i]) by {
        assert(rest[i] == d[a + i]);
    }
    if w - a < rest.len() {
        assert(rest[w - a] == d[w]);
    }
    lemma_prefix_len_is(rest, whitespace(), w - a);
    assert(rest.skip(w - a) == d.skip(w));
}

/// A header that is written as a type of ASCII letters, a scope without a
/// closing parenthesis in it (or no scope), the mark of a breaking change (or
/// none), a colon and a description is read back as exactly these: the type
/// in small letters, the scope, the mark, and the description trimmed.
pub proof fn lemma_well_formed_header(
    kind: Seq<char>,
    scope: Option<Seq<char>>,
    breaking: bool,
    description: Seq<char>,
)
    requires
        kind.len() > 0,
        forall|i: int| 0 <= i < kind.len() ==> is_ascii_alphabetic(#[trigger] kind[i]),
        scope is Some ==> forall|i: int| 0 <= i < scope->0.len() ==> (#[trigger] scope->0[i]) != ')',
    ensures
        parse_header(written_header(kind, scope, breaking, description)) == (HeaderView {
            commit_type: lower(kind),
            scope,
            breaking,
            description: trim(description),
        }),
{
    let h = written_header(kind, scope, breaking, description);
    let n = kind.len() as int;
    let sc = written_scope(scope);
    let mk = written_marks(breaking);
    assert(h.len() == n + sc.len() + mk.len() + description.len());
    assert forall|i: int| 0 <= i < n implies ascii_alphabetic()(#[trigger] h[i]) by {
        assert(h[i] == kind[i]);
    }
    assert(!ascii_alphabetic()(h[n])) by {
        if scope is Some {
            assert(h[n] == '(');
        } else if breaking {
            assert(h[n] == '!');
        } else {
            assert(h[n] == ':');
        }
    }
    lemma_prefix_len_is(h, ascii_alphabetic(), n);
    assert(type_len(h) == n);
    assert(h.take(n) == kind);
    let p = n + sc.len();
    match scope {
        Some(s) => {
            assert(h[n] == '(');
            let rest = scope_rest(h);
            let k = s.len() as int;
            assert forall|i: int| 0 <= i < k implies other_than(')')(#[trigger] rest[i]) by {
                assert(rest[i] == h[n + 1 + i]);
                assert(h[n + 1 + i] == s[i]);
            }
            assert(rest[k] == h[n + 1 + k]);
            assert(h[n + 1 + k] == ')');
            lemma_prefix_len_is(rest, other_than(')'), k);
            assert(rest.take(k) == s);
            assert(after_scope(h) == p);
        },
        None => {
            assert(h[n] != '(');
            assert(after_scope(h) == p);
        },
    }
    assert(h[p] == mk[0]);
    if breaking {
        assert(h[p + 1] == mk[1]);
    }
    assert(header_breaking(h) == breaking);
    let q = p + mk.len();
    assert(after_colon(h) == q);
    assert(h.skip(q) == description);
    lemma_trim_after_ascii_whitespace(description);
}

/// Parses the header and the body of a commit into their conventional
/// structure. Every pair of texts has a reading: nothing is refused.
pub fn parse_commit_fast(rc: &RawCommit) -> (r: ParsedFields)
    ensures
        r@ == parse_commit(rc.summary@, rc.body@),
        r.commit_type@.len() > 0,
        forall|i: int|
            0 <= i < r.commit_type@.len() ==> is_ascii_lowercase(#[trigger] r.commit_type@[i]),
        strictly_ascending(held_numbers(r.issues)),
{
    let header = chars_of(rc.summary.as_str());
    let body = chars_of(rc.body.as_str());
    let head = read_header(header.as_slice());
    let (kept, footers) = read_body(body.as_slice());
    let mut all = issue_refs_of(header.as_slice());
    let mut of_body = issue_refs_of(kept.as_slice());
    let mut of_footers = footer_refs_of(&footers);
    all.append(&mut of_body);
    all.append(&mut of_footers);
    let issues = sorted_unique_of(&all);
    let breaking = head.breaking || footers_break(&footers);
    let co_authors = co_authors_of(&footers);
    proof {
        lemma_type_lower_case(rc.summary@);
        lemma_sorted_unique(all@);
    }
    let scope = match head.scope {
        Some(s) => Some(string_of(s)),
        None => None,
    };
    ParsedFields {
        commit_type: string_of(head.commit_type.as_slice()),
        scope,
        description: string_of(head.description),
        body: string_of(kept.as_slice()),
        footers: pairs_from(footers_to_strings(&footers)),
        breaking,
        issues: numbers_from(issues),
        co_authors: texts_from(texts_to_strings(&co_authors)),
    }
}

} // verus!
