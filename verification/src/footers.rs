//! The footer block of a commit body: where it starts, and the ordered
//! `Token: value` pairs that it holds.

use crate::text::{
    char_is_ascii_alphanumeric, eq_ignore_ascii_case, find, find_char, is_ascii_alphanumeric,
    line_views, same_chars_ignore_case, slice, trim, trim_of, trim_start, trim_start_of,
    chars_of, copy_of,
};
use vstd::prelude::*;

verus! {

/// A character that a footer token may hold: an ASCII letter or digit, a
/// hyphen or a space.
pub open spec fn is_token_char(c: char) -> bool {
    is_ascii_alphanumeric(c) || c == '-' || c == ' '
}

/// A footer token is not empty and holds token characters only.
pub open spec fn valid_footer_token(token: Seq<char>) -> bool {
    token.len() > 0 && forall|i: int| 0 <= i < token.len() ==> is_token_char(#[trigger] token[i])
}

/// A line of whitespace only.
pub open spec fn is_blank(line: Seq<char>) -> bool {
    trim(line).len() == 0
}

/// A line that begins with a space or a tab.
pub open spec fn is_indented(line: Seq<char>) -> bool {
    line.len() > 0 && (line[0] == ' ' || line[0] == '\t')
}

/// A line of the form `Token: value`: trimmed, it holds a colon, and what
/// stands before the first colon is a footer token.
pub open spec fn is_footer_line(line: Seq<char>) -> bool {
    0 < find(trim(line), ':') < trim(line).len() && valid_footer_token(
        trim(line).take(find(trim(line), ':')),
    )
}

/// The token of a footer line, trimmed.
pub open spec fn footer_token(line: Seq<char>) -> Seq<char> {
    trim(trim(line).take(find(trim(line), ':')))
}

/// What follows the colon of a footer line, without leading whitespace.
pub open spec fn footer_value(line: Seq<char>) -> Seq<char> {
    trim_start(trim(line).skip(find(trim(line), ':') + 1))
}

/// A line that may stand in a footer block: blank, a continuation, or a footer.
pub open spec fn footerish(line: Seq<char>) -> bool {
    is_blank(line) || is_indented(line) || is_footer_line(line)
}

/// Line `i` is blank, is not the last line, and only lines that may stand in a
/// footer block follow it.
pub open spec fn is_boundary(lines: Seq<Seq<char>>, i: int) -> bool {
    0 <= i && i + 1 < lines.len() && is_blank(lines[i]) && forall|j: int|
        i < j < lines.len() ==> footerish(#[trigger] lines[j])
}

/// The last boundary among the first `n` lines.
pub open spec fn last_boundary_below(lines: Seq<Seq<char>>, n: int) -> Option<int>
    decreases n,
{
    if n <= 0 {
        None
    } else if is_boundary(lines, n - 1) {
        Some(n - 1)
    } else {
        last_boundary_below(lines, n - 1)
    }
}

/// The line at which the footer block starts: the one after the last boundary;
/// or the first line, where there is no boundary and that line is a footer;
/// or none.
pub open spec fn footer_start(lines: Seq<Seq<char>>) -> Option<int> {
    match last_boundary_below(lines, lines.len() as int) {
        Some(i) => Some(i + 1),
        None => if lines.len() > 0 && is_footer_line(lines[0]) {
            Some(0)
        } else {
            None
        },
    }
}

/// How far the reading of a footer block has come: the pairs that are
/// complete, the pair that may still grow, and whether a line has ended the
/// block.
pub struct FooterScan {
    pub done: Seq<(Seq<char>, Seq<char>)>,
    pub current: Option<(Seq<char>, Seq<char>)>,
    pub stopped: bool,
}

/// The pairs read so far, the growing one included.
pub open spec fn flushed(st: FooterScan) -> Seq<(Seq<char>, Seq<char>)> {
    match st.current {
        Some(p) => st.done.push(p),
        None => st.done,
    }
}

/// `value` with the continuation `more` on a line of its own.
pub open spec fn continued(value: Seq<char>, more: Seq<char>) -> Seq<char> {
    if value.len() > 0 {
        value + seq!['\n'] + more
    } else {
        more
    }
}

/// Reads one line of a footer block. A blank line changes nothing. A footer
/// line completes the growing pair and starts the next. An indented line is
/// added to the growing pair, if there is one. Any other line ends the block.
pub open spec fn scan_step(st: FooterScan, line: Seq<char>) -> FooterScan {
    if st.stopped || is_blank(line) {
        st
    } else if is_footer_line(line) {
        FooterScan {
            done: flushed(st),
            current: Some((footer_token(line), footer_value(line))),
            stopped: false,
        }
    } else if is_indented(line) {
        match st.current {
            Some(p) => FooterScan {
                done: st.done,
                current: Some((p.0, continued(p.1, trim(line)))),
                stopped: false,
            },
            None => st,
        }
    } else {
        FooterScan { done: st.done, current: st.current, stopped: true }
    }
}

/// Reads the lines of a footer block one after the other.
pub open spec fn scan_lines(lines: Seq<Seq<char>>) -> FooterScan
    decreases lines.len(),
{
    if lines.len() == 0 {
        FooterScan { done: Seq::empty(), current: None, stopped: false }
    } else {
        scan_step(scan_lines(lines.drop_last()), lines.last())
    }
}

/// The footers of a block of lines, in the order in which they stand there.
pub open spec fn footers_of(lines: Seq<Seq<char>>) -> Seq<(Seq<char>, Seq<char>)> {
    flushed(scan_lines(lines))
}

/// One of the three spellings that mark a breaking change.
pub open spec fn is_breaking_token(token: Seq<char>) -> bool {
    eq_ignore_ascii_case(token, "BREAKING CHANGE"@) || eq_ignore_ascii_case(
        token,
        "BREAKING-CHANGE"@,
    ) || eq_ignore_ascii_case(token, "BREAKING CHANGES"@)
}

/// The token that names a co-author.
pub open spec fn is_co_author_token(token: Seq<char>) -> bool {
    eq_ignore_ascii_case(token, "Co-authored-by"@)
}

/// Whether one of the footers marks a breaking change.
pub open spec fn any_breaking(footers: Seq<(Seq<char>, Seq<char>)>) -> bool {
    exists|i: int| 0 <= i < footers.len() && is_breaking_token(#[trigger] footers[i].0)
}

/// The values of the co-author footers, in order.
pub open spec fn co_author_values(footers: Seq<(Seq<char>, Seq<char>)>) -> Seq<Seq<char>>
    decreases footers.len(),
{
    if footers.len() == 0 {
        Seq::empty()
    } else if is_co_author_token(footers.last().0) {
        co_author_values(footers.drop_last()).push(footers.last().1)
    } else {
        co_author_values(footers.drop_last())
    }
}

/// The sequences that pairs of character vectors stand for.
pub open spec fn pair_views(pairs: Seq<(Vec<char>, Vec<char>)>) -> Seq<(Seq<char>, Seq<char>)> {
    Seq::new(pairs.len(), |i: int| (pairs[i].0@, pairs[i].1@))
}

/// The sequences that character vectors stand for.
pub open spec fn text_views(texts: Seq<Vec<char>>) -> Seq<Seq<char>> {
    Seq::new(texts.len(), |i: int| texts[i]@)
}

/// Whether `token` is not empty and holds token characters only.
pub fn valid_token_chars(token: &[char]) -> (r: bool)
    ensures
        r == valid_footer_token(token@),
{
    if token.len() == 0 {
        return false;
    }
    let mut i: usize = 0;
    while i < token.len()
        invariant
            i <= token@.len(),
            forall|j: int| 0 <= j < i ==> is_token_char(#[trigger] token@[j]),
        decreases token@.len() - i,
    {
        let c = token[i];
        if !(char_is_ascii_alphanumeric(c) || c == '-' || c == ' ') {
            return false;
        }
        i += 1;
    }
    true
}

/// Check if a string is a valid footer token.
pub fn is_valid_footer_token(token: &str) -> (r: bool)
    ensures
        r == valid_footer_token(token@),
{
    let chars = chars_of(token);
    valid_token_chars(chars.as_slice())
}

/// What a line is to a footer block.
pub enum LineKind {
    Blank,
    Footer,
    Indented,
    Other,
}

/// The kind of `line`, a footer line taken as such even where it is indented.
pub open spec fn line_kind(line: Seq<char>) -> LineKind {
    if is_blank(line) {
        LineKind::Blank
    } else if is_footer_line(line) {
        LineKind::Footer
    } else if is_indented(line) {
        LineKind::Indented
    } else {
        LineKind::Other
    }
}

/// Whether `line` begins with a space or a tab.
fn line_is_indented(line: &[char]) -> (r: bool)
    ensures
        r == is_indented(line@),
{
    line.len() > 0 && (line[0] == ' ' || line[0] == '\t')
}

/// Tells what `line` is to a footer block.
pub fn kind_of_line(line: &[char]) -> (r: LineKind)
    ensures
        r == line_kind(line@),
{
    let t = trim_of(line);
    if t.len() == 0 {
        return LineKind::Blank;
    }
    let k = find_char(t, ':');
    if 0 < k && k < t.len() && valid_token_chars(slice(t, 0, k)) {
        LineKind::Footer
    } else if line_is_indented(line) {
        LineKind::Indented
    } else {
        LineKind::Other
    }
}

/// No boundary lies before a line that cannot stand in a footer block.
proof fn lemma_no_boundary_before(lines: Seq<Seq<char>>, bad: int, n: int)
    requires
        0 <= bad < lines.len(),
        !footerish(lines[bad]),
        n <= bad,
    ensures
        last_boundary_below(lines, n) is None,
    decreases n,
{
    if n > 0 {
        lemma_no_boundary_before(lines, bad, n - 1);
    }
}

/// The line at which the footer block starts, if there is one.
pub fn find_footer_start(lines: &Vec<&[char]>) -> (r: Option<usize>)
    ensures
        match r {
            Some(i) => footer_start(line_views(lines@)) == Some(i as int) && i < lines@.len(),
            None => footer_start(line_views(lines@)) is None,
        },
{
    let n = lines.len();
    let ghost views = line_views(lines@);
    let mut i: usize = n;
    let mut open = true;
    while open && i > 0
        invariant
            n == lines@.len(),
            views == line_views(lines@),
            i <= n,
            open ==> forall|j: int| i <= j < n ==> footerish(#[trigger] views[j]),
            open ==> last_boundary_below(views, n as int) == last_boundary_below(
                views,
                i as int,
            ),
            !open ==> last_boundary_below(views, n as int) is None,
        decreases i, open as int,
    {
        let idx = i - 1;
        let kind = kind_of_line(lines[idx]);
        assert(views[idx as int] == lines@[idx as int]@);
        match kind {
            LineKind::Blank => {
                if idx + 1 < n {
                    assert(is_boundary(views, idx as int));
                    return Some(idx + 1);
                }
                i = idx;
            },
            LineKind::Footer | LineKind::Indented => {
                i = idx;
            },
            LineKind::Other => {
                proof {
                    lemma_no_boundary_before(views, idx as int, idx as int);
                }
                open = false;
            },
        }
    }
    if n > 0 {
        assert(views[0] == lines@[0]@);
        match kind_of_line(lines[0]) {
            LineKind::Footer => Some(0),
            _ => None,
        }
    } else {
        None
    }
}

/// Token and value of a footer line.
fn split_footer_line(line: &[char]) -> (r: (Vec<char>, Vec<char>))
    requires
        is_footer_line(line@),
    ensures
        r.0@ == footer_token(line@),
        r.1@ == footer_value(line@),
{
    let t = trim_of(line);
    let k = find_char(t, ':');
    let n = t.len();
    assert(0 < find(trim(line@), ':') < trim(line@).len());
    let token = trim_of(slice(t, 0, k));
    let value = trim_start_of(slice(t, k + 1, n));
    (copy_of(token), copy_of(value))
}

/// Adds the trimmed `line` to `value`, on a line of its own where `value` is
/// not empty.
fn continue_value(value: &mut Vec<char>, line: &[char])
    ensures
        final(value)@ == continued(old(value)@, trim(line@)),
{
    let t = trim_of(line);
    if value.len() > 0 {
        value.push('\n');
    }
    value.extend_from_slice(t);
}

/// The state that the reading of a footer block is in, held in vectors.
pub struct FooterReader {
    pub done: Vec<(Vec<char>, Vec<char>)>,
    pub current: Option<(Vec<char>, Vec<char>)>,
    pub stopped: bool,
}

impl View for FooterReader {
    type V = FooterScan;

    open spec fn view(&self) -> FooterScan {
        FooterScan {
            done: pair_views(self.done@),
            current: match self.current {
                Some(p) => Some((p.0@, p.1@)),
                None => None,
            },
            stopped: self.stopped,
        }
    }
}

impl FooterReader {
    /// Reads one more line.
    fn step(self, line: &[char]) -> (r: FooterReader)
        ensures
            r@ == scan_step(self@, line@),
    {
        if self.stopped {
            return self;
        }
        let FooterReader { done, current, stopped } = self;
        let mut done = done;
        match kind_of_line(line) {
            LineKind::Blank => FooterReader { done, current, stopped },
            LineKind::Footer => {
                let ghost before = pair_views(done@);
                match current {
                    Some(p) => {
                        done.push(p);
                        assert(pair_views(done@) == before.push((p.0@, p.1@)));
                    },
                    None => {},
                }
                let next = split_footer_line(line);
                FooterReader { done, current: Some(next), stopped: false }
            },
            LineKind::Indented => {
                match current {
                    Some(p) => {
                        let (token, value) = p;
                        let mut value = value;
                        continue_value(&mut value, line);
                        FooterReader { done, current: Some((token, value)), stopped: false }
                    },
                    None => FooterReader { done, current: None, stopped },
                }
            },
            LineKind::Other => FooterReader { done, current, stopped: true },
        }
    }

    /// The pairs read, the growing one included.
    fn finish(self) -> (r: Vec<(Vec<char>, Vec<char>)>)
        ensures
            pair_views(r@) == flushed(self@),
    {
        let FooterReader { done, current, stopped } = self;
        let mut done = done;
        let ghost before = pair_views(done@);
        match current {
            Some(p) => {
                done.push(p);
                assert(pair_views(done@) == before.push((p.0@, p.1@)));
            },
            None => {},
        }
        done
    }
}

/// The footers of the block that starts at line `from`.
pub fn read_footers(lines: &Vec<&[char]>, from: usize) -> (r: Vec<(Vec<char>, Vec<char>)>)
    requires
        from <= lines@.len(),
    ensures
        pair_views(r@) == footers_of(line_views(lines@).skip(from as int)),
{
    let ghost block = line_views(lines@).skip(from as int);
    let mut reader = FooterReader { done: Vec::new(), current: None, stopped: false };
    let mut i: usize = from;
    assert(pair_views(reader.done@) == Seq::<(Seq<char>, Seq<char>)>::empty());
    assert(block.take(0) == Seq::<Seq<char>>::empty());
    while i < lines.len()
        invariant
            from <= i <= lines@.len(),
            block == line_views(lines@).skip(from as int),
            reader@ == scan_lines(block.take(i - from)),
        decreases lines@.len() - i,
    {
        proof {
            let next = block.take(i - from + 1);
            assert(next.drop_last() == block.take(i - from));
            assert(next.last() == lines@[i as int]@);
        }
        reader = reader.step(lines[i]);
        i += 1;
    }
    assert(block.take(i - from) == block);
    reader.finish()
}

/// Whether `token` is one of the three spellings that mark a breaking change.
fn token_is_breaking(token: &[char]) -> (r: bool)
    ensures
        r == is_breaking_token(token@),
{
    let a = chars_of("BREAKING CHANGE");
    let b = chars_of("BREAKING-CHANGE");
    let c = chars_of("BREAKING CHANGES");
    same_chars_ignore_case(token, a.as_slice()) || same_chars_ignore_case(token, b.as_slice())
        || same_chars_ignore_case(token, c.as_slice())
}

/// Whether one of `footers` marks a breaking change.
pub fn footers_break(footers: &Vec<(Vec<char>, Vec<char>)>) -> (r: bool)
    ensures
        r == any_breaking(pair_views(footers@)),
{
    let mut i: usize = 0;
    while i < footers.len()
        invariant
            i <= footers@.len(),
            forall|j: int| 0 <= j < i ==> !is_breaking_token(#[trigger] pair_views(footers@)[j].0),
        decreases footers@.len() - i,
    {
        if token_is_breaking(footers[i].0.as_slice()) {
            assert(is_breaking_token(pair_views(footers@)[i as int].0));
            return true;
        }
        i += 1;
    }
    false
}

/// The values of the co-author footers among `footers`, in order.
pub fn co_authors_of(footers: &Vec<(Vec<char>, Vec<char>)>) -> (r: Vec<Vec<char>>)
    ensures
        text_views(r@) == co_author_values(pair_views(footers@)),
{
    let name = chars_of("Co-authored-by");
    let ghost views = pair_views(footers@);
    let mut out: Vec<Vec<char>> = Vec::new();
    let mut i: usize = 0;
    assert(views.take(0) == Seq::<(Seq<char>, Seq<char>)>::empty());
    assert(text_views(out@) == Seq::<Seq<char>>::empty());
    while i < footers.len()
        invariant
            i <= footers@.len(),
            views == pair_views(footers@),
            name@ == "Co-authored-by"@,
            text_views(out@) == co_author_values(views.take(i as int)),
        decreases footers@.len() - i,
    {
        proof {
            let next = views.take(i + 1);
            assert(next.drop_last() == views.take(i as int));
            assert(next.last() == views[i as int]);
        }
        if same_chars_ignore_case(footers[i].0.as_slice(), name.as_slice()) {
            let ghost before = text_views(out@);
            let value = copy_of(footers[i].1.as_slice());
            out.push(value);
            assert(text_views(out@) == before.push(value@));
        }
        i += 1;
    }
    assert(views.take(i as int) == views);
    out
}

} // verus!
