//! The changelog file as text: its top release block, and the text after a
//! new block was put before it.

use crate::conventional::option_view;
use crate::text::{
    chars_of, has_prefix, join_lines, join_lines_between, line_views, lines_of, same_chars, slice,
    split_lines, starts_with, string_of, trim_end, trim_end_of,
};
use vstd::prelude::*;

verus! {

/// A line that opens a release block.
pub open spec fn is_release_heading(line: Seq<char>) -> bool {
    starts_with(line, "## "@)
}

/// A line that is the title of the whole file.
pub open spec fn is_title_line(line: Seq<char>) -> bool {
    starts_with(line, "# "@) && !starts_with(line, "## "@)
}

/// Index of the first release heading at or after `from`, or the number of
/// lines.
pub open spec fn first_heading(lines: Seq<Seq<char>>, from: int) -> int
    decreases lines.len() - from,
{
    if from >= lines.len() {
        lines.len() as int
    } else if from >= 0 && is_release_heading(lines[from]) {
        from
    } else {
        first_heading(lines, from + 1)
    }
}

/// Where the search for the top block starts: after the title line, if the
/// file opens with one.
pub open spec fn after_title(lines: Seq<Seq<char>>) -> int {
    if lines.len() > 0 && is_title_line(lines[0]) {
        1
    } else {
        0
    }
}

/// The top release block of a changelog: from the first release heading up
/// to the next, each line ended by a line feed. None where the changelog has
/// no release heading.
pub open spec fn top_block(existing: Seq<char>) -> Option<Seq<char>> {
    let lines = split_lines(existing);
    let start = first_heading(lines, after_title(lines));
    if 0 <= start < lines.len() {
        Some(join_lines(lines.subrange(start, first_heading(lines, start + 1))) + seq!['\n'])
    } else {
        None
    }
}

/// The new block as it is written: without whitespace at its end, and one
/// line feed.
pub open spec fn normalized_block(new_block: Seq<char>) -> Seq<char> {
    trim_end(new_block) + seq!['\n']
}

/// The changelog without the plain title line at its front.
pub open spec fn without_title(existing: Seq<char>) -> Seq<char> {
    if starts_with(existing, "# Changelog\n"@) {
        existing.skip("# Changelog\n"@.len() as int)
    } else {
        existing
    }
}

/// Whether the changelog has the new block at its top already.
pub open spec fn already_on_top(existing: Seq<char>, new_block: Seq<char>) -> bool {
    (top_block(existing) is Some && trim_end(top_block(existing)->0) == trim_end(
        normalized_block(new_block),
    )) || starts_with(without_title(existing), normalized_block(new_block))
}

/// The changelog after the new block was put before it, or none where the
/// block is at its top already. A changelog that does not open with a
/// heading is set off by an empty line.
pub open spec fn updated_changelog(existing: Seq<char>, new_block: Seq<char>) -> Option<
    Seq<char>,
> {
    if already_on_top(existing, new_block) {
        None
    } else if existing.len() > 0 && existing[0] == '#' {
        Some(normalized_block(new_block) + existing)
    } else {
        Some(normalized_block(new_block) + seq!['\n'] + existing)
    }
}

/// Whether `line` opens a release block.
fn line_is_heading(line: &[char]) -> (r: bool)
    ensures
        r == is_release_heading(line@),
{
    has_prefix(line, chars_of("## ").as_slice())
}

/// Index of the first release heading at or after `from`, or the number of
/// lines.
fn find_heading(lines: &Vec<&[char]>, from: usize) -> (r: usize)
    requires
        from <= lines@.len(),
    ensures
        r == first_heading(line_views(lines@), from as int),
        from <= r <= lines@.len(),
{
    let ghost views = line_views(lines@);
    let mut i: usize = from;
    while i < lines.len()
        invariant
            from <= i <= lines@.len(),
            views == line_views(lines@),
            first_heading(views, from as int) == first_heading(views, i as int),
        decreases lines@.len() - i,
    {
        assert(views[i as int] == lines@[i as int]@);
        if line_is_heading(lines[i]) {
            return i;
        }
        i += 1;
    }
    i
}

/// The top release block of the changelog `existing`.
pub fn top_block_of(existing: &[char]) -> (r: Option<Vec<char>>)
    ensures
        match r {
            Some(block) => top_block(existing@) == Some(block@),
            None => top_block(existing@) is None,
        },
{
    let lines = lines_of(existing);
    let ghost views = line_views(lines@);
    let mut start: usize = 0;
    if lines.len() > 0 {
        assert(views[0] == lines@[0]@);
        let first = lines[0];
        if has_prefix(first, chars_of("# ").as_slice()) && !line_is_heading(first) {
            start = 1;
        }
    }
    let a = find_heading(&lines, start);
    if a >= lines.len() {
        return None;
    }
    let b = find_heading(&lines, a + 1);
    let mut block = join_lines_between(&lines, a, b);
    block.push('\n');
    Some(block)
}

/// Extract the top release block from a changelog file.
pub fn extract_top_block(existing: &str) -> (r: Option<String>)
    ensures
        option_view(r) == top_block(existing@),
{
    let chars = chars_of(existing);
    match top_block_of(chars.as_slice()) {
        Some(block) => Some(string_of(block.as_slice())),
        None => None,
    }
}

/// The changelog `existing` with `new_block` put before it, or none where
/// the block is at its top already and nothing is to be written.
pub fn prepare_changelog_update(existing: &str, new_block: &str) -> (r: Option<String>)
    ensures
        option_view(r) == updated_changelog(existing@, new_block@),
{
    let old_text = chars_of(existing);
    let given = chars_of(new_block);
    let mut normalized: Vec<char> = Vec::new();
    normalized.extend_from_slice(trim_end_of(given.as_slice()));
    normalized.push('\n');
    assert(normalized@ =~= normalized_block(new_block@));
    match top_block_of(old_text.as_slice()) {
        Some(block) => {
            if same_chars(trim_end_of(block.as_slice()), trim_end_of(normalized.as_slice())) {
                return None;
            }
        },
        None => {},
    }
    let title = chars_of("# Changelog\n");
    let rest = if has_prefix(old_text.as_slice(), title.as_slice()) {
        slice(old_text.as_slice(), title.len(), old_text.len())
    } else {
        old_text.as_slice()
    };
    assert(rest@ == without_title(existing@));
    if has_prefix(rest, normalized.as_slice()) {
        return None;
    }
    let mut out: Vec<char> = Vec::new();
    out.extend_from_slice(normalized.as_slice());
    if !(old_text.len() > 0 && old_text[0] == '#') {
        out.push('\n');
    }
    out.extend_from_slice(old_text.as_slice());
    assert(out@ =~= updated_changelog(existing@, new_block@)->0);
    Some(string_of(out.as_slice()))
}

} // verus!
