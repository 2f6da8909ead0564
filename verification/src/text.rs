//! Character-sequence primitives shared by the parsers and formatters.

use vstd::prelude::*;

verus! {

/// Whether `c` carries the Unicode `White_Space` property.
pub open spec fn is_whitespace(c: char) -> bool {
    let n = c as u32;
    (0x09 <= n <= 0x0D) || n == 0x20 || n == 0x85 || n == 0xA0 || n == 0x1680 || (0x2000 <= n
        <= 0x200A) || n == 0x2028 || n == 0x2029 || n == 0x202F || n == 0x205F || n == 0x3000
}

/// Space, tab, line feed, form feed or carriage return.
pub open spec fn is_ascii_whitespace(c: char) -> bool {
    c == ' ' || c == '\t' || c == '\n' || c == '\x0C' || c == '\r'
}

/// An ASCII capital letter.
pub open spec fn is_ascii_uppercase(c: char) -> bool {
    'A' <= c <= 'Z'
}

/// An ASCII small letter.
pub open spec fn is_ascii_lowercase(c: char) -> bool {
    'a' <= c <= 'z'
}

/// An ASCII letter.
pub open spec fn is_ascii_alphabetic(c: char) -> bool {
    ('a' <= c <= 'z') || ('A' <= c <= 'Z')
}

/// An ASCII digit.
pub open spec fn is_ascii_digit(c: char) -> bool {
    '0' <= c <= '9'
}

/// An ASCII letter or digit.
pub open spec fn is_ascii_alphanumeric(c: char) -> bool {
    is_ascii_alphabetic(c) || is_ascii_digit(c)
}

/// `c` with an ASCII capital replaced by its small letter.
pub open spec fn to_ascii_lower(c: char) -> char {
    if is_ascii_uppercase(c) {
        ((c as u8) + 32) as char
    } else {
        c
    }
}

/// Whether `c` is whitespace.
pub fn char_is_whitespace(c: char) -> (r: bool)
    ensures
        r == is_whitespace(c),
{
    let n: u32 = c as u32;
    (0x09 <= n && n <= 0x0D) || n == 0x20 || n == 0x85 || n == 0xA0 || n == 0x1680 || (0x2000 <= n
        && n <= 0x200A) || n == 0x2028 || n == 0x2029 || n == 0x202F || n == 0x205F || n == 0x3000
}

/// Whether `c` is an ASCII letter.
pub fn char_is_ascii_alphabetic(c: char) -> (r: bool)
    ensures
        r == is_ascii_alphabetic(c),
{
    ('a' <= c && c <= 'z') || ('A' <= c && c <= 'Z')
}

/// Whether `c` is ASCII whitespace.
pub fn char_is_ascii_whitespace(c: char) -> (r: bool)
    ensures
        r == is_ascii_whitespace(c),
{
    c == ' ' || c == '\t' || c == '\n' || c == '\x0C' || c == '\r'
}

/// Whether `c` is an ASCII digit.
pub fn char_is_ascii_digit(c: char) -> (r: bool)
    ensures
        r == is_ascii_digit(c),
{
    '0' <= c && c <= '9'
}

/// Whether `c` is an ASCII letter or digit.
pub fn char_is_ascii_alphanumeric(c: char) -> (r: bool)
    ensures
        r == is_ascii_alphanumeric(c),
{
    char_is_ascii_alphabetic(c) || char_is_ascii_digit(c)
}

/// `c` with an ASCII capital replaced by its small letter.
pub fn char_to_ascii_lower(c: char) -> (r: char)
    ensures
        r == to_ascii_lower(c),
{
    if 'A' <= c && c <= 'Z' {
        ((c as u8) + 32) as char
    } else {
        c
    }
}

/// Length of the longest prefix of `s` whose characters all satisfy `p`.
pub open spec fn prefix_len(s: Seq<char>, p: spec_fn(char) -> bool) -> nat
    decreases s.len(),
{
    if s.len() > 0 && p(s[0]) {
        1 + prefix_len(s.drop_first(), p)
    } else {
        0
    }
}

/// Length of the longest suffix of `s` whose characters all satisfy `p`.
pub open spec fn suffix_len(s: Seq<char>, p: spec_fn(char) -> bool) -> nat
    decreases s.len(),
{
    if s.len() > 0 && p(s.last()) {
        1 + suffix_len(s.drop_last(), p)
    } else {
        0
    }
}

/// `prefix_len` is the one position that ends a run of `p` at the front of `s`.
pub proof fn lemma_prefix_len_is(s: Seq<char>, p: spec_fn(char) -> bool, k: int)
    requires
        0 <= k <= s.len(),
        forall|i: int| 0 <= i < k ==> p(#[trigger] s[i]),
        k < s.len() ==> !p(s[k]),
    ensures
        prefix_len(s, p) == k,
    decreases s.len(),
{
    if k > 0 {
        let t = s.drop_first();
        assert forall|i: int| 0 <= i < k - 1 implies p(#[trigger] t[i]) by {
            assert(t[i] == s[i + 1]);
        }
        lemma_prefix_len_is(t, p, k - 1);
    }
}

/// What `prefix_len` says of `s`: a run of `p`, ended by the end of `s` or by a
/// character that fails `p`.
pub proof fn lemma_prefix_len_run(s: Seq<char>, p: spec_fn(char) -> bool)
    ensures
        prefix_len(s, p) <= s.len(),
        forall|i: int| 0 <= i < prefix_len(s, p) ==> p(#[trigger] s[i]),
        prefix_len(s, p) < s.len() ==> !p(s[prefix_len(s, p) as int]),
    decreases s.len(),
{
    if s.len() > 0 && p(s[0]) {
        let t = s.drop_first();
        lemma_prefix_len_run(t, p);
        assert forall|i: int| 0 <= i < prefix_len(s, p) implies p(#[trigger] s[i]) by {
            if i > 0 {
                assert(s[i] == t[i - 1]);
            }
        }
        if prefix_len(s, p) < s.len() {
            assert(s[prefix_len(s, p) as int] == t[prefix_len(t, p) as int]);
        }
    }
}

/// `suffix_len` is the one length of a run of `p` at the back of `s`.
pub proof fn lemma_suffix_len_is(s: Seq<char>, p: spec_fn(char) -> bool, k: int)
    requires
        0 <= k <= s.len(),
        forall|i: int| s.len() - k <= i < s.len() ==> p(#[trigger] s[i]),
        k < s.len() ==> !p(s[s.len() - k - 1]),
    ensures
        suffix_len(s, p) == k,
    decreases s.len(),
{
    if k > 0 {
        let t = s.drop_last();
        assert forall|i: int| t.len() - (k - 1) <= i < t.len() implies p(#[trigger] t[i]) by {
            assert(t[i] == s[i]);
        }
        lemma_suffix_len_is(t, p, k - 1);
    }
}

/// The test for whitespace.
pub open spec fn whitespace() -> spec_fn(char) -> bool {
    |c: char| is_whitespace(c)
}

/// The test for ASCII whitespace.
pub open spec fn ascii_whitespace() -> spec_fn(char) -> bool {
    |c: char| is_ascii_whitespace(c)
}

/// The test for ASCII letters.
pub open spec fn ascii_alphabetic() -> spec_fn(char) -> bool {
    |c: char| is_ascii_alphabetic(c)
}

/// The test for ASCII digits.
pub open spec fn ascii_digit() -> spec_fn(char) -> bool {
    |c: char| is_ascii_digit(c)
}

/// The test for any character but `c`.
pub open spec fn other_than(c: char) -> spec_fn(char) -> bool {
    |x: char| x != c
}

/// Index of the first `c` in `s`, or `s.len()` where `s` holds none.
pub open spec fn find(s: Seq<char>, c: char) -> int {
    prefix_len(s, other_than(c)) as int
}

/// Index of the last `c` in `s`, or `-1` where `s` holds none.
pub open spec fn rfind(s: Seq<char>, c: char) -> int {
    s.len() - suffix_len(s, other_than(c)) - 1
}

/// `s` without its leading whitespace.
pub open spec fn trim_start(s: Seq<char>) -> Seq<char> {
    s.skip(prefix_len(s, whitespace()) as int)
}

/// `s` without its trailing whitespace.
pub open spec fn trim_end(s: Seq<char>) -> Seq<char> {
    s.take(s.len() - suffix_len(s, whitespace()))
}

/// `s` without the whitespace at either end.
pub open spec fn trim(s: Seq<char>) -> Seq<char> {
    trim_end(trim_start(s))
}

/// `s` with every ASCII capital replaced by its small letter.
pub open spec fn lower(s: Seq<char>) -> Seq<char> {
    Seq::new(s.len(), |i: int| to_ascii_lower(s[i]))
}

/// Equality up to the case of ASCII letters.
pub open spec fn eq_ignore_ascii_case(a: Seq<char>, b: Seq<char>) -> bool {
    lower(a) == lower(b)
}

/// Whether `s` begins with `prefix`.
pub open spec fn starts_with(s: Seq<char>, prefix: Seq<char>) -> bool {
    prefix.len() <= s.len() && s.take(prefix.len() as int) == prefix
}

/// Whether `s` ends with `suffix`.
pub open spec fn ends_with(s: Seq<char>, suffix: Seq<char>) -> bool {
    suffix.len() <= s.len() && s.skip(s.len() - suffix.len()) == suffix
}

/// Index of the first `c` in `s`, or `s.len()`.
pub fn find_char(s: &[char], c: char) -> (r: usize)
    ensures
        r == find(s@, c),
        r <= s@.len(),
        r < s@.len() ==> s@[r as int] == c,
        forall|i: int| 0 <= i < r ==> s@[i] != c,
{
    let mut i: usize = 0;
    while i < s.len() && s[i] != c
        invariant
            i <= s@.len(),
            forall|j: int| 0 <= j < i ==> other_than(c)(#[trigger] s@[j]),
        decreases s@.len() - i,
    {
        i += 1;
    }
    proof {
        lemma_prefix_len_is(s@, other_than(c), i as int);
    }
    i
}

/// One past the index of the last `c` in `s`, or `0` where `s` holds none.
pub fn rfind_char_end(s: &[char], c: char) -> (r: usize)
    ensures
        r == rfind(s@, c) + 1,
        r <= s@.len(),
        r > 0 ==> s@[r - 1] == c,
        forall|i: int| r <= i < s@.len() ==> s@[i] != c,
{
    let mut i: usize = s.len();
    while i > 0 && s[i - 1] != c
        invariant
            i <= s@.len(),
            forall|j: int| i <= j < s@.len() ==> other_than(c)(#[trigger] s@[j]),
        decreases i,
    {
        i -= 1;
    }
    proof {
        lemma_suffix_len_is(s@, other_than(c), s@.len() - i);
    }
    i
}

/// The part of `s` from `from` up to `to`.
pub fn slice<'a>(s: &'a [char], from: usize, to: usize) -> (r: &'a [char])
    requires
        from <= to <= s@.len(),
    ensures
        r@ == s@.subrange(from as int, to as int),
{
    vstd::slice::slice_subrange(s, from, to)
}

/// A copy of the characters of `s`.
pub fn copy_of(s: &[char]) -> (r: Vec<char>)
    ensures
        r@ == s@,
{
    let mut out: Vec<char> = Vec::new();
    out.extend_from_slice(s);
    out
}

/// `s` without its leading whitespace.
pub fn trim_start_of<'a>(s: &'a [char]) -> (r: &'a [char])
    ensures
        r@ == trim_start(s@),
{
    let mut i: usize = 0;
    while i < s.len() && char_is_whitespace(s[i])
        invariant
            i <= s@.len(),
            forall|j: int| 0 <= j < i ==> whitespace()(#[trigger] s@[j]),
        decreases s@.len() - i,
    {
        i += 1;
    }
    proof {
        lemma_prefix_len_is(s@, whitespace(), i as int);
    }
    slice(s, i, s.len())
}

/// `s` without its trailing whitespace.
pub fn trim_end_of<'a>(s: &'a [char]) -> (r: &'a [char])
    ensures
        r@ == trim_end(s@),
{
    let mut j: usize = s.len();
    while j > 0 && char_is_whitespace(s[j - 1])
        invariant
            j <= s@.len(),
            forall|k: int| j <= k < s@.len() ==> whitespace()(#[trigger] s@[k]),
        decreases j,
    {
        j -= 1;
    }
    proof {
        lemma_suffix_len_is(s@, whitespace(), s@.len() - j);
    }
    slice(s, 0, j)
}

/// `s` without the whitespace at either end.
pub fn trim_of<'a>(s: &'a [char]) -> (r: &'a [char])
    ensures
        r@ == trim(s@),
{
    trim_end_of(trim_start_of(s))
}

/// The sequences that `lines` stand for.
pub open spec fn line_views(lines: Seq<&[char]>) -> Seq<Seq<char>> {
    Seq::new(lines.len(), |i: int| lines[i]@)
}

/// `l` without one carriage return at its end.
pub open spec fn strip_cr(l: Seq<char>) -> Seq<char> {
    if l.len() > 0 && l.last() == '\r' {
        l.drop_last()
    } else {
        l
    }
}

/// The lines of `s`: split after each line feed, the line feed and a carriage
/// return before it left out. A last line need not end in a line feed.
pub open spec fn split_lines(s: Seq<char>) -> Seq<Seq<char>>
    decreases s.len(),
{
    if s.len() == 0 {
        Seq::empty()
    } else {
        let k = find(s, '\n');
        if 0 <= k < s.len() {
            seq![strip_cr(s.take(k))] + split_lines(s.skip(k + 1))
        } else {
            seq![s]
        }
    }
}

/// The lines joined by single line feeds.
pub open spec fn join_lines(lines: Seq<Seq<char>>) -> Seq<char>
    decreases lines.len(),
{
    if lines.len() == 0 {
        Seq::empty()
    } else if lines.len() == 1 {
        lines[0]
    } else {
        join_lines(lines.drop_last()) + seq!['\n'] + lines.last()
    }
}

/// The lines of `s`, as parts of `s`.
pub fn lines_of<'a>(s: &'a [char]) -> (r: Vec<&'a [char]>)
    ensures
        line_views(r@) == split_lines(s@),
{
    let mut out: Vec<&'a [char]> = Vec::new();
    let mut pos: usize = 0;
    assert(s@.skip(0) == s@);
    assert(line_views(out@) + split_lines(s@) == split_lines(s@));
    while pos < s.len()
        invariant
            pos <= s@.len(),
            line_views(out@) + split_lines(s@.skip(pos as int)) == split_lines(s@),
        decreases s@.len() - pos,
    {
        let rest = slice(s, pos, s.len());
        let k = find_char(rest, '\n');
        let ghost before = line_views(out@);
        assert(rest@ == s@.skip(pos as int));
        if k < rest.len() {
            let mut end = k;
            if end > 0 && rest[end - 1] == '\r' {
                end -= 1;
            }
            let line = slice(rest, 0, end);
            assert(line@ == strip_cr(rest@.take(k as int)));
            out.push(line);
            assert(rest@.skip(k + 1) == s@.skip(pos + k + 1));
            assert(line_views(out@) == before + seq![line@]);
            assert(before + (seq![line@] + split_lines(rest@.skip(k + 1))) == (before
                + seq![line@]) + split_lines(rest@.skip(k + 1)));
            pos = pos + k + 1;
        } else {
            out.push(rest);
            assert(line_views(out@) == before + seq![rest@]);
            assert(s@.skip(s@.len() as int) == Seq::<char>::empty());
            assert(split_lines(s@.skip(s@.len() as int)) == Seq::<Seq<char>>::empty());
            pos = s.len();
        }
    }
    assert(s@.skip(pos as int) == Seq::<char>::empty());
    assert(split_lines(s@.skip(pos as int)) == Seq::<Seq<char>>::empty());
    assert(line_views(out@) + Seq::<Seq<char>>::empty() == line_views(out@));
    out
}

/// The first `n` of `lines`, joined by single line feeds.
pub fn join_lines_of(lines: &Vec<&[char]>, n: usize) -> (r: Vec<char>)
    requires
        n <= lines@.len(),
    ensures
        r@ == join_lines(line_views(lines@).take(n as int)),
{
    let mut out: Vec<char> = Vec::new();
    let mut i: usize = 0;
    let ghost views = line_views(lines@);
    while i < n
        invariant
            i <= n <= lines@.len(),
            views == line_views(lines@),
            out@ == join_lines(views.take(i as int)),
        decreases n - i,
    {
        if i > 0 {
            out.push('\n');
        }
        out.extend_from_slice(lines[i]);
        proof {
            let next = views.take(i + 1);
            assert(next.drop_last() == views.take(i as int));
            assert(next.last() == lines@[i as int]@);
            if i == 0 {
                assert(join_lines(views.take(0)) == Seq::<char>::empty());
                assert(out@ == lines@[0]@);
            }
        }
        i += 1;
    }
    out
}

/// The lines from `from` up to `to`, joined by single line feeds.
pub fn join_lines_between(lines: &Vec<&[char]>, from: usize, to: usize) -> (r: Vec<char>)
    requires
        from <= to <= lines@.len(),
    ensures
        r@ == join_lines(line_views(lines@).subrange(from as int, to as int)),
{
    let mut out: Vec<char> = Vec::new();
    let mut i: usize = from;
    let ghost views = line_views(lines@).subrange(from as int, to as int);
    while i < to
        invariant
            from <= i <= to <= lines@.len(),
            views == line_views(lines@).subrange(from as int, to as int),
            out@ == join_lines(views.take(i - from)),
        decreases to - i,
    {
        if i > from {
            out.push('\n');
        }
        out.extend_from_slice(lines[i]);
        proof {
            let next = views.take(i - from + 1);
            assert(next.drop_last() == views.take(i - from));
            assert(next.last() == lines@[i as int]@);
            if i == from {
                assert(join_lines(views.take(0)) == Seq::<char>::empty());
                assert(out@ == lines@[i as int]@);
            }
        }
        i += 1;
    }
    assert(views.take(to - from) == views);
    out
}

/// `s` with every ASCII capital replaced by its small letter.
pub fn lower_of(s: &[char]) -> (r: Vec<char>)
    ensures
        r@ == lower(s@),
{
    let mut out: Vec<char> = Vec::new();
    let mut i: usize = 0;
    while i < s.len()
        invariant
            i <= s@.len(),
            out@ == lower(s@).take(i as int),
        decreases s@.len() - i,
    {
        out.push(char_to_ascii_lower(s[i]));
        assert(out@ == lower(s@).take(i + 1));
        i += 1;
    }
    assert(lower(s@).take(s@.len() as int) == lower(s@));
    out
}

/// Whether `a` and `b` hold the same characters.
pub fn same_chars(a: &[char], b: &[char]) -> (r: bool)
    ensures
        r == (a@ == b@),
{
    if a.len() != b.len() {
        return false;
    }
    let mut i: usize = 0;
    while i < a.len()
        invariant
            a@.len() == b@.len(),
            i <= a@.len(),
            a@.take(i as int) == b@.take(i as int),
        decreases a@.len() - i,
    {
        if a[i] != b[i] {
            return false;
        }
        assert(a@.take(i + 1) == a@.take(i as int).push(a@[i as int]));
        assert(b@.take(i + 1) == b@.take(i as int).push(b@[i as int]));
        i += 1;
    }
    assert(a@.take(a@.len() as int) == a@);
    assert(b@.take(b@.len() as int) == b@);
    true
}

/// Whether `a` and `b` are equal up to the case of ASCII letters.
pub fn same_chars_ignore_case(a: &[char], b: &[char]) -> (r: bool)
    ensures
        r == eq_ignore_ascii_case(a@, b@),
{
    if a.len() != b.len() {
        assert(lower(a@).len() != lower(b@).len());
        return false;
    }
    let mut i: usize = 0;
    while i < a.len()
        invariant
            a@.len() == b@.len(),
            i <= a@.len(),
            forall|j: int| 0 <= j < i ==> to_ascii_lower(a@[j]) == to_ascii_lower(b@[j]),
        decreases a@.len() - i,
    {
        if char_to_ascii_lower(a[i]) != char_to_ascii_lower(b[i]) {
            assert(lower(a@)[i as int] != lower(b@)[i as int]);
            return false;
        }
        i += 1;
    }
    assert(lower(a@) =~= lower(b@));
    true
}

/// Whether `s` begins with `prefix`.
pub fn has_prefix(s: &[char], prefix: &[char]) -> (r: bool)
    ensures
        r == starts_with(s@, prefix@),
{
    if prefix.len() > s.len() {
        return false;
    }
    let head = slice(s, 0, prefix.len());
    same_chars(head, prefix)
}

/// Whether the two texts hold the same characters.
pub fn same_text(a: &str, b: &str) -> (r: bool)
    ensures
        r == (a@ == b@),
{
    let x = chars_of(a);
    let y = chars_of(b);
    same_chars(x.as_slice(), y.as_slice())
}

/// The text made of the characters of `v`, as `String::from_iter` builds it
/// from the characters one after the other.
#[verifier::external_body]
pub(crate) fn string_of(v: &[char]) -> (r: String)
    ensures
        r@ == v@,
{
    v.iter().collect()
}

/// The characters of `s`, in order.
pub fn chars_of(s: &str) -> (r: Vec<char>)
    ensures
        r@ == s@,
{
    let mut out: Vec<char> = Vec::new();
    for c in it: s.chars()
        invariant
            out@ == it.seq().take(it.index() as int),
    {
        out.push(c);
    }
    out
}

/// The decimal digit for `d`, which is below ten.
pub open spec fn digit_char(d: nat) -> char {
    (('0' as u8) + (d as u8)) as char
}

/// `n` written in decimal digits, without leading zeros.
pub open spec fn decimal(n: nat) -> Seq<char>
    decreases n,
{
    if n < 10 {
        seq![digit_char(n)]
    } else {
        decimal(n / 10).push(digit_char(n % 10))
    }
}

/// Adds the characters of `s` to `out`.
pub fn push_text(out: &mut Vec<char>, s: &str)
    ensures
        final(out)@ == old(out)@ + s@,
{
    let mut chars = chars_of(s);
    out.append(&mut chars);
}

/// Adds `n` in decimal digits to `out`.
pub fn push_decimal(out: &mut Vec<char>, n: u64)
    ensures
        final(out)@ == old(out)@ + decimal(n as nat),
{
    let ghost before = out@;
    let mut digits: Vec<char> = Vec::new();
    let mut rest: u64 = n;
    digits.push((('0' as u8) + ((rest % 10) as u8)) as char);
    rest = rest / 10;
    assert(digits@ =~= seq![digit_char((n % 10) as nat)]);
    while rest > 0
        invariant
            digits@.len() > 0,
            decimal(n as nat) == if rest > 0 {
                decimal(rest as nat) + digits@.reverse()
            } else {
                digits@.reverse()
            },
        decreases rest,
    {
        let ghost old_digits = digits@;
        let ghost old_rest = rest;
        let c = (('0' as u8) + ((rest % 10) as u8)) as char;
        digits.push(c);
        rest = rest / 10;
        proof {
            assert(c == digit_char((old_rest % 10) as nat));
            assert(digits@.reverse() =~= seq![c] + old_digits.reverse());
            if old_rest < 10 {
                assert(decimal(old_rest as nat) =~= seq![c]);
                assert(rest == 0);
            } else {
                assert(decimal(old_rest as nat) == decimal(rest as nat).push(c));
                assert(decimal(rest as nat).push(c) + old_digits.reverse() =~= decimal(
                    rest as nat,
                ) + (seq![c] + old_digits.reverse()));
            }
        }
    }
    if n < 10 {
        assert(digits@.reverse() =~= seq![digit_char(n as nat)]);
    }
    let mut i: usize = digits.len();
    while i > 0
        invariant
            i <= digits@.len(),
            out@ == before + digits@.reverse().take(digits@.len() - i),
        decreases i,
    {
        i -= 1;
        out.push(digits[i]);
        assert(digits@.reverse().take(digits@.len() - i) =~= digits@.reverse().take(
            digits@.len() - i - 1,
        ).push(digits@[i as int]));
    }
    assert(digits@.reverse().take(digits@.len() as int) =~= digits@.reverse());
}

} // verus!
