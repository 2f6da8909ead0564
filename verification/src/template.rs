//! Templates with `{{newVersion}}`, `{{previousVersion}}` and `{{date}}`.

use crate::text::{chars_of, decimal, push_decimal, push_text, same_chars, slice, string_of};
use crate::version::{written, Version, VersionView};
use vstd::prelude::*;

verus! {

/// A day of the calendar.
#[derive(Debug, Clone, Copy, PartialEq, Eq, Structural)]
pub struct Date {
    pub year: i16,
    pub month: i8,
    pub day: i8,
}

/// `n` in decimal digits, with a minus sign where it is below zero.
pub open spec fn signed_decimal(n: int) -> Seq<char> {
    if n < 0 {
        "-"@ + decimal((-n) as nat)
    } else {
        decimal(n as nat)
    }
}

/// `n` in at least two characters: a single digit gets a zero before it.
pub open spec fn two_digits(n: int) -> Seq<char> {
    if 0 <= n < 10 {
        "0"@ + decimal(n as nat)
    } else {
        signed_decimal(n)
    }
}

/// The date as year, month and day with hyphens between them, month and day
/// in two digits.
pub open spec fn date_text(date: Date) -> Seq<char> {
    signed_decimal(date.year as int) + "-"@ + two_digits(date.month as int) + "-"@ + two_digits(
        date.day as int,
    )
}

/// Where the key that starts at `from` ends: at the first pair of closing
/// braces, or at the end of the template.
pub open spec fn key_end(t: Seq<char>, from: int) -> int
    decreases t.len() - from,
{
    if from >= t.len() {
        t.len() as int
    } else if from >= 0 && t[from] == '}' && from + 1 < t.len() && t[from + 1] == '}' {
        from
    } else {
        key_end(t, from + 1)
    }
}

/// What stands in place of `{{key}}`: the value that the key names, or the
/// key in its braces where it names none.
pub open spec fn replacement(
    key: Seq<char>,
    previous: VersionView,
    new_version: VersionView,
    date: Date,
) -> Seq<char> {
    if key == "newVersion"@ {
        written(new_version)
    } else if key == "previousVersion"@ {
        written(previous)
    } else if key == "date"@ {
        date_text(date)
    } else {
        "{{"@ + key + "}}"@
    }
}

/// The template from `pos` on with its keys replaced. Two opening braces
/// start a key, unless a third follows: then one brace is written and the
/// reading goes on at the third. A key runs up to the next pair of closing
/// braces, or to the end.
pub open spec fn interpolated_from(
    t: Seq<char>,
    pos: int,
    previous: VersionView,
    new_version: VersionView,
    date: Date,
) -> Seq<char>
    decreases t.len() - pos,
{
    if pos < 0 || pos >= t.len() {
        Seq::empty()
    } else if t[pos] == '{' && pos + 1 < t.len() && t[pos + 1] == '{' {
        if pos + 2 < t.len() && t[pos + 2] == '{' {
            seq!['{'] + interpolated_from(t, pos + 2, previous, new_version, date)
        } else if pos + 2 <= key_end(t, pos + 2) && key_end(t, pos + 2) + 1 < t.len() {
            replacement(t.subrange(pos + 2, key_end(t, pos + 2)), previous, new_version, date)
                + interpolated_from(t, key_end(t, pos + 2) + 2, previous, new_version, date)
        } else {
            replacement(t.skip(pos + 2), previous, new_version, date)
        }
    } else {
        seq![t[pos]] + interpolated_from(t, pos + 1, previous, new_version, date)
    }
}

/// The template with its keys replaced.
pub open spec fn interpolated(
    template: Seq<char>,
    previous: VersionView,
    new_version: VersionView,
    date: Date,
) -> Seq<char> {
    interpolated_from(template, 0, previous, new_version, date)
}

/// Adds `n` in decimal digits, with its sign, to `out`.
fn push_signed(out: &mut Vec<char>, n: i16)
    ensures
        final(out)@ == old(out)@ + signed_decimal(n as int),
{
    let ghost before = out@;
    if n < 0 {
        push_text(out, "-");
        let magnitude: u64 = (-(n as i32)) as u64;
        push_decimal(out, magnitude);
    } else {
        push_decimal(out, n as u64);
    }
    assert(out@ =~= before + signed_decimal(n as int));
}

/// Adds `n` in at least two characters to `out`.
fn push_two_digits(out: &mut Vec<char>, n: i8)
    ensures
        final(out)@ == old(out)@ + two_digits(n as int),
{
    let ghost before = out@;
    if 0 <= n && n < 10 {
        push_text(out, "0");
        push_decimal(out, n as u64);
    } else {
        push_signed(out, n as i16);
    }
    assert(out@ =~= before + two_digits(n as int));
}

/// Adds the date to `out`.
fn push_date(out: &mut Vec<char>, date: &Date)
    ensures
        final(out)@ == old(out)@ + date_text(*date),
{
    let ghost before = out@;
    push_signed(out, date.year);
    push_text(out, "-");
    push_two_digits(out, date.month);
    push_text(out, "-");
    push_two_digits(out, date.day);
    assert(out@ =~= before + date_text(*date));
}

/// Adds what stands in place of `{{key}}` to `out`.
fn push_replacement(
    out: &mut Vec<char>,
    key: &[char],
    previous: &Version,
    new_version: &Version,
    date: &Date,
)
    ensures
        final(out)@ == old(out)@ + replacement(key@, previous@, new_version@, *date),
{
    let ghost before = out@;
    if same_chars(key, chars_of("newVersion").as_slice()) {
        new_version.write_to(out);
    } else if same_chars(key, chars_of("previousVersion").as_slice()) {
        previous.write_to(out);
    } else if same_chars(key, chars_of("date").as_slice()) {
        push_date(out, date);
    } else {
        push_text(out, "{{");
        out.extend_from_slice(key);
        push_text(out, "}}");
        assert(out@ =~= before + ("{{"@ + key@ + "}}"@));
    }
}

/// Where the key that starts at `from` ends.
fn find_key_end(t: &[char], from: usize) -> (r: usize)
    requires
        from <= t@.len(),
    ensures
        r == key_end(t@, from as int),
        from <= r <= t@.len(),
        r < t@.len() ==> r + 1 < t@.len(),
{
    let n = t.len();
    let mut i: usize = from;
    while i < n && !(t[i] == '}' && i + 1 < n && t[i + 1] == '}')
        invariant
            n == t@.len(),
            from <= i <= n,
            key_end(t@, from as int) == key_end(t@, i as int),
        decreases n - i,
    {
        i += 1;
    }
    i
}

/// Interpolate template variables in a string: `{{newVersion}}`,
/// `{{previousVersion}}` and `{{date}}` are replaced, any other key stays as
/// it is.
pub fn interpolate(template: &str, previous: &Version, new_version: &Version, date: &Date) -> (r:
    String)
    ensures
        r@ == interpolated(template@, previous@, new_version@, *date),
{
    let chars = chars_of(template);
    let t = chars.as_slice();
    let n = t.len();
    let mut out: Vec<char> = Vec::new();
    let mut pos: usize = 0;
    let ghost whole = interpolated(template@, previous@, new_version@, *date);
    assert(out@ + whole =~= whole);
    while pos < n
        invariant
            n == t@.len(),
            t@ == template@,
            pos <= n,
            out@ + interpolated_from(t@, pos as int, previous@, new_version@, *date) == whole,
        decreases n - pos,
    {
        let ghost before = out@;
        let ghost rest = interpolated_from(t@, pos as int, previous@, new_version@, *date);
        if t[pos] == '{' && pos + 1 < n && t[pos + 1] == '{' {
            if pos + 2 < n && t[pos + 2] == '{' {
                out.push('{');
                assert(out@ + interpolated_from(
                    t@,
                    pos + 2,
                    previous@,
                    new_version@,
                    *date,
                ) =~= before + rest);
                pos = pos + 2;
            } else {
                let e = find_key_end(t, pos + 2);
                let key = slice(t, pos + 2, e);
                push_replacement(&mut out, key, previous, new_version, date);
                if e < n {
                    assert(out@ + interpolated_from(
                        t@,
                        e + 2,
                        previous@,
                        new_version@,
                        *date,
                    ) =~= before + rest);
                    pos = e + 2;
                } else {
                    assert(t@.skip(pos + 2) == t@.subrange(pos + 2, e as int));
                    assert(out@ + interpolated_from(
                        t@,
                        n as int,
                        previous@,
                        new_version@,
                        *date,
                    ) =~= before + rest);
                    pos = n;
                }
            }
        } else {
            out.push(t[pos]);
            assert(out@ + interpolated_from(
                t@,
                pos + 1,
                previous@,
                new_version@,
                *date,
            ) =~= before + rest);
            pos = pos + 1;
        }
    }
    assert(out@ + Seq::<char>::empty() =~= out@);
    string_of(out.as_slice())
}

} // verus!
