//! Issue references: every `#` that digits follow, and the ascending list
//! without repeats that a commit keeps of them.

use crate::text::{
    ascii_digit, char_is_ascii_digit, chars_of, find, find_char, is_ascii_digit,
    lemma_prefix_len_is, prefix_len, slice,
};
use vstd::prelude::*;

verus! {

/// The number that the decimal digits `s` write.
pub open spec fn digits_value(s: Seq<char>) -> nat
    decreases s.len(),
{
    if s.len() == 0 {
        0
    } else {
        digits_value(s.drop_last()) * 10 + ((s.last() as u32 - '0' as u32) as nat)
    }
}

/// The numbers referred to in `t`, in the order in which they stand there: each
/// `#` with the digits that follow it at once. A number that does not fit in
/// 64 bits is passed over.
pub open spec fn issue_refs(t: Seq<char>) -> Seq<u64>
    decreases t.len(),
{
    let h = find(t, '#');
    if 0 <= h < t.len() {
        let rest = t.skip(h + 1);
        let d = prefix_len(rest, ascii_digit()) as int;
        if 0 <= d <= rest.len() {
            let tail = issue_refs(rest.skip(d));
            if d > 0 && digits_value(rest.take(d)) <= u64::MAX {
                seq![digits_value(rest.take(d)) as u64] + tail
            } else {
                tail
            }
        } else {
            Seq::empty()
        }
    } else {
        Seq::empty()
    }
}

/// `s`, which ascends, with `x` put in its place unless it is there already.
pub open spec fn insert_sorted(s: Seq<u64>, x: u64) -> Seq<u64>
    decreases s.len(),
{
    if s.len() == 0 {
        seq![x]
    } else if s.last() < x {
        s.push(x)
    } else if s.last() == x {
        s
    } else {
        insert_sorted(s.drop_last(), x).push(s.last())
    }
}

/// The numbers of `s` in ascending order, each once.
pub open spec fn sorted_unique(s: Seq<u64>) -> Seq<u64>
    decreases s.len(),
{
    if s.len() == 0 {
        Seq::empty()
    } else {
        insert_sorted(sorted_unique(s.drop_last()), s.last())
    }
}

/// Each number is smaller than the one after it.
pub open spec fn strictly_ascending(s: Seq<u64>) -> bool {
    forall|i: int, j: int| 0 <= i < j < s.len() ==> s[i] < s[j]
}

/// Putting a number in its place keeps the order and adds that number alone.
pub proof fn lemma_insert_sorted(s: Seq<u64>, x: u64)
    requires
        strictly_ascending(s),
    ensures
        strictly_ascending(insert_sorted(s, x)),
        insert_sorted(s, x).contains(x),
        forall|y: u64|
            #![trigger insert_sorted(s, x).contains(y)]
            #![trigger s.contains(y)]
            insert_sorted(s, x).contains(y) <==> (s.contains(y) || y == x),
    decreases s.len(),
{
    let r = insert_sorted(s, x);
    if s.len() == 0 {
        assert(r[0] == x);
        assert forall|y: u64| r.contains(y) <==> (s.contains(y) || y == x) by {
            if y == x {
                assert(r[0] == y);
            }
        }
    } else if s.last() < x {
        assert(r[s.len() as int] == x);
        assert forall|y: u64| r.contains(y) <==> (s.contains(y) || y == x) by {
            if s.contains(y) {
                let i = choose|i: int| 0 <= i < s.len() && s[i] == y;
                assert(r[i] == y);
            }
            if y == x {
                assert(r[s.len() as int] == y);
            }
            if r.contains(y) {
                let i = choose|i: int| 0 <= i < r.len() && r[i] == y;
                if i < s.len() {
                    assert(s[i] == y);
                }
            }
        }
    } else if s.last() == x {
        assert(s[s.len() - 1] == x);
        assert forall|y: u64| r.contains(y) <==> (s.contains(y) || y == x) by {
            if y == x {
                assert(s[s.len() - 1] == y);
            }
        }
    } else {
        let t = s.drop_last();
        let m = insert_sorted(t, x);
        assert(strictly_ascending(t)) by {
            assert forall|i: int, j: int| 0 <= i < j < t.len() implies t[i] < t[j] by {
                assert(t[i] == s[i] && t[j] == s[j]);
            }
        }
        lemma_insert_sorted(t, x);
        assert forall|i: int| 0 <= i < m.len() implies m[i] < s.last() by {
            assert(m.contains(m[i]));
            if t.contains(m[i]) {
                let k = choose|k: int| 0 <= k < t.len() && t[k] == m[i];
                assert(s[k] == t[k]);
            }
        }
        assert forall|i: int, j: int| 0 <= i < j < r.len() implies r[i] < r[j] by {
            if j < m.len() {
                assert(r[i] == m[i] && r[j] == m[j]);
            } else {
                assert(r[i] == m[i]);
            }
        }
        assert(r.contains(x)) by {
            let i = choose|i: int| 0 <= i < m.len() && m[i] == x;
            assert(r[i] == x);
        }
        assert forall|y: u64| r.contains(y) <==> (s.contains(y) || y == x) by {
            if r.contains(y) {
                let i = choose|i: int| 0 <= i < r.len() && r[i] == y;
                if i < m.len() {
                    assert(m[i] == y);
                    assert(m.contains(y));
                    if t.contains(y) {
                        let k = choose|k: int| 0 <= k < t.len() && t[k] == y;
                        assert(s[k] == y);
                    }
                } else {
                    assert(s[s.len() - 1] == y);
                }
            }
            if s.contains(y) {
                let k = choose|k: int| 0 <= k < s.len() && s[k] == y;
                if k < t.len() {
                    assert(t[k] == y);
                    assert(t.contains(y));
                    assert(m.contains(y));
                    let i = choose|i: int| 0 <= i < m.len() && m[i] == y;
                    assert(r[i] == y);
                } else {
                    assert(r[m.len() as int] == y);
                }
            }
        }
    }
}

/// The list that a commit keeps of its issue numbers ascends without repeats
/// and holds exactly the numbers that were found.
pub proof fn lemma_sorted_unique(s: Seq<u64>)
    ensures
        strictly_ascending(sorted_unique(s)),
        forall|y: u64|
            #![trigger sorted_unique(s).contains(y)]
            #![trigger s.contains(y)]
            sorted_unique(s).contains(y) <==> s.contains(y),
    decreases s.len(),
{
    if s.len() > 0 {
        let t = s.drop_last();
        lemma_sorted_unique(t);
        lemma_insert_sorted(sorted_unique(t), s.last());
        assert forall|y: u64| sorted_unique(s).contains(y) <==> s.contains(y) by {
            if s.contains(y) {
                let k = choose|k: int| 0 <= k < s.len() && s[k] == y;
                if k < t.len() {
                    assert(t[k] == y);
                    assert(t.contains(y));
                }
            }
            if t.contains(y) {
                let k = choose|k: int| 0 <= k < t.len() && t[k] == y;
                assert(s[k] == y);
            }
            if y == s.last() {
                assert(s[s.len() - 1] == y);
            }
        }
    }
}

/// Two ascending lists without repeats that hold the same numbers are one list.
pub proof fn lemma_strictly_ascending_unique(a: Seq<u64>, b: Seq<u64>)
    requires
        strictly_ascending(a),
        strictly_ascending(b),
        forall|y: u64| a.contains(y) <==> b.contains(y),
    ensures
        a == b,
    decreases a.len(),
{
    if a.len() == 0 {
        if b.len() > 0 {
            assert(b.contains(b[0]));
        }
        assert(a =~= b);
    } else {
        assert(a.contains(a.last()));
        let kb = choose|k: int| 0 <= k < b.len() && b[k] == a.last();
        assert(b.contains(b.last()));
        let ka = choose|k: int| 0 <= k < a.len() && a[k] == b.last();
        assert(a.last() == b.last());
        let a1 = a.drop_last();
        let b1 = b.drop_last();
        assert forall|y: u64| a1.contains(y) <==> b1.contains(y) by {
            if a1.contains(y) {
                let k = choose|k: int| 0 <= k < a1.len() && a1[k] == y;
                assert(a[k] == y);
                assert(a.contains(y));
                let j = choose|j: int| 0 <= j < b.len() && b[j] == y;
                assert(j < b.len() - 1);
                assert(b1[j] == y);
            }
            if b1.contains(y) {
                let k = choose|k: int| 0 <= k < b1.len() && b1[k] == y;
                assert(b[k] == y);
                assert(b.contains(y));
                let j = choose|j: int| 0 <= j < a.len() && a[j] == y;
                assert(j < a.len() - 1);
                assert(a1[j] == y);
            }
        }
        assert(strictly_ascending(a1)) by {
            assert forall|i: int, j: int| 0 <= i < j < a1.len() implies a1[i] < a1[j] by {
                assert(a1[i] == a[i] && a1[j] == a[j]);
            }
        }
        assert(strictly_ascending(b1)) by {
            assert forall|i: int, j: int| 0 <= i < j < b1.len() implies b1[i] < b1[j] by {
                assert(b1[i] == b[i] && b1[j] == b[j]);
            }
        }
        lemma_strictly_ascending_unique(a1, b1);
        assert(a =~= a1.push(a.last()));
        assert(b =~= b1.push(b.last()));
    }
}

/// A longer run of digits never writes a smaller number.
proof fn lemma_digits_value_grows(s: Seq<char>, k: int)
    requires
        0 <= k <= s.len(),
    ensures
        digits_value(s.take(k)) <= digits_value(s),
    decreases s.len() - k,
{
    if k < s.len() {
        lemma_digits_value_grows(s, k + 1);
        assert(s.take(k + 1).drop_last() == s.take(k));
    } else {
        assert(s.take(k) == s);
    }
}

/// The number that the digits `s` write, if it fits in 64 bits.
fn read_number(s: &[char]) -> (r: Option<u64>)
    requires
        forall|i: int| 0 <= i < s@.len() ==> is_ascii_digit(#[trigger] s@[i]),
    ensures
        r is Some <==> digits_value(s@) <= u64::MAX,
        r is Some ==> r->0 == digits_value(s@),
{
    let mut acc: u64 = 0;
    let mut i: usize = 0;
    assert(s@.take(0) == Seq::<char>::empty());
    while i < s.len()
        invariant
            i <= s@.len(),
            acc == digits_value(s@.take(i as int)),
            forall|j: int| 0 <= j < s@.len() ==> is_ascii_digit(#[trigger] s@[j]),
        decreases s@.len() - i,
    {
        let c = s[i];
        let d: u64 = (c as u32 - '0' as u32) as u64;
        proof {
            assert(s@.take(i + 1).drop_last() == s@.take(i as int));
            assert(s@.take(i + 1).last() == c);
            lemma_digits_value_grows(s@, i + 1);
        }
        if acc > (u64::MAX - d) / 10 {
            assert(digits_value(s@.take(i + 1)) > u64::MAX);
            return None;
        }
        acc = acc * 10 + d;
        i += 1;
    }
    assert(s@.take(s@.len() as int) == s@);
    Some(acc)
}

/// The numbers referred to in `text`, in the order in which they stand there.
pub fn issue_refs_of(text: &[char]) -> (r: Vec<u64>)
    ensures
        r@ == issue_refs(text@),
{
    let mut out: Vec<u64> = Vec::new();
    let n = text.len();
    let mut pos: usize = 0;
    assert(text@.skip(0) == text@);
    while pos < n
        invariant
            n == text@.len(),
            pos <= n,
            out@ + issue_refs(text@.skip(pos as int)) == issue_refs(text@),
        decreases n - pos,
    {
        let t = slice(text, pos, n);
        assert(t@ == text@.skip(pos as int));
        let h = find_char(t, '#');
        if h >= t.len() {
            assert(issue_refs(t@) == Seq::<u64>::empty());
            assert(out@ + Seq::<u64>::empty() == out@);
            return out;
        }
        let rest = slice(t, h + 1, t.len());
        assert(rest@ == t@.skip(h + 1));
        let mut d: usize = 0;
        while d < rest.len() && char_is_ascii_digit(rest[d])
            invariant
                d <= rest@.len(),
                forall|j: int| 0 <= j < d ==> ascii_digit()(#[trigger] rest@[j]),
            decreases rest@.len() - d,
        {
            d += 1;
        }
        proof {
            lemma_prefix_len_is(rest@, ascii_digit(), d as int);
            assert(rest@.skip(d as int) == text@.skip(pos + h + 1 + d));
        }
        let ghost before = out@;
        let ghost tail = issue_refs(rest@.skip(d as int));
        if d > 0 {
            let digits = slice(rest, 0, d);
            assert(digits@ == rest@.take(d as int));
            assert forall|i: int| 0 <= i < digits@.len() implies is_ascii_digit(
                #[trigger] digits@[i],
            ) by {
                assert(ascii_digit()(rest@[i]));
            }
            match read_number(digits) {
                Some(num) => {
                    out.push(num);
                    assert(out@ + tail == before + (seq![num] + tail));
                },
                None => {},
            }
        }
        pos = pos + h + 1 + d;
    }
    assert(text@.skip(pos as int) == Seq::<char>::empty());
    assert(issue_refs(Seq::<char>::empty()) == Seq::<u64>::empty());
    assert(out@ + Seq::<u64>::empty() == out@);
    out
}

/// Puts `x` in its place in the ascending `v`, unless it is there already.
fn insert_issue(v: &mut Vec<u64>, x: u64)
    ensures
        final(v)@ == insert_sorted(old(v)@, x),
{
    let ghost orig = v@;
    let mut i: usize = v.len();
    assert(orig.take(i as int) == orig);
    assert(orig.skip(i as int) == Seq::<u64>::empty());
    assert(insert_sorted(orig, x) + Seq::<u64>::empty() == insert_sorted(orig, x));
    while i > 0 && v[i - 1] > x
        invariant
            v@ == orig,
            i <= orig.len(),
            insert_sorted(orig, x) == insert_sorted(orig.take(i as int), x) + orig.skip(i as int),
        decreases i,
    {
        proof {
            let t = orig.take(i as int);
            assert(t.drop_last() == orig.take(i - 1));
            assert(t.last() == orig[i - 1]);
            assert(insert_sorted(t, x) == insert_sorted(orig.take(i - 1), x).push(orig[i - 1]));
            assert(insert_sorted(orig.take(i - 1), x).push(orig[i - 1]) + orig.skip(i as int)
                == insert_sorted(orig.take(i - 1), x) + orig.skip(i - 1));
        }
        i -= 1;
    }
    if i > 0 && v[i - 1] == x {
        assert(orig.take(i as int).last() == x);
        assert(orig.take(i as int) + orig.skip(i as int) == orig);
    } else {
        proof {
            let t = orig.take(i as int);
            if i > 0 {
                assert(t.last() == orig[i - 1]);
            }
            assert(insert_sorted(t, x) == t.push(x));
            assert(t.push(x) + orig.skip(i as int) == orig.insert(i as int, x));
        }
        v.insert(i, x);
    }
}

/// The numbers of `all` in ascending order, each once.
pub fn sorted_unique_of(all: &Vec<u64>) -> (r: Vec<u64>)
    ensures
        r@ == sorted_unique(all@),
{
    let mut out: Vec<u64> = Vec::new();
    let mut i: usize = 0;
    assert(all@.take(0) == Seq::<u64>::empty());
    while i < all.len()
        invariant
            i <= all@.len(),
            out@ == sorted_unique(all@.take(i as int)),
        decreases all@.len() - i,
    {
        assert(all@.take(i + 1).drop_last() == all@.take(i as int));
        assert(all@.take(i + 1).last() == all@[i as int]);
        insert_issue(&mut out, all[i]);
        i += 1;
    }
    assert(all@.take(all@.len() as int) == all@);
    out
}

/// Fast extraction of the issue numbers that `text` refers to, in the order in
/// which they stand there.
pub fn extract_issues_fast(text: &str) -> (r: Vec<u64>)
    ensures
        r@ == issue_refs(text@),
{
    let chars = chars_of(text);
    issue_refs_of(chars.as_slice())
}

} // verus!
