//! Character-level utilities shared by the tokenizer and the parsers.

use vstd::prelude::*;
use vstd::slice::slice_subrange;
use vstd::string::StrSliceExecFns;

verus! {

/// The characters of a string slice, collected into a vector.
pub fn chars_of(s: &str) -> (v: Vec<char>)
    ensures
        v@ == s@,
{
    let n = s.unicode_len();
    let mut v: Vec<char> = Vec::new();
    let mut i: usize = 0;
    while i < n
        invariant
            i <= n,
            n == s@.len(),
            v@ == s@.take(i as int),
        decreases n - i,
    {
        v.push(s.get_char(i));
        proof {
            assert(v@ =~= s@.take(i + 1));
        }
        i = i + 1;
    }
    proof {
        assert(s@.take(n as int) =~= s@);
    }
    v
}

/// The position of the first occurrence of `c` in `s`, or `s.len()`
/// when `c` does not occur.
pub open spec fn first_idx(s: Seq<char>, c: char) -> int
    decreases s.len(),
{
    if s.len() == 0 {
        0
    } else if s[0] == c {
        0
    } else {
        1 + first_idx(s.skip(1), c)
    }
}

/// What [`first_idx`] gives: an in-range position, nothing equal to `c`
/// before it, and `c` at it unless `c` does not occur at all.
pub proof fn lemma_first_idx(s: Seq<char>, c: char)
    ensures
        0 <= first_idx(s, c) <= s.len(),
        forall|j: int| 0 <= j < first_idx(s, c) ==> s[j] != c,
        first_idx(s, c) < s.len() ==> s[first_idx(s, c)] == c,
    decreases s.len(),
{
    if s.len() > 0 && s[0] != c {
        lemma_first_idx(s.skip(1), c);
        assert forall|j: int| 0 <= j < first_idx(s, c) implies s[j] != c by {
            if j > 0 {
                assert(s.skip(1)[j - 1] == s[j]);
            }
        }
        if first_idx(s, c) < s.len() {
            assert(s.skip(1)[first_idx(s, c) - 1] == s[first_idx(s, c)]);
        }
    }
}

/// Finds the first occurrence of `c` in `s`, or `s.len()`.
pub fn find_char(s: &[char], c: char) -> (r: usize)
    ensures
        r == first_idx(s@, c),
{
    let mut i: usize = 0;
    proof {
        assert(s@.skip(0) =~= s@);
    }
    while i < s.len()
        invariant
            i <= s.len(),
            first_idx(s@, c) == i + first_idx(s@.skip(i as int), c),
        decreases s.len() - i,
    {
        proof {
            assert(s@.skip(i as int)[0] == s@[i as int]);
            assert(s@.skip(i as int).skip(1) =~= s@.skip(i as int + 1));
        }
        if s[i] == c {
            return i;
        }
        i = i + 1;
    }
    proof {
        assert(s@.skip(s@.len() as int).len() == 0);
    }
    i
}

/// Whether `c` counts as trimmable whitespace: the ASCII whitespace
/// characters.
pub open spec fn is_ws(c: char) -> bool {
    c == ' ' || c == '\t' || c == '\r' || c == '\n' || c == '\u{b}' || c == '\u{c}'
}

/// `s` without its leading whitespace.
pub open spec fn spec_trim_front(s: Seq<char>) -> Seq<char>
    decreases s.len(),
{
    if s.len() > 0 && is_ws(s[0]) {
        spec_trim_front(s.skip(1))
    } else {
        s
    }
}

/// `s` without its trailing whitespace.
pub open spec fn spec_trim_back(s: Seq<char>) -> Seq<char>
    decreases s.len(),
{
    if s.len() > 0 && is_ws(s.last()) {
        spec_trim_back(s.drop_last())
    } else {
        s
    }
}

/// `s` without leading and trailing whitespace.
pub open spec fn spec_trim(s: Seq<char>) -> Seq<char> {
    spec_trim_back(spec_trim_front(s))
}

fn is_ws_char(c: char) -> (r: bool)
    ensures
        r == is_ws(c),
{
    c == ' ' || c == '\t' || c == '\r' || c == '\n' || c == '\u{b}' || c == '\u{c}'
}

/// Strips leading and trailing whitespace from a character slice.
pub fn trim_slice(s: &[char]) -> (r: &[char])
    ensures
        r@ == spec_trim(s@),
{
    let mut lo: usize = 0;
    proof {
        assert(s@.skip(0) =~= s@);
    }
    while lo < s.len() && is_ws_char(s[lo])
        invariant
            lo <= s.len(),
            spec_trim_front(s@) == spec_trim_front(s@.skip(lo as int)),
        decreases s.len() - lo,
    {
        proof {
            assert(s@.skip(lo as int)[0] == s@[lo as int]);
            assert(s@.skip(lo as int).skip(1) =~= s@.skip(lo as int + 1));
        }
        lo = lo + 1;
    }
    proof {
        if lo < s@.len() {
            assert(s@.skip(lo as int)[0] == s@[lo as int]);
        }
        assert(spec_trim_front(s@) == s@.skip(lo as int));
    }
    let ghost t = s@.skip(lo as int);
    let mut hi: usize = s.len();
    proof {
        assert(t.take(hi - lo) =~= t);
    }
    while hi > lo && is_ws_char(s[hi - 1])
        invariant
            lo <= hi <= s.len(),
            t == s@.skip(lo as int),
            spec_trim_back(t) == spec_trim_back(t.take(hi - lo)),
        decreases hi,
    {
        proof {
            let k = hi - lo;
            assert(t.take(k).last() == s@[hi - 1]);
            assert(t.take(k).drop_last() =~= t.take(k - 1));
        }
        hi = hi - 1;
    }
    proof {
        let k = hi - lo;
        if hi > lo {
            assert(t.take(k).last() == s@[hi - 1]);
        }
        assert(spec_trim_back(t.take(k)) == t.take(k));
        assert(t.take(k) =~= s@.subrange(lo as int, hi as int));
    }
    slice_subrange(s, lo, hi)
}

/// The pieces of `s` between occurrences of the separator `c`: always
/// at least one piece, empty pieces kept.
pub open spec fn spec_split(s: Seq<char>, c: char) -> Seq<Seq<char>>
    decreases s.len(),
{
    if s.len() == 0 {
        seq![Seq::<char>::empty()]
    } else if s[0] == c {
        seq![Seq::<char>::empty()] + spec_split(s.skip(1), c)
    } else {
        let rest = spec_split(s.skip(1), c);
        seq![seq![s[0]] + rest[0]] + rest.skip(1)
    }
}

/// A split always yields at least one piece.
pub proof fn lemma_split_len(s: Seq<char>, c: char)
    ensures
        spec_split(s, c).len() >= 1,
    decreases s.len(),
{
    if s.len() > 0 {
        lemma_split_len(s.skip(1), c);
    }
}

/// Splits a character slice at every occurrence of the separator.
pub fn split_chars(s: &[char], c: char) -> (out: Vec<Vec<char>>)
    ensures
        out@.map_values(|p: Vec<char>| p@) == spec_split(s@, c),
        out@.len() >= 1,
{
    let mut out: Vec<Vec<char>> = Vec::new();
    let mut cur: Vec<char> = Vec::new();
    let mut i: usize = 0;
    proof {
        assert(s@.skip(0) =~= s@);
        lemma_split_len(s@, c);
        let r = spec_split(s@, c);
        assert(out@.map_values(|p: Vec<char>| p@) =~= Seq::<Seq<char>>::empty());
        assert(cur@ + r[0] =~= r[0]);
        assert(r =~~= out@.map_values(|p: Vec<char>| p@) + seq![cur@ + r[0]] + r.skip(1));
    }
    while i < s.len()
        invariant
            i <= s.len(),
            spec_split(s@, c) == out@.map_values(|p: Vec<char>| p@) + seq![
                cur@ + spec_split(s@.skip(i as int), c)[0],
            ] + spec_split(s@.skip(i as int), c).skip(1),
        decreases s.len() - i,
    {
        let ghost rest = spec_split(s@.skip(i as int), c);
        let ghost rest1 = spec_split(s@.skip(i as int + 1), c);
        let ghost out0 = out@;
        let ghost cur0 = cur@;
        proof {
            lemma_split_len(s@.skip(i as int + 1), c);
            assert(s@.skip(i as int)[0] == s@[i as int]);
            assert(s@.skip(i as int).skip(1) =~= s@.skip(i as int + 1));
        }
        if s[i] == c {
            proof {
                assert(rest =~= seq![Seq::<char>::empty()] + rest1);
                assert(rest[0] =~= Seq::<char>::empty());
                assert(rest.skip(1) =~= rest1);
                assert(cur0 + rest[0] =~= cur0);
            }
            let done = cur;
            cur = Vec::new();
            out.push(done);
            proof {
                assert(out@.map_values(|p: Vec<char>| p@) =~= out0.map_values(
                    |p: Vec<char>| p@,
                ).push(cur0));
                assert(cur@ + rest1[0] =~= rest1[0]);
                assert(spec_split(s@, c) =~~= out@.map_values(|p: Vec<char>| p@) + seq![
                    cur@ + rest1[0],
                ] + rest1.skip(1));
            }
        } else {
            proof {
                assert(rest =~= seq![seq![s@[i as int]] + rest1[0]] + rest1.skip(1));
                assert(rest[0] =~= seq![s@[i as int]] + rest1[0]);
                assert(rest.skip(1) =~= rest1.skip(1));
            }
            let ch = s[i];
            cur.push(ch);
            proof {
                assert(cur@ + rest1[0] =~= cur0 + rest[0]);
                assert(spec_split(s@, c) =~~= out@.map_values(|p: Vec<char>| p@) + seq![
                    cur@ + rest1[0],
                ] + rest1.skip(1));
            }
        }
        i = i + 1;
    }
    let ghost out0 = out@;
    let ghost cur0 = cur@;
    proof {
        assert(s@.skip(s@.len() as int).len() == 0);
        let rest = spec_split(s@.skip(i as int), c);
        assert(rest =~= seq![Seq::<char>::empty()]);
        assert(cur0 + rest[0] =~= cur0);
    }
    out.push(cur);
    proof {
        assert(out@.map_values(|p: Vec<char>| p@) =~= out0.map_values(|p: Vec<char>| p@).push(
            cur0,
        ));
        assert(spec_split(s@, c) =~~= out@.map_values(|p: Vec<char>| p@));
    }
    out
}

/// An upper-case ASCII letter lowered; every other character unchanged.
pub open spec fn spec_lower_char(c: char) -> char {
    if 'A' <= c && c <= 'Z' {
        (((c as u8) + 32) as u8) as char
    } else {
        c
    }
}

/// `s` with every upper-case ASCII letter lowered.
pub open spec fn spec_lower(s: Seq<char>) -> Seq<char> {
    s.map_values(|c: char| spec_lower_char(c))
}

/// Lowers the upper-case ASCII letters of a character slice.
pub fn lower_chars(s: &[char]) -> (v: Vec<char>)
    ensures
        v@ == spec_lower(s@),
{
    let mut v: Vec<char> = Vec::new();
    let mut i: usize = 0;
    while i < s.len()
        invariant
            i <= s.len(),
            v@ == s@.take(i as int).map_values(|c: char| spec_lower_char(c)),
        decreases s.len() - i,
    {
        let c = s[i];
        let l: char = if 'A' <= c && c <= 'Z' {
            ((c as u8) + 32) as char
        } else {
            c
        };
        v.push(l);
        proof {
            assert(v@ =~= s@.take(i as int + 1).map_values(|c: char| spec_lower_char(c)));
        }
        i = i + 1;
    }
    proof {
        assert(s@.take(s@.len() as int) =~= s@);
    }
    v
}

/// Whether two character slices hold the same characters.
pub fn chars_eq(a: &[char], b: &[char]) -> (r: bool)
    ensures
        r == (a@ == b@),
{
    if a.len() != b.len() {
        return false;
    }
    let mut i: usize = 0;
    while i < a.len()
        invariant
            i <= a.len(),
            a@.len() == b@.len(),
            forall|j: int| 0 <= j < i ==> a@[j] == b@[j],
        decreases a.len() - i,
    {
        if a[i] != b[i] {
            return false;
        }
        i = i + 1;
    }
    proof {
        assert(a@ =~= b@);
    }
    true
}

} // verus!
