//! Prefix, suffix, search and replacement on strings, as `str` does them.

use vstd::prelude::*;
use crate::text::{chars_of, push_char, push_str, string_from_range, occurs_at, occurs_at_exec,
    find_from, find_from_exec, contains_seq, lemma_find_from_zero};

verus! {

/// `p` is a prefix of `s`.
pub open spec fn has_prefix(s: Seq<char>, p: Seq<char>) -> bool {
    p.len() <= s.len() && s.take(p.len() as int) == p
}

/// `p` is a suffix of `s`.
pub open spec fn has_suffix(s: Seq<char>, p: Seq<char>) -> bool {
    p.len() <= s.len() && s.skip(s.len() - p.len()) == p
}

/// `s` without any leading `c`.
pub open spec fn strip_leading(s: Seq<char>, c: char) -> Seq<char>
    decreases s.len(),
{
    if s.len() > 0 && s[0] == c {
        strip_leading(s.drop_first(), c)
    } else {
        s
    }
}

/// `s` without any trailing `c`.
pub open spec fn strip_trailing_char(s: Seq<char>, c: char) -> Seq<char>
    decreases s.len(),
{
    if s.len() > 0 && s.last() == c {
        strip_trailing_char(s.drop_last(), c)
    } else {
        s
    }
}

/// `s` without any repetition of the suffix `p` at its end; an empty `p`
/// leaves `s` as it is.
pub open spec fn strip_trailing(s: Seq<char>, p: Seq<char>) -> Seq<char>
    decreases s.len(),
{
    if p.len() > 0 && has_suffix(s, p) {
        strip_trailing(s.take(s.len() - p.len()), p)
    } else {
        s
    }
}

/// `s` without any repetition of the prefix `p` at its start; an empty `p`
/// leaves `s` as it is.
pub open spec fn strip_leading_str(s: Seq<char>, p: Seq<char>) -> Seq<char>
    decreases s.len(),
{
    if p.len() > 0 && has_prefix(s, p) {
        strip_leading_str(s.skip(p.len() as int), p)
    } else {
        s
    }
}

/// Each non-overlapping occurrence of `p`, from the left, replaced by `r`.
pub open spec fn replace_all(s: Seq<char>, p: Seq<char>, r: Seq<char>) -> Seq<char>
    decreases s.len(),
{
    if p.len() == 0 || s.len() < p.len() {
        s
    } else if s.take(p.len() as int) == p {
        r + replace_all(s.skip(p.len() as int), p, r)
    } else {
        seq![s[0]] + replace_all(s.drop_first(), p, r)
    }
}

/// Whether `s` starts with `p` (`str::starts_with`).
pub fn starts_with(s: &str, p: &str) -> (r: bool)
    ensures
        r == has_prefix(s@, p@),
{
    let v = chars_of(s);
    let w = chars_of(p);
    let r = occurs_at_exec(&v, &w, 0);
    proof {
        if r {
            assert(v@.take(w@.len() as int) =~= v@.subrange(0, w@.len() as int));
        } else if has_prefix(s@, p@) {
            assert(v@.take(w@.len() as int) =~= v@.subrange(0, w@.len() as int));
        }
    }
    r
}

/// Whether `s` ends with `p` (`str::ends_with`).
pub fn ends_with(s: &str, p: &str) -> (r: bool)
    ensures
        r == has_suffix(s@, p@),
{
    let v = chars_of(s);
    let w = chars_of(p);
    if w.len() > v.len() {
        return false;
    }
    let r = occurs_at_exec(&v, &w, v.len() - w.len());
    proof {
        assert(v@.skip(v@.len() - w@.len()) =~= v@.subrange(v@.len() - w@.len(), v@.len() as int));
    }
    r
}

/// Whether `c` starts `s`.
pub fn starts_with_char(s: &str, c: char) -> (r: bool)
    ensures
        r == (s@.len() > 0 && s@[0] == c),
{
    let v = chars_of(s);
    v.len() > 0 && v[0] == c
}

/// Whether `c` ends `s`.
pub fn ends_with_char(s: &str, c: char) -> (r: bool)
    ensures
        r == (s@.len() > 0 && s@.last() == c),
{
    let v = chars_of(s);
    v.len() > 0 && v[v.len() - 1] == c
}

/// Whether `p` occurs in `s` (`str::contains`).
pub fn contains_str(s: &str, p: &str) -> (r: bool)
    ensures
        r == contains_seq(s@, p@),
{
    let v = chars_of(s);
    let w = chars_of(p);
    proof { lemma_find_from_zero(s@, p@); }
    match find_from_exec(&v, &w, 0) {
        Some(_) => true,
        None => false,
    }
}

/// Whether `c` occurs in `s`.
pub fn contains_char_str(s: &str, c: char) -> (r: bool)
    ensures
        r == s@.contains(c),
{
    let v = chars_of(s);
    let mut i: usize = 0;
    while i < v.len()
        invariant
            0 <= i <= v.len(),
            v@ == s@,
            forall|j: int| 0 <= j < i ==> v@[j] != c,
        decreases v.len() - i,
    {
        if v[i] == c {
            assert(s@[i as int] == c);
            return true;
        }
        i = i + 1;
    }
    false
}

/// `s` without any leading `c` (`str::trim_start_matches` with a character).
pub fn trim_start_char(s: &str, c: char) -> (res: String)
    ensures
        res@ == strip_leading(s@, c),
{
    let v = chars_of(s);
    let mut lo: usize = 0;
    assert(s@.skip(0) =~= s@);
    while lo < v.len() && v[lo] == c
        invariant
            0 <= lo <= v.len(),
            v@ == s@,
            strip_leading(s@, c) == strip_leading(s@.skip(lo as int), c),
        decreases v.len() - lo,
    {
        assert(s@.skip(lo as int).drop_first() =~= s@.skip(lo + 1));
        lo = lo + 1;
    }
    let res = string_from_range(&v, lo, v.len());
    assert(res@ =~= s@.skip(lo as int));
    res
}

/// `s` without any trailing `c` (`str::trim_end_matches` with a character).
pub fn trim_end_char(s: &str, c: char) -> (res: String)
    ensures
        res@ == strip_trailing_char(s@, c),
{
    let v = chars_of(s);
    let mut hi: usize = v.len();
    assert(s@.take(hi as int) =~= s@);
    while hi > 0 && v[hi - 1] == c
        invariant
            0 <= hi <= v.len(),
            v@ == s@,
            strip_trailing_char(s@, c) == strip_trailing_char(s@.take(hi as int), c),
        decreases hi,
    {
        assert(s@.take(hi as int).drop_last() =~= s@.take(hi - 1));
        hi = hi - 1;
    }
    let res = string_from_range(&v, 0, hi);
    assert(res@ =~= s@.take(hi as int));
    res
}

/// `s` without any repetition of `p` at its end (`str::trim_end_matches`).
pub fn trim_end_str(s: &str, p: &str) -> (res: String)
    ensures
        res@ == strip_trailing(s@, p@),
{
    let v = chars_of(s);
    let w = chars_of(p);
    let mut hi: usize = v.len();
    assert(s@.take(hi as int) =~= s@);
    if w.len() == 0 {
        return string_from_range(&v, 0, v.len());
    }
    while hi >= w.len() && occurs_at_exec(&v, &w, hi - w.len())
        invariant
            0 <= hi <= v.len(),
            w.len() > 0,
            v@ == s@,
            w@ == p@,
            strip_trailing(s@, p@) == strip_trailing(s@.take(hi as int), p@),
        decreases hi,
    {
        let ghost t = s@.take(hi as int);
        assert(t.skip(t.len() - p@.len()) =~= v@.subrange(hi - w.len(), hi as int));
        assert(t.take(t.len() - p@.len()) =~= s@.take(hi - w.len()));
        hi = hi - w.len();
    }
    proof {
        let t = s@.take(hi as int);
        if has_suffix(t, p@) {
            assert(t.skip(t.len() - p@.len()) =~= v@.subrange(hi - w.len(), hi as int));
        }
    }
    let res = string_from_range(&v, 0, hi);
    assert(res@ =~= s@.take(hi as int));
    res
}

/// `s` without any repetition of `p` at its start (`str::trim_start_matches`).
pub fn trim_start_str(s: &str, p: &str) -> (res: String)
    ensures
        res@ == strip_leading_str(s@, p@),
{
    let v = chars_of(s);
    let w = chars_of(p);
    let mut lo: usize = 0;
    assert(s@.skip(0) =~= s@);
    if w.len() == 0 {
        return string_from_range(&v, 0, v.len());
    }
    while occurs_at_exec(&v, &w, lo)
        invariant
            0 <= lo <= v.len(),
            w.len() > 0,
            v@ == s@,
            w@ == p@,
            strip_leading_str(s@, p@) == strip_leading_str(s@.skip(lo as int), p@),
        decreases v.len() - lo,
    {
        let ghost t = s@.skip(lo as int);
        assert(t.take(p@.len() as int) =~= v@.subrange(lo as int, lo + w.len()));
        assert(t.skip(p@.len() as int) =~= s@.skip(lo + w.len()));
        lo = lo + w.len();
    }
    proof {
        let t = s@.skip(lo as int);
        if has_prefix(t, p@) {
            assert(t.take(p@.len() as int) =~= v@.subrange(lo as int, lo + w.len()));
        }
    }
    let res = string_from_range(&v, lo, v.len());
    assert(res@ =~= s@.skip(lo as int));
    res
}

/// Each non-overlapping occurrence of `p`, from the left, replaced by `r`
/// (`str::replace` with a non-empty pattern).
pub fn replace_str(s: &str, p: &str, r: &str) -> (res: String)
    requires
        p@.len() > 0,
    ensures
        res@ == replace_all(s@, p@, r@),
{
    let v = chars_of(s);
    let w = chars_of(p);
    let mut out = String::new();
    let mut i: usize = 0;
    assert(s@.skip(0) =~= s@);
    while i < v.len()
        invariant
            0 <= i <= v.len(),
            w.len() > 0,
            v@ == s@,
            w@ == p@,
            out@ + replace_all(s@.skip(i as int), p@, r@) == replace_all(s@, p@, r@),
        decreases v.len() - i,
    {
        let ghost t = s@.skip(i as int);
        if occurs_at_exec(&v, &w, i) {
            assert(t.take(p@.len() as int) =~= v@.subrange(i as int, i + w.len()));
            assert(t.skip(p@.len() as int) =~= s@.skip(i + w.len()));
            let ghost before = out@;
            push_str(&mut out, r);
            assert(before + (r@ + replace_all(s@.skip(i + w.len()), p@, r@)) =~= out@ + replace_all(s@.skip(i + w.len()), p@, r@));
            i = i + w.len();
        } else {
            proof {
                if t.len() >= p@.len() {
                    assert(t.take(p@.len() as int) =~= v@.subrange(i as int, i + w.len()));
                }
            }
            assert(t.drop_first() =~= s@.skip(i + 1));
            let ghost before = out@;
            push_char(&mut out, v[i]);
            proof {
                if t.len() < p@.len() {
                    lemma_replace_short(t, p@, r@);
                    lemma_replace_short(t.drop_first(), p@, r@);
                    assert(t =~= seq![t[0]] + t.drop_first());
                }
            }
            assert(before + (seq![v@[i as int]] + replace_all(s@.skip(i + 1), p@, r@)) =~= out@ + replace_all(s@.skip(i + 1), p@, r@));
            i = i + 1;
        }
    }
    assert(s@.skip(i as int) =~= Seq::<char>::empty());
    assert(out@ + Seq::<char>::empty() =~= out@);
    out
}

/// Too short to hold the pattern: nothing is replaced.
pub proof fn lemma_replace_short(s: Seq<char>, p: Seq<char>, r: Seq<char>)
    requires
        s.len() < p.len(),
    ensures
        replace_all(s, p, r) == s,
{
}

/// Replacing a pattern by a shorter text never makes the text longer, and
/// makes it shorter where the pattern occurs.
pub proof fn lemma_replace_shrinks(s: Seq<char>, p: Seq<char>, r: Seq<char>)
    requires
        r.len() < p.len(),
    ensures
        replace_all(s, p, r).len() <= s.len(),
        contains_seq(s, p) ==> replace_all(s, p, r).len() < s.len(),
    decreases s.len(),
{
    if p.len() == 0 || s.len() < p.len() {
        if contains_seq(s, p) {
            let i = choose|i: int| #[trigger] occurs_at(s, p, i);
            assert(false);
        }
    } else if s.take(p.len() as int) == p {
        lemma_replace_shrinks(s.skip(p.len() as int), p, r);
    } else {
        let t = s.drop_first();
        lemma_replace_shrinks(t, p, r);
        if contains_seq(s, p) {
            let i = choose|i: int| #[trigger] occurs_at(s, p, i);
            if i == 0 {
                assert(s.subrange(0, p.len() as int) =~= s.take(p.len() as int));
            } else {
                assert(t.subrange(i - 1, i - 1 + p.len()) =~= s.subrange(i, i + p.len()));
                assert(occurs_at(t, p, i - 1));
            }
        }
    }
}

} // verus!
