//! Strings cut at byte positions, as `str` slicing does, with what their
//! UTF-8 bytes are.

use vstd::prelude::*;
use vstd::string::StringSliceAdditionalSpecFns;
use vstd::utf8::{encode_utf8, valid_utf8, is_char_boundary, is_continuation_byte, encode_utf8_valid_utf8,
    valid_utf8_split, is_char_boundary_start_end_of_seq, is_char_boundary_iff_not_is_continuation_byte};
use crate::text::{push_char, push_str};

verus! {

/// The UTF-8 bytes of a character sequence: those of the first part, then
/// those of the second.
pub proof fn lemma_encode_concat(a: Seq<char>, b: Seq<char>)
    ensures
        encode_utf8(a + b) == encode_utf8(a) + encode_utf8(b),
    decreases a.len(),
{
    if a.len() == 0 {
        assert(a + b =~= b);
        assert(encode_utf8(a) =~= Seq::<u8>::empty());
        assert(encode_utf8(a) + encode_utf8(b) =~= encode_utf8(b));
    } else {
        assert((a + b).drop_first() =~= a.drop_first() + b);
        assert((a + b)[0] == a[0]);
        lemma_encode_concat(a.drop_first(), b);
    }
}

/// A space is the one byte 32.
pub proof fn lemma_space_bytes()
    ensures
        encode_utf8(seq![' ']) == seq![32u8],
{
    let c = seq![' '];
    assert(vstd::utf8::is_ascii_chars(c));
    vstd::utf8::is_ascii_chars_encode_utf8(c);
    assert(c[0] as u8 == 32u8);
    assert(encode_utf8(c) =~= seq![32u8]);
}

/// A string's bytes are valid UTF-8.
pub proof fn lemma_str_valid(s: &str)
    ensures
        valid_utf8(s.spec_bytes()),
{
    encode_utf8_valid_utf8(s@);
}

/// A position that is a boundary of the text, up to a boundary `b`, is a
/// boundary of the text's first `b` bytes.
pub proof fn lemma_boundary_prefix(t: Seq<u8>, a: int, b: int)
    requires
        valid_utf8(t),
        0 <= a <= b <= t.len(),
        is_char_boundary(t, a),
        is_char_boundary(t, b),
    ensures
        valid_utf8(t.subrange(0, b)),
        is_char_boundary(t.subrange(0, b), a),
{
    valid_utf8_split(t, b);
    let p = t.subrange(0, b);
    is_char_boundary_start_end_of_seq(p);
    if 0 < a < b {
        is_char_boundary_iff_not_is_continuation_byte(t, a);
        is_char_boundary_iff_not_is_continuation_byte(p, a);
        assert(p[a] == t[a]);
    }
}

/// A byte that is no continuation byte starts a character.
pub proof fn lemma_boundary_at_lead(t: Seq<u8>, a: int)
    requires
        valid_utf8(t),
        0 <= a <= t.len(),
        a == t.len() || !is_continuation_byte(t[a]),
    ensures
        is_char_boundary(t, a),
{
    is_char_boundary_start_end_of_seq(t);
    if a < t.len() {
        is_char_boundary_iff_not_is_continuation_byte(t, a);
    }
}

/// The text of bytes `a..b` of a string (`&s[a..b]`); both ends must be
/// character boundaries.
pub fn str_slice(s: &str, a: usize, b: usize) -> (res: &str)
    requires
        a <= b <= s.spec_bytes().len(),
        is_char_boundary(s.spec_bytes(), a as int),
        is_char_boundary(s.spec_bytes(), b as int),
    ensures
        res.spec_bytes() == s.spec_bytes().subrange(a as int, b as int),
{
    proof {
        lemma_str_valid(s);
    }
    let (left, _) = s.split_at(b);
    proof {
        lemma_boundary_prefix(s.spec_bytes(), a as int, b as int);
        assert(left.spec_bytes() =~= s.spec_bytes().subrange(0, b as int));
    }
    let (_, mid) = left.split_at(a);
    assert(mid.spec_bytes() =~= s.spec_bytes().subrange(a as int, b as int));
    mid
}

/// Appends a string slice, and so its bytes.
pub fn push_str_bytes(out: &mut String, t: &str)
    ensures
        final(out)@ == old(out)@ + t@,
        encode_utf8(final(out)@) == encode_utf8(old(out)@) + t.spec_bytes(),
{
    push_str(out, t);
    proof {
        lemma_encode_concat(old(out)@, t@);
    }
}

/// `n` spaces, as bytes.
pub open spec fn space_bytes(n: nat) -> Seq<u8> {
    Seq::new(n, |i: int| 32u8)
}

/// Appends `n` spaces (`" ".repeat(n)`).
pub fn push_spaces(out: &mut String, n: usize)
    ensures
        encode_utf8(final(out)@) == encode_utf8(old(out)@) + space_bytes(n as nat),
{
    let mut i: usize = 0;
    assert(encode_utf8(out@) =~= encode_utf8(old(out)@) + space_bytes(0));
    while i < n
        invariant
            0 <= i <= n,
            encode_utf8(out@) == encode_utf8(old(out)@) + space_bytes(i as nat),
        decreases n - i,
    {
        let ghost before = out@;
        push_char(out, ' ');
        proof {
            assert(out@ =~= before + seq![' ']);
            lemma_encode_concat(before, seq![' ']);
            lemma_space_bytes();
            assert(encode_utf8(old(out)@) + space_bytes((i + 1) as nat) =~= encode_utf8(old(out)@) + space_bytes(i as nat) + seq![32u8]);
        }
        i = i + 1;
    }
}

/// `p` occurs in `s` at byte `i`.
pub open spec fn occurs_b(s: Seq<u8>, p: Seq<u8>, i: int) -> bool {
    0 <= i && i + p.len() <= s.len() && s.subrange(i, i + p.len()) == p
}

/// `p` occurs in `s`.
pub open spec fn contains_b(s: Seq<u8>, p: Seq<u8>) -> bool {
    exists|i: int| #[trigger] occurs_b(s, p, i)
}

/// The first byte at or after `k` where `p` occurs in `s`, or `-1`.
pub open spec fn find_b(s: Seq<u8>, p: Seq<u8>, k: int) -> int
    decreases s.len() + 1 - k,
{
    if k < 0 || k + p.len() > s.len() {
        -1
    } else if occurs_b(s, p, k) {
        k
    } else {
        find_b(s, p, k + 1)
    }
}

/// Where the first search finds a pattern it occurs, and not before; where
/// it finds none, the pattern does not occur after `k`.
pub proof fn lemma_find_b(s: Seq<u8>, p: Seq<u8>, k: int)
    requires
        k >= 0,
    ensures
        find_b(s, p, k) >= 0 ==> occurs_b(s, p, find_b(s, p, k)) && k <= find_b(s, p, k),
        find_b(s, p, k) < 0 ==> forall|i: int| i >= k ==> !#[trigger] occurs_b(s, p, i),
    decreases s.len() + 1 - k,
{
    if k + p.len() <= s.len() && !occurs_b(s, p, k) {
        lemma_find_b(s, p, k + 1);
    }
}

/// Whether `p` occurs in `v` at byte `i`.
pub fn occurs_b_exec(v: &[u8], p: &[u8], i: usize) -> (r: bool)
    ensures
        r == occurs_b(v@, p@, i as int),
{
    let vl = v.len();
    if i > vl || p.len() > vl - i {
        return false;
    }
    let mut k: usize = 0;
    while k < p.len()
        invariant
            vl == v@.len(),
            i + p@.len() <= v@.len(),
            0 <= k <= p@.len(),
            forall|m: int| 0 <= m < k ==> v@[i + m] == p@[m],
        decreases p.len() - k,
    {
        if v[i + k] != p[k] {
            assert(v@.subrange(i as int, i + p@.len())[k as int] != p@[k as int]);
            return false;
        }
        k = k + 1;
    }
    assert(v@.subrange(i as int, i + p@.len()) =~= p@);
    true
}

/// The first byte where `p` occurs in `v` (`str::find` on bytes).
pub fn find_bytes(v: &[u8], p: &[u8]) -> (r: Option<usize>)
    ensures
        match r {
            Some(i) => find_b(v@, p@, 0) == i as int,
            None => find_b(v@, p@, 0) == -1,
        },
{
    let vl = v.len();
    let pl = p.len();
    let mut i: usize = 0;
    while i <= vl && pl <= vl - i
        invariant
            vl == v@.len(),
            pl == p@.len(),
            find_b(v@, p@, 0) == find_b(v@, p@, i as int),
        decreases v@.len() + 1 - i,
    {
        if occurs_b_exec(v, p, i) {
            return Some(i);
        }
        if pl == 0 {
            assert(occurs_b(v@, p@, i as int)) by {
                assert(v@.subrange(i as int, i as int) =~= p@);
            }
        }
        i = i + 1;
    }
    None
}

} // verus!
