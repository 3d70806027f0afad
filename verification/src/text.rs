//! Character-level string helpers shared by the library.
//!
//! Strings are modelled by their `Seq<char>` view. The Unicode case mappings
//! and the alphanumeric class come from std and are named, not restated.

use vstd::prelude::*;

verus! {

/// What `str::to_lowercase` returns for a string, by its characters.
pub uninterp spec fn lowercase(s: Seq<char>) -> Seq<char>;

/// What `char::to_uppercase`, collected into a string, gives for a character.
pub uninterp spec fn uppercase_char(c: char) -> Seq<char>;

/// What `char::is_alphanumeric` answers for a character.
pub uninterp spec fn alphanumeric(c: char) -> bool;

/// Unicode `White_Space`, the class `char::is_whitespace` tests.
pub open spec fn is_ws(c: char) -> bool {
    let u = c as u32;
    ||| 9 <= u <= 13
    ||| u == 32
    ||| u == 0x85
    ||| u == 0xA0
    ||| u == 0x1680
    ||| 0x2000 <= u <= 0x200A
    ||| u == 0x2028
    ||| u == 0x2029
    ||| u == 0x202F
    ||| u == 0x205F
    ||| u == 0x3000
}

/// ASCII decimal digit.
pub open spec fn is_ascii_digit(c: char) -> bool {
    '0' <= c <= '9'
}

/// First index at or after `i` that does not hold whitespace.
pub open spec fn skip_ws_fwd(s: Seq<char>, i: int) -> int
    decreases s.len() - i,
{
    if 0 <= i < s.len() && is_ws(s[i]) {
        skip_ws_fwd(s, i + 1)
    } else {
        i
    }
}

/// Last end index, not below `lo`, reached by dropping trailing whitespace from `s[..j]`.
pub open spec fn skip_ws_back(s: Seq<char>, lo: int, j: int) -> int
    decreases j - lo,
{
    if lo < j <= s.len() && is_ws(s[j - 1]) {
        skip_ws_back(s, lo, j - 1)
    } else {
        j
    }
}

/// `s` without leading and trailing whitespace, as `str::trim` gives it.
pub open spec fn trim_seq(s: Seq<char>) -> Seq<char> {
    let lo = skip_ws_fwd(s, 0);
    s.subrange(lo, skip_ws_back(s, lo, s.len() as int))
}

/// Skipping whitespace forward stops inside the text, after whitespace
/// only, at a character that is not whitespace or at the end.
pub proof fn lemma_skip_ws_fwd_bounds(s: Seq<char>, i: int)
    requires
        0 <= i <= s.len(),
    ensures
        i <= skip_ws_fwd(s, i) <= s.len(),
        forall|k: int| i <= k < skip_ws_fwd(s, i) ==> is_ws(#[trigger] s[k]),
        skip_ws_fwd(s, i) < s.len() ==> !is_ws(s[skip_ws_fwd(s, i)]),
    decreases s.len() - i,
{
    if i < s.len() && is_ws(s[i]) {
        lemma_skip_ws_fwd_bounds(s, i + 1);
    }
}

/// Skipping whitespace backward stops between `lo` and `j`, before
/// whitespace only, after a character that is not whitespace or at `lo`.
pub proof fn lemma_skip_ws_back_bounds(s: Seq<char>, lo: int, j: int)
    requires
        0 <= lo <= j <= s.len(),
    ensures
        lo <= skip_ws_back(s, lo, j) <= j,
        forall|k: int| skip_ws_back(s, lo, j) <= k < j ==> is_ws(#[trigger] s[k]),
        skip_ws_back(s, lo, j) > lo ==> !is_ws(s[skip_ws_back(s, lo, j) - 1]),
    decreases j - lo,
{
    if lo < j && is_ws(s[j - 1]) {
        lemma_skip_ws_back_bounds(s, lo, j - 1);
    }
}

/// `char::is_whitespace`.
pub fn is_whitespace(c: char) -> (r: bool)
    ensures
        r == is_ws(c),
{
    let u = c as u32;
    (9 <= u && u <= 13) || u == 32 || u == 0x85 || u == 0xA0 || u == 0x1680 || (0x2000 <= u
        && u <= 0x200A) || u == 0x2028 || u == 0x2029 || u == 0x202F || u == 0x205F || u == 0x3000
}

/// The characters of `s`, in order.
pub fn chars_of(s: &str) -> (res: Vec<char>)
    ensures
        res@ == s@,
{
    let mut v: Vec<char> = Vec::new();
    for c in it: s.chars()
        invariant
            v@ == it.seq().take(it.index() as int),
            it.seq() == s@,
    {
        v.push(c);
    }
    v
}

/// Appends one character (`String::push`).
#[verifier::external_body]
pub(crate) fn push_char(s: &mut String, c: char)
    ensures
        final(s)@ == old(s)@.push(c),
{
    s.push(c);
}

/// Appends a string slice (`String::push_str`).
#[verifier::external_body]
pub(crate) fn push_str(s: &mut String, t: &str)
    ensures
        final(s)@ == old(s)@ + t@,
{
    s.push_str(t);
}

/// A string holding `v[lo..hi]`.
pub fn string_from_range(v: &Vec<char>, lo: usize, hi: usize) -> (res: String)
    requires
        lo <= hi <= v.len(),
    ensures
        res@ == v@.subrange(lo as int, hi as int),
{
    let mut s = String::new();
    let mut i = lo;
    while i < hi
        invariant
            lo <= i <= hi <= v.len(),
            s@ == v@.subrange(lo as int, i as int),
        decreases hi - i,
    {
        push_char(&mut s, v[i]);
        assert(v@.subrange(lo as int, i + 1) == v@.subrange(lo as int, i as int).push(v@[i as int]));
        i = i + 1;
    }
    s
}

/// A string holding the characters of `v`.
pub fn string_from_chars(v: &Vec<char>) -> (res: String)
    ensures
        res@ == v@,
{
    let s = string_from_range(v, 0, v.len());
    assert(v@.subrange(0, v@.len() as int) == v@);
    s
}

/// A copy of `s`.
pub fn copy_str(s: &str) -> (res: String)
    ensures
        res@ == s@,
{
    s.to_string()
}

/// `str::to_lowercase`.
#[verifier::external_body]
pub(crate) fn to_lowercase(s: &str) -> (res: String)
    ensures
        res@ == lowercase(s@),
{
    s.to_lowercase()
}

/// `char::to_uppercase`, collected into a `String`.
#[verifier::external_body]
pub(crate) fn char_to_uppercase(c: char) -> (res: String)
    ensures
        res@ == uppercase_char(c),
{
    c.to_uppercase().collect()
}

/// `char::is_alphanumeric`.
#[verifier::external_body]
pub(crate) fn is_alphanumeric(c: char) -> (r: bool)
    ensures
        r == alphanumeric(c),
{
    c.is_alphanumeric()
}

/// `s` without leading and trailing whitespace (`str::trim`).
pub fn trim(s: &str) -> (res: String)
    ensures
        res@ == trim_seq(s@),
{
    let v = chars_of(s);
    let n = v.len();
    let mut lo: usize = 0;
    while lo < n && is_whitespace(v[lo])
        invariant
            0 <= lo <= n == v@.len(),
            v@ == s@,
            skip_ws_fwd(s@, lo as int) == skip_ws_fwd(s@, 0),
        decreases n - lo,
    {
        lo = lo + 1;
    }
    let mut hi: usize = n;
    while hi > lo && is_whitespace(v[hi - 1])
        invariant
            0 <= lo <= hi <= n == v@.len(),
            v@ == s@,
            lo == skip_ws_fwd(s@, 0),
            skip_ws_back(s@, lo as int, hi as int) == skip_ws_back(s@, lo as int, n as int),
        decreases hi - lo,
    {
        hi = hi - 1;
    }
    string_from_range(&v, lo, hi)
}

/// Whether `c` occurs in `s`.
pub fn contains_char(s: &Vec<char>, c: char) -> (r: bool)
    ensures
        r == s@.contains(c),
{
    let mut i: usize = 0;
    while i < s.len()
        invariant
            0 <= i <= s.len(),
            forall|k: int| 0 <= k < i ==> s@[k] != c,
        decreases s.len() - i,
    {
        if s[i] == c {
            return true;
        }
        i = i + 1;
    }
    false
}

/// Whether two character sequences are equal.
pub fn chars_eq(a: &Vec<char>, b: &Vec<char>) -> (r: bool)
    ensures
        r == (a@ == b@),
{
    if a.len() != b.len() {
        return false;
    }
    let mut i: usize = 0;
    while i < a.len()
        invariant
            0 <= i <= a.len() == b.len(),
            forall|k: int| 0 <= k < i ==> a@[k] == b@[k],
        decreases a.len() - i,
    {
        if a[i] != b[i] {
            return false;
        }
        i = i + 1;
    }
    assert(a@ =~= b@);
    true
}

/// Whether two strings are equal.
pub fn str_eq(a: &str, b: &str) -> (r: bool)
    ensures
        r == (a@ == b@),
{
    let va = chars_of(a);
    let vb = chars_of(b);
    chars_eq(&va, &vb)
}


/// The character views of a sequence of character vectors.
pub open spec fn vviews(v: Seq<Vec<char>>) -> Seq<Seq<char>> {
    v.map_values(|x: Vec<char>| x@)
}

/// Pieces of `s` between separators (`c == a || c == b`), as `str::split` gives them:
/// `n` separators give `n + 1` pieces, some possibly empty.
pub open spec fn split_on2(s: Seq<char>, a: char, b: char) -> Seq<Seq<char>>
    decreases s.len(),
{
    if s.len() == 0 {
        seq![Seq::<char>::empty()]
    } else {
        let rest = split_on2(s.drop_last(), a, b);
        let c = s.last();
        if c == a || c == b {
            rest.push(Seq::<char>::empty())
        } else {
            rest.update(rest.len() - 1, rest.last().push(c))
        }
    }
}

/// Pieces of `s` between occurrences of `sep`.
pub open spec fn split_on(s: Seq<char>, sep: char) -> Seq<Seq<char>> {
    split_on2(s, sep, sep)
}

/// The non-empty pieces, in order.
pub open spec fn keep_nonempty(parts: Seq<Seq<char>>) -> Seq<Seq<char>>
    decreases parts.len(),
{
    if parts.len() == 0 {
        parts
    } else {
        let r = keep_nonempty(parts.drop_last());
        if parts.last().len() > 0 {
            r.push(parts.last())
        } else {
            r
        }
    }
}

/// The pieces joined with `sep` between each two.
pub open spec fn join(parts: Seq<Seq<char>>, sep: Seq<char>) -> Seq<char>
    decreases parts.len(),
{
    if parts.len() == 0 {
        Seq::<char>::empty()
    } else if parts.len() == 1 {
        parts[0]
    } else {
        join(parts.drop_last(), sep) + sep + parts.last()
    }
}

/// Splitting always gives at least one piece.
pub proof fn lemma_split_on2_len(s: Seq<char>, a: char, b: char)
    ensures
        split_on2(s, a, b).len() >= 1,
    decreases s.len(),
{
    if s.len() > 0 {
        lemma_split_on2_len(s.drop_last(), a, b);
    }
}

/// The pieces of `v` between characters equal to `a` or `b`.
pub fn split_chars2(v: &Vec<char>, a: char, b: char) -> (res: Vec<Vec<char>>)
    ensures
        vviews(res@) == split_on2(v@, a, b),
{
    let mut parts: Vec<Vec<char>> = Vec::new();
    let mut cur: Vec<char> = Vec::new();
    let mut i: usize = 0;
    proof {
        assert(v@.take(0).len() == 0);
        assert(split_on2(v@.take(0), a, b) =~= seq![Seq::<char>::empty()]);
    }
    while i < v.len()
        invariant
            0 <= i <= v.len(),
            vviews(parts@).push(cur@) == split_on2(v@.take(i as int), a, b),
        decreases v.len() - i,
    {
        let c = v[i];
        let ghost pv = vviews(parts@);
        let ghost cv = cur@;
        proof {
            assert(v@.take(i + 1).drop_last() =~= v@.take(i as int));
            assert(v@.take(i + 1).last() == c);
            lemma_split_on2_len(v@.take(i as int), a, b);
        }
        if c == a || c == b {
            let done = cur;
            parts.push(done);
            cur = Vec::new();
            proof {
                assert(vviews(parts@) =~= pv.push(cv));
                assert(vviews(parts@).push(cur@) =~= pv.push(cv).push(Seq::<char>::empty()));
            }
        } else {
            cur.push(c);
            proof {
                assert(vviews(parts@) == pv);
                assert(pv.push(cv).update(pv.len() as int, cv.push(c)) =~= pv.push(cv.push(c)));
            }
        }
        i = i + 1;
    }
    parts.push(cur);
    proof {
        assert(v@.take(v@.len() as int) =~= v@);
    }
    parts
}

/// The pieces of `v` between characters equal to `sep`.
pub fn split_chars(v: &Vec<char>, sep: char) -> (res: Vec<Vec<char>>)
    ensures
        vviews(res@) == split_on(v@, sep),
{
    split_chars2(v, sep, sep)
}

/// The non-empty pieces of `parts`, in order.
pub fn nonempty_parts(parts: Vec<Vec<char>>) -> (res: Vec<Vec<char>>)
    ensures
        vviews(res@) == keep_nonempty(vviews(parts@)),
{
    let mut res: Vec<Vec<char>> = Vec::new();
    let mut i: usize = 0;
    let ghost pv = vviews(parts@);
    for p in it: parts
        invariant
            it.seq() == parts@,
            pv == vviews(parts@),
            vviews(res@) == keep_nonempty(pv.take(it.index() as int)),
    {
        let ghost k = it.index() as int;
        proof {
            assert(pv.take(k + 1).drop_last() =~= pv.take(k));
            assert(pv.take(k + 1).last() == p@);
        }
        if p.len() > 0 {
            let ghost rv = vviews(res@);
            res.push(p);
            proof { assert(vviews(res@) =~= rv.push(pv[k])); }
        }
    }
    proof { assert(pv.take(pv.len() as int) =~= pv); }
    res
}

/// The pieces joined with `sep`.
pub fn join_parts(parts: &Vec<Vec<char>>, sep: &str) -> (res: String)
    ensures
        res@ == join(vviews(parts@), sep@),
{
    let mut res = String::new();
    let mut i: usize = 0;
    let ghost pv = vviews(parts@);
    while i < parts.len()
        invariant
            0 <= i <= parts.len(),
            pv == vviews(parts@),
            res@ == join(pv.take(i as int), sep@),
        decreases parts.len() - i,
    {
        proof { assert(pv.take(i + 1).drop_last() =~= pv.take(i as int)); }
        if i > 0 {
            push_str(&mut res, sep);
        } else {
            assert(res@ =~= Seq::<char>::empty());
        }
        let piece = string_from_chars(&parts[i]);
        push_str(&mut res, piece.as_str());
        proof {
            if i == 0 {
                assert(pv.take(1) =~= seq![pv[0]]);
            }
        }
        i = i + 1;
    }
    proof { assert(pv.take(pv.len() as int) =~= pv); }
    res
}


/// The decimal digits of `n`, without leading zeros (`0` for zero).
pub open spec fn decimal(n: nat) -> Seq<char>
    decreases n,
{
    if n < 10 {
        seq![digit_char(n)]
    } else {
        decimal(n / 10).push(digit_char(n % 10))
    }
}

/// The ASCII digit for a value below ten.
pub open spec fn digit_char(d: nat) -> char {
    if d == 0 { '0' } else if d == 1 { '1' } else if d == 2 { '2' } else if d == 3 { '3' }
    else if d == 4 { '4' } else if d == 5 { '5' } else if d == 6 { '6' } else if d == 7 { '7' }
    else if d == 8 { '8' } else { '9' }
}

fn digit(d: u64) -> (c: char)
    requires
        d < 10,
    ensures
        c == digit_char(d as nat),
{
    if d == 0 { '0' } else if d == 1 { '1' } else if d == 2 { '2' } else if d == 3 { '3' }
    else if d == 4 { '4' } else if d == 5 { '5' } else if d == 6 { '6' } else if d == 7 { '7' }
    else if d == 8 { '8' } else { '9' }
}

/// `n` in decimal.
pub fn decimal_string(n: u64) -> (res: String)
    ensures
        res@ == decimal(n as nat),
    decreases n,
{
    if n < 10 {
        let mut s = String::new();
        push_char(&mut s, digit(n));
        assert(s@ =~= seq![digit_char(n as nat)]);
        s
    } else {
        let mut s = decimal_string(n / 10);
        push_char(&mut s, digit(n % 10));
        s
    }
}


/// `pat` occurs in `s` at position `i`.
pub open spec fn occurs_at(s: Seq<char>, pat: Seq<char>, i: int) -> bool {
    0 <= i && i + pat.len() <= s.len() && s.subrange(i, i + pat.len()) == pat
}

/// The first position at or after `k` where `pat` occurs, or `-1`.
pub open spec fn find_from(s: Seq<char>, pat: Seq<char>, k: int) -> int
    decreases s.len() + 1 - k,
{
    if k < 0 || k + pat.len() > s.len() {
        -1
    } else if occurs_at(s, pat, k) {
        k
    } else {
        find_from(s, pat, k + 1)
    }
}

/// Whether `pat` occurs in `v` at position `i`.
pub fn occurs_at_exec(v: &Vec<char>, pat: &Vec<char>, i: usize) -> (r: bool)
    ensures
        r == occurs_at(v@, pat@, i as int),
{
    if i > v.len() || pat.len() > v.len() - i {
        return false;
    }
    let mut k: usize = 0;
    while k < pat.len()
        invariant
            i + pat.len() <= v.len(),
            0 <= k <= pat.len(),
            forall|m: int| 0 <= m < k ==> v@[i + m] == pat@[m],
        decreases pat.len() - k,
    {
        if v[i + k] != pat[k] {
            assert(v@.subrange(i as int, i + pat.len())[k as int] != pat@[k as int]);
            return false;
        }
        k = k + 1;
    }
    assert(v@.subrange(i as int, i + pat.len()) =~= pat@);
    true
}

/// The first position at or after `k` where `pat` occurs.
pub fn find_from_exec(v: &Vec<char>, pat: &Vec<char>, k: usize) -> (r: Option<usize>)
    ensures
        match r {
            Some(i) => find_from(v@, pat@, k as int) == i as int,
            None => find_from(v@, pat@, k as int) == -1,
        },
{
    if pat.len() == 0 {
        if k <= v.len() {
            assert(v@.subrange(k as int, k as int) =~= pat@);
            return Some(k);
        }
        return None;
    }
    let mut i = k;
    while i <= v.len() && pat.len() <= v.len() - i
        invariant
            k <= i,
            pat.len() > 0,
            find_from(v@, pat@, k as int) == find_from(v@, pat@, i as int),
        decreases v.len() + 1 - i,
    {
        if occurs_at_exec(v, pat, i) {
            return Some(i);
        }
        i = i + 1;
    }
    None
}

/// Whether `pat` occurs anywhere in `s`.
pub open spec fn contains_seq(s: Seq<char>, pat: Seq<char>) -> bool {
    exists|i: int| #[trigger] occurs_at(s, pat, i)
}

proof fn lemma_find_from_none(s: Seq<char>, pat: Seq<char>, k: int)
    requires
        k >= 0,
        find_from(s, pat, k) < 0,
    ensures
        forall|i: int| i >= k ==> !#[trigger] occurs_at(s, pat, i),
    decreases s.len() + 1 - k,
{
    if k + pat.len() <= s.len() {
        lemma_find_from_none(s, pat, k + 1);
    }
}

proof fn lemma_find_from_found(s: Seq<char>, pat: Seq<char>, k: int)
    requires
        k >= 0,
        find_from(s, pat, k) >= 0,
    ensures
        occurs_at(s, pat, find_from(s, pat, k)),
        k <= find_from(s, pat, k),
        forall|i: int| k <= i < find_from(s, pat, k) ==> !#[trigger] occurs_at(s, pat, i),
    decreases s.len() + 1 - k,
{
    if !occurs_at(s, pat, k) {
        lemma_find_from_found(s, pat, k + 1);
    }
}

/// Where `find_from` finds `pat`, it occurs, at or after `k`.
pub proof fn lemma_find_from_found_pub(s: Seq<char>, pat: Seq<char>, k: int)
    requires
        k >= 0,
        find_from(s, pat, k) >= 0,
    ensures
        occurs_at(s, pat, find_from(s, pat, k)),
        k <= find_from(s, pat, k),
{
    lemma_find_from_found(s, pat, k);
}

/// Whether `pat` occurs in `s`, and where first.
pub proof fn lemma_find_from_zero(s: Seq<char>, pat: Seq<char>)
    ensures
        find_from(s, pat, 0) >= 0 <==> contains_seq(s, pat),
        find_from(s, pat, 0) >= 0 ==> occurs_at(s, pat, find_from(s, pat, 0)),
        find_from(s, pat, 0) >= 0 ==> forall|i: int| 0 <= i < find_from(s, pat, 0) ==> !#[trigger] occurs_at(s, pat, i),
{
    if find_from(s, pat, 0) >= 0 {
        lemma_find_from_found(s, pat, 0);
    } else {
        lemma_find_from_none(s, pat, 0);
    }
}

} // verus!
