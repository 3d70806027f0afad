//! The order in which index entries and types are listed.
//!
//! Names that start with a digit are compared as dotted version numbers;
//! all others case-insensitively, character by character.

use vstd::prelude::*;
use crate::text::{is_ascii_digit, lowercase, split_on, chars_of, to_lowercase, split_chars, vviews};

verus! {

/// The outcome of a three-way comparison.
#[derive(PartialEq, Eq, Structural, Clone, Copy, Debug)]
pub enum Cmp {
    Less,
    Equal,
    Greater,
}

/// The comparison seen from the other side.
pub open spec fn flip(c: Cmp) -> Cmp {
    match c {
        Cmp::Less => Cmp::Greater,
        Cmp::Equal => Cmp::Equal,
        Cmp::Greater => Cmp::Less,
    }
}

/// Integer comparison.
pub open spec fn int_order(x: int, y: int) -> Cmp {
    if x < y { Cmp::Less } else if x > y { Cmp::Greater } else { Cmp::Equal }
}

/// Lexicographic comparison by code point; a proper prefix comes first.
/// This is how `String`'s `Ord` orders (UTF-8 bytes order as code points do).
pub open spec fn lex_order(a: Seq<char>, b: Seq<char>) -> Cmp
    decreases a.len(),
{
    if a.len() == 0 {
        if b.len() == 0 { Cmp::Equal } else { Cmp::Less }
    } else if b.len() == 0 {
        Cmp::Greater
    } else if a[0] < b[0] {
        Cmp::Less
    } else if a[0] > b[0] {
        Cmp::Greater
    } else {
        lex_order(a.drop_first(), b.drop_first())
    }
}

/// One piece of a dotted name: a number, or text.
pub enum PartView {
    Number(int),
    Text(Seq<char>),
}

/// Numbers come before text; numbers by value, text lexicographically.
pub open spec fn part_order(a: PartView, b: PartView) -> Cmp {
    match (a, b) {
        (PartView::Number(x), PartView::Number(y)) => int_order(x, y),
        (PartView::Number(_), PartView::Text(_)) => Cmp::Less,
        (PartView::Text(_), PartView::Number(_)) => Cmp::Greater,
        (PartView::Text(x), PartView::Text(y)) => lex_order(x, y),
    }
}

/// Lexicographic comparison of piece sequences.
pub open spec fn parts_order(a: Seq<PartView>, b: Seq<PartView>) -> Cmp
    decreases a.len(),
{
    if a.len() == 0 {
        if b.len() == 0 { Cmp::Equal } else { Cmp::Less }
    } else if b.len() == 0 {
        Cmp::Greater
    } else if part_order(a[0], b[0]) != Cmp::Equal {
        part_order(a[0], b[0])
    } else {
        parts_order(a.drop_first(), b.drop_first())
    }
}

/// The decimal value of a sequence of ASCII digits.
pub open spec fn digits_value(s: Seq<char>) -> int
    decreases s.len(),
{
    if s.len() == 0 {
        0
    } else {
        digits_value(s.drop_last()) * 10 + (s.last() as int - '0' as int)
    }
}

/// Every character is an ASCII digit.
pub open spec fn all_digits(s: Seq<char>) -> bool {
    forall|i: int| 0 <= i < s.len() ==> is_ascii_digit(#[trigger] s[i])
}

/// What `str::parse::<i32>` accepts: an optional sign, then one or more ASCII
/// digits, with the value in range.
pub open spec fn parsed_i32(s: Seq<char>) -> Option<int> {
    if s.len() == 0 {
        None
    } else {
        let signed = s[0] == '-' || s[0] == '+';
        let body = if signed { s.drop_first() } else { s };
        if body.len() == 0 || !all_digits(body) {
            None
        } else {
            let v = if s[0] == '-' { -digits_value(body) } else { digits_value(body) };
            if -0x8000_0000 <= v <= 0x7fff_ffff { Some(v) } else { None }
        }
    }
}

/// The pieces as they are compared: the last stays text, the others are
/// numbers where they parse as one.
pub open spec fn comparable_parts(parts: Seq<Seq<char>>) -> Seq<PartView> {
    Seq::new(
        parts.len(),
        |i: int|
            if i == parts.len() - 1 {
                PartView::Text(parts[i])
            } else {
                match parsed_i32(parts[i]) {
                    Some(n) => PartView::Number(n),
                    None => PartView::Text(parts[i]),
                }
            },
    )
}

/// Zeros inserted before the last piece until there are `n` pieces.
pub open spec fn pad_parts(a: Seq<PartView>, n: int) -> Seq<PartView> {
    if a.len() >= n || a.len() == 0 {
        a
    } else {
        a.take(a.len() - 1) + Seq::new((n - a.len()) as nat, |i: int| PartView::Number(0)) + seq![a.last()]
    }
}

/// Starts with an ASCII digit.
pub open spec fn starts_with_digit(s: Seq<char>) -> bool {
    s.len() > 0 && is_ascii_digit(s[0])
}

/// The order of names: when either starts with a digit, names are compared
/// as dot-separated pieces (a name without a dot goes after any with one);
/// otherwise, and between two names without dots, by their lowercase forms.
pub open spec fn name_order(a: Seq<char>, b: Seq<char>) -> Cmp {
    if starts_with_digit(a) || starts_with_digit(b) {
        let sa = split_on(a, '.');
        let sb = split_on(b, '.');
        if sa.len() == 1 && sb.len() == 1 {
            lex_order(lowercase(a), lowercase(b))
        } else if sa.len() == 1 {
            Cmp::Greater
        } else if sb.len() == 1 {
            Cmp::Less
        } else {
            let ca = comparable_parts(sa);
            let cb = comparable_parts(sb);
            let n = if ca.len() >= cb.len() { ca.len() as int } else { cb.len() as int };
            parts_order(pad_parts(ca, n), pad_parts(cb, n))
        }
    } else {
        lex_order(lowercase(a), lowercase(b))
    }
}

// ---------------------------------------------------------------- lemmas

/// Comparing the other way round flips the outcome.
pub proof fn lemma_lex_flip(a: Seq<char>, b: Seq<char>)
    ensures
        lex_order(b, a) == flip(lex_order(a, b)),
    decreases a.len(),
{
    if a.len() > 0 && b.len() > 0 && a[0] == b[0] {
        lemma_lex_flip(a.drop_first(), b.drop_first());
    }
}

/// Every text compares equal to itself.
pub proof fn lemma_lex_refl(a: Seq<char>)
    ensures
        lex_order(a, a) == Cmp::Equal,
    decreases a.len(),
{
    if a.len() > 0 {
        lemma_lex_refl(a.drop_first());
    }
}

/// Only equal texts compare equal.
pub proof fn lemma_lex_equal(a: Seq<char>, b: Seq<char>)
    requires
        lex_order(a, b) == Cmp::Equal,
    ensures
        a == b,
    decreases a.len(),
{
    if a.len() > 0 && b.len() > 0 {
        lemma_lex_equal(a.drop_first(), b.drop_first());
        assert(a =~= seq![a[0]] + a.drop_first());
        assert(b =~= seq![b[0]] + b.drop_first());
    } else {
        assert(a =~= b);
    }
}

/// The lexicographic order is transitive.
pub proof fn lemma_lex_trans(a: Seq<char>, b: Seq<char>, c: Seq<char>)
    requires
        lex_order(a, b) == Cmp::Less,
        lex_order(b, c) == Cmp::Less,
    ensures
        lex_order(a, c) == Cmp::Less,
    decreases a.len(),
{
    if a.len() > 0 && b.len() > 0 && c.len() > 0 && a[0] == b[0] && b[0] == c[0] {
        lemma_lex_trans(a.drop_first(), b.drop_first(), c.drop_first());
    }
}

proof fn lemma_part_flip(a: PartView, b: PartView)
    ensures
        part_order(b, a) == flip(part_order(a, b)),
{
    match (a, b) {
        (PartView::Text(x), PartView::Text(y)) => lemma_lex_flip(x, y),
        _ => {},
    }
}

proof fn lemma_parts_flip(a: Seq<PartView>, b: Seq<PartView>)
    ensures
        parts_order(b, a) == flip(parts_order(a, b)),
    decreases a.len(),
{
    if a.len() > 0 && b.len() > 0 {
        lemma_part_flip(a[0], b[0]);
        if part_order(a[0], b[0]) == Cmp::Equal {
            lemma_parts_flip(a.drop_first(), b.drop_first());
        }
    }
}

proof fn lemma_parts_refl(a: Seq<PartView>)
    ensures
        parts_order(a, a) == Cmp::Equal,
    decreases a.len(),
{
    if a.len() > 0 {
        match a[0] {
            PartView::Text(x) => lemma_lex_refl(x),
            _ => {},
        }
        lemma_parts_refl(a.drop_first());
    }
}

/// Comparing `b` with `a` gives the opposite of comparing `a` with `b`.
pub proof fn lemma_name_order_antisymmetric(a: Seq<char>, b: Seq<char>)
    ensures
        name_order(b, a) == flip(name_order(a, b)),
{
    lemma_lex_flip(lowercase(a), lowercase(b));
    let ca = comparable_parts(split_on(a, '.'));
    let cb = comparable_parts(split_on(b, '.'));
    let n = if ca.len() >= cb.len() { ca.len() as int } else { cb.len() as int };
    lemma_parts_flip(pad_parts(ca, n), pad_parts(cb, n));
}

/// Every name compares equal to itself.
pub proof fn lemma_name_order_reflexive(a: Seq<char>)
    ensures
        name_order(a, a) == Cmp::Equal,
{
    lemma_lex_refl(lowercase(a));
    let ca = comparable_parts(split_on(a, '.'));
    lemma_parts_refl(pad_parts(ca, ca.len() as int));
}

proof fn lemma_digits_value_nonneg(s: Seq<char>)
    requires
        all_digits(s),
    ensures
        digits_value(s) >= 0,
    decreases s.len(),
{
    if s.len() > 0 {
        assert(is_ascii_digit(s[s.len() - 1]));
        assert forall|i: int| 0 <= i < s.drop_last().len() implies is_ascii_digit(#[trigger] s.drop_last()[i]) by {
            assert(s.drop_last()[i] == s[i]);
        }
        lemma_digits_value_nonneg(s.drop_last());
    }
}

proof fn lemma_digits_value_mono(s: Seq<char>, k: int)
    requires
        all_digits(s),
        0 <= k <= s.len(),
    ensures
        digits_value(s) >= digits_value(s.take(k)),
    decreases s.len(),
{
    if k < s.len() {
        let d = s.drop_last();
        assert forall|i: int| 0 <= i < d.len() implies is_ascii_digit(#[trigger] d[i]) by {
            assert(d[i] == s[i]);
        }
        assert(is_ascii_digit(s[s.len() - 1]));
        lemma_digits_value_nonneg(d);
        lemma_digits_value_mono(d, k);
        assert(d.take(k) =~= s.take(k));
    } else {
        assert(s.take(k) =~= s);
    }
}

// ---------------------------------------------------------------- exec

/// Lexicographic comparison of two character vectors.
pub fn lex_chars(a: &Vec<char>, b: &Vec<char>) -> (r: Cmp)
    ensures
        r == lex_order(a@, b@),
{
    let mut i: usize = 0;
    assert(a@.skip(0) =~= a@);
    assert(b@.skip(0) =~= b@);
    while i < a.len() && i < b.len()
        invariant
            0 <= i <= a.len(),
            i <= b.len(),
            lex_order(a@, b@) == lex_order(a@.skip(i as int), b@.skip(i as int)),
        decreases a.len() - i,
    {
        let x = a[i];
        let y = b[i];
        if x < y {
            return Cmp::Less;
        }
        if x > y {
            return Cmp::Greater;
        }
        assert(a@.skip(i as int).drop_first() =~= a@.skip(i + 1));
        assert(b@.skip(i as int).drop_first() =~= b@.skip(i + 1));
        i = i + 1;
    }
    if i == a.len() {
        if i == b.len() { Cmp::Equal } else { Cmp::Less }
    } else {
        Cmp::Greater
    }
}

/// `str::parse::<i32>` on the characters of a piece.
pub fn parse_i32(s: &Vec<char>) -> (r: Option<i32>)
    ensures
        match r {
            Some(n) => parsed_i32(s@) == Some(n as int),
            None => parsed_i32(s@) is None,
        },
{
    if s.len() == 0 {
        return None;
    }
    let neg = s[0] == '-';
    let start: usize = if s[0] == '-' || s[0] == '+' { 1 } else { 0 };
    let ghost body = if start == 1 { s@.drop_first() } else { s@ };
    assert(start == 1 <==> (s@[0] == '-' || s@[0] == '+'));
    assert(neg == (s@[0] == '-'));
    assert(body =~= s@.subrange(start as int, s@.len() as int));
    if start >= s.len() {
        return None;
    }
    let mut v: i64 = 0;
    let mut i: usize = start;
    while i < s.len()
        invariant
            start <= i <= s.len(),
            s@.len() > start,
            start == 1 <==> (s@[0] == '-' || s@[0] == '+'),
            start <= 1,
            neg == (s@[0] == '-'),
            body == (if start == 1 { s@.drop_first() } else { s@ }),
            body =~= s@.subrange(start as int, s@.len() as int),
            v == digits_value(body.take(i - start)),
            0 <= v <= 0x8000_0000,
            all_digits(body.take(i - start)),
        decreases s.len() - i,
    {
        let c = s[i];
        if !('0' <= c && c <= '9') {
            assert(body[i - start] == c);
            assert(!is_ascii_digit(body[i - start]));
            assert(!all_digits(body));
            return None;
        }
        let d = (c as u32 - '0' as u32) as i64;
        proof {
            let t = body.take(i - start + 1);
            assert(t.drop_last() =~= body.take(i - start));
            assert(t.last() == c);
            assert forall|k: int| 0 <= k < t.len() implies is_ascii_digit(#[trigger] t[k]) by {
                if k < t.len() - 1 {
                    assert(t[k] == body.take(i - start)[k]);
                }
            }
        }
        v = v * 10 + d;
        assert(v == digits_value(body.take(i - start + 1)));
        if v > 0x8000_0000 {
            proof {
                if all_digits(body) {
                    lemma_digits_value_mono(body, i - start + 1);
                    assert(digits_value(body) > 0x8000_0000);
                }
            }
            return None;
        }
        i = i + 1;
    }
    assert(body.take(i - start) =~= body);
    if neg {
        Some((-v) as i32)
    } else if v > 0x7fff_ffff {
        None
    } else {
        Some(v as i32)
    }
}


/// One piece of a dotted name, as compared.
#[derive(Debug, Clone, PartialEq, Eq)]
pub enum ComparablePart {
    Number(i32),
    String(String),
}

/// The abstract value of a piece.
pub open spec fn part_view(p: ComparablePart) -> PartView {
    match p {
        ComparablePart::Number(n) => PartView::Number(n as int),
        ComparablePart::String(s) => PartView::Text(s@),
    }
}

/// The abstract values of a sequence of pieces.
pub open spec fn parts_view(v: Seq<ComparablePart>) -> Seq<PartView> {
    v.map_values(|p: ComparablePart| part_view(p))
}

/// Builds the comparable pieces: the last stays text, the others become
/// numbers where they parse as `i32`.
pub fn comparable(parts: &Vec<Vec<char>>) -> (res: Vec<ComparablePart>)
    ensures
        res@.len() == parts@.len(),
        parts_view(res@) == comparable_parts(vviews(parts@)),
{
    let mut res: Vec<ComparablePart> = Vec::new();
    let n = parts.len();
    let mut i: usize = 0;
    while i < n
        invariant
            0 <= i <= n == parts.len(),
            res@.len() == i,
            forall|k: int| 0 <= k < i ==> part_view(#[trigger] res@[k]) == comparable_parts(vviews(parts@))[k],
        decreases n - i,
    {
        let p = if i == n - 1 {
            ComparablePart::String(crate::text::string_from_chars(&parts[i]))
        } else {
            match parse_i32(&parts[i]) {
                Some(v) => ComparablePart::Number(v),
                None => ComparablePart::String(crate::text::string_from_chars(&parts[i])),
            }
        };
        res.push(p);
        i = i + 1;
    }
    assert(parts_view(res@) =~= comparable_parts(vviews(parts@)));
    res
}

/// Inserts zero pieces before the last one until there are `n` pieces.
pub fn pad(a: &mut Vec<ComparablePart>, n: usize)
    requires
        old(a).len() >= 1,
    ensures
        parts_view(final(a)@) == pad_parts(parts_view(old(a)@), n as int),
{
    let ghost a0 = a@;
    let len0 = a.len();
    while a.len() < n
        invariant
            len0 >= 1,
            a0.len() == len0,
            a@.len() >= len0,
            a@.len() == len0 || a@.len() <= n,
            a@ =~= a0.take(len0 - 1) + Seq::new((a@.len() - len0) as nat, |i: int| ComparablePart::Number(0)) + seq![a0.last()],
        decreases n - a.len(),
    {
        let at = a.len() - 1;
        a.insert(at, ComparablePart::Number(0));
    }
    proof {
        let v0 = parts_view(a0);
        if len0 >= n {
            assert(a@ =~= a0);
        } else {
            let rhs = v0.take(len0 - 1) + Seq::new((n - len0) as nat, |i: int| PartView::Number(0)) + seq![v0.last()];
            assert(a@.len() == n);
            assert forall|k: int| 0 <= k < n implies parts_view(a@)[k] == rhs[k] by {
                if k < len0 - 1 {
                    assert(a@[k] == a0[k]);
                } else if k < n - 1 {
                    assert(a@[k] == ComparablePart::Number(0));
                } else {
                    assert(a@[k] == a0.last());
                }
            }
            assert(parts_view(a@) =~= rhs);
        }
    }
}

/// Three-way comparison of two pieces.
pub fn part_compare(a: &ComparablePart, b: &ComparablePart) -> (r: Cmp)
    ensures
        r == part_order(part_view(*a), part_view(*b)),
{
    match (a, b) {
        (ComparablePart::Number(x), ComparablePart::Number(y)) => {
            if *x < *y { Cmp::Less } else if *x > *y { Cmp::Greater } else { Cmp::Equal }
        },
        (ComparablePart::Number(_), ComparablePart::String(_)) => Cmp::Less,
        (ComparablePart::String(_), ComparablePart::Number(_)) => Cmp::Greater,
        (ComparablePart::String(x), ComparablePart::String(y)) => {
            let vx = chars_of(x.as_str());
            let vy = chars_of(y.as_str());
            lex_chars(&vx, &vy)
        },
    }
}

/// Lexicographic comparison of piece sequences.
pub fn parts_compare(a: &Vec<ComparablePart>, b: &Vec<ComparablePart>) -> (r: Cmp)
    ensures
        r == parts_order(parts_view(a@), parts_view(b@)),
{
    let ghost av = parts_view(a@);
    let ghost bv = parts_view(b@);
    let mut i: usize = 0;
    assert(av.skip(0) =~= av);
    assert(bv.skip(0) =~= bv);
    while i < a.len() && i < b.len()
        invariant
            0 <= i <= a.len(),
            i <= b.len(),
            av == parts_view(a@),
            bv == parts_view(b@),
            parts_order(av, bv) == parts_order(av.skip(i as int), bv.skip(i as int)),
        decreases a.len() - i,
    {
        let c = part_compare(&a[i], &b[i]);
        assert(av.skip(i as int)[0] == part_view(a@[i as int]));
        assert(bv.skip(i as int)[0] == part_view(b@[i as int]));
        if c != Cmp::Equal {
            return c;
        }
        assert(av.skip(i as int).drop_first() =~= av.skip(i + 1));
        assert(bv.skip(i as int).drop_first() =~= bv.skip(i + 1));
        i = i + 1;
    }
    if i == a.len() {
        if i == b.len() { Cmp::Equal } else { Cmp::Less }
    } else {
        Cmp::Greater
    }
}

/// Three-way comparison of two names in index order.
pub fn order_names(a: &Vec<char>, b: &Vec<char>) -> (r: Cmp)
    ensures
        r == name_order(a@, b@),
{
    let a_digit = a.len() > 0 && '0' <= a[0] && a[0] <= '9';
    let b_digit = b.len() > 0 && '0' <= b[0] && b[0] <= '9';
    if a_digit || b_digit {
        let sa = split_chars(a, '.');
        let sb = split_chars(b, '.');
        proof {
            crate::text::lemma_split_on2_len(a@, '.', '.');
            crate::text::lemma_split_on2_len(b@, '.', '.');
        }
        if sa.len() == 1 && sb.len() == 1 {
            return lower_compare(a, b);
        }
        if sa.len() == 1 {
            return Cmp::Greater;
        }
        if sb.len() == 1 {
            return Cmp::Less;
        }
        let mut ca = comparable(&sa);
        let mut cb = comparable(&sb);
        let n = if ca.len() >= cb.len() { ca.len() } else { cb.len() };
        pad(&mut ca, n);
        pad(&mut cb, n);
        parts_compare(&ca, &cb)
    } else {
        lower_compare(a, b)
    }
}

/// Compares the lowercase forms of two names.
fn lower_compare(a: &Vec<char>, b: &Vec<char>) -> (r: Cmp)
    ensures
        r == lex_order(lowercase(a@), lowercase(b@)),
{
    let sa = crate::text::string_from_chars(a);
    let sb = crate::text::string_from_chars(b);
    let la = to_lowercase(sa.as_str());
    let lb = to_lowercase(sb.as_str());
    let va = chars_of(la.as_str());
    let vb = chars_of(lb.as_str());
    lex_chars(&va, &vb)
}

/// Each position of `0..n` exactly once.
pub open spec fn is_permutation(p: Seq<usize>, n: nat) -> bool {
    &&& p.len() == n
    &&& forall|i: int| 0 <= i < p.len() ==> #[trigger] p[i] < n
    &&& forall|i: int, j: int| 0 <= i < j < p.len() ==> p[i] != p[j]
}

/// No key compares greater than the key after it.
pub open spec fn sorted_by_name(keys: Seq<Seq<char>>, p: Seq<usize>) -> bool {
    forall|i: int| 0 <= i < p.len() - 1 ==> #[trigger] in_order_at(keys, p, i)
}

/// The key at position `i` does not compare greater than the next one.
pub open spec fn in_order_at(keys: Seq<Seq<char>>, p: Seq<usize>, i: int) -> bool {
    name_order(keys[p[i] as int], keys[p[i + 1] as int]) != Cmp::Greater
}

/// The positions of `keys` in index order (a stable insertion sort).
pub fn sort_positions(keys: &Vec<Vec<char>>) -> (p: Vec<usize>)
    ensures
        is_permutation(p@, keys@.len()),
        sorted_by_name(vviews(keys@), p@),
{
    let ghost kv = vviews(keys@);
    let mut p: Vec<usize> = Vec::new();
    let n = keys.len();
    let mut i: usize = 0;
    while i < n
        invariant
            0 <= i <= n == keys.len(),
            kv == vviews(keys@),
            p@.len() == i,
            forall|k: int| 0 <= k < p@.len() ==> #[trigger] p@[k] < i,
            forall|k: int, l: int| 0 <= k < l < p@.len() ==> p@[k] != p@[l],
            sorted_by_name(kv, p@),
        decreases n - i,
    {
        let mut j = p.len();
        while j > 0 && order_names(&keys[p[j - 1]], &keys[i]) == Cmp::Greater
            invariant
                0 <= j <= p@.len(),
                i < n == keys.len(),
                kv == vviews(keys@),
                forall|k: int| 0 <= k < p@.len() ==> #[trigger] p@[k] < i,
                forall|k: int| j <= k < p@.len() ==> name_order(kv[p@[k] as int], kv[i as int]) == Cmp::Greater,
            decreases j,
        {
            j = j - 1;
        }
        let ghost old_p = p@;
        proof {
            if j < old_p.len() {
                lemma_name_order_antisymmetric(kv[old_p[j as int] as int], kv[i as int]);
            }
        }
        p.insert(j, i);
        assert(p@ =~= old_p.insert(j as int, i));
        assert forall|k: int| 0 <= k < p@.len() - 1 implies #[trigger] in_order_at(kv, p@, k) by {
            if k < j - 1 {
                assert(in_order_at(kv, old_p, k));
                assert(p@[k] == old_p[k] && p@[k + 1] == old_p[k + 1]);
            } else if k == j - 1 {
            } else if k == j {
            } else {
                assert(p@[k] == old_p[k - 1] && p@[k + 1] == old_p[k]);
                assert(in_order_at(kv, old_p, k - 1));
            }
        }
        i = i + 1;
    }
    p
}

} // verus!
