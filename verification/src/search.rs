//! Searching the entries of an index by the words of their names.
//!
//! Names and queries are lower-cased and cut into tokens: the runs of
//! letters and digits. An entry matches a query token through each token of
//! its name that starts with it, and each such match scores by where the
//! query token stands in the name. Scores are kept in half points.

use vstd::prelude::*;
use crate::indexer::{Entry, EntryView, Index, latest_entry};
use crate::text::{alphanumeric, lowercase, is_alphanumeric, to_lowercase, chars_of, keep_nonempty, vviews,
    nonempty_parts, string_from_chars, contains_seq, occurs_at, occurs_at_exec, is_ws, is_whitespace};
use crate::strs::{has_prefix, starts_with, contains_str};
use crate::error::Result;
use vstd::string::StringSliceAdditionalSpecFns;
use vstd::utf8::{encode_utf8, is_char_boundary};
use crate::utf8_text::{str_slice, push_str_bytes, find_b, contains_b, occurs_b, find_bytes, lemma_find_b};

verus! {

/// Pieces of `s` between characters that are not letters or digits.
pub open spec fn split_nonalnum(s: Seq<char>) -> Seq<Seq<char>>
    decreases s.len(),
{
    if s.len() == 0 {
        seq![Seq::<char>::empty()]
    } else {
        let rest = split_nonalnum(s.drop_last());
        let c = s.last();
        if !alphanumeric(c) {
            rest.push(Seq::<char>::empty())
        } else {
            rest.update(rest.len() - 1, rest.last().push(c))
        }
    }
}

/// The tokens of a text: the runs of letters and digits of its lower-cased form.
pub open spec fn tokens_of(text: Seq<char>) -> Seq<Seq<char>> {
    keep_nonempty(split_nonalnum(lowercase(text)))
}

/// How many of the tokens start with `t`.
pub open spec fn prefix_count(toks: Seq<Seq<char>>, t: Seq<char>) -> nat
    decreases toks.len(),
{
    if toks.len() == 0 {
        0
    } else {
        prefix_count(toks.drop_last(), t) + if has_prefix(toks.last(), t) { 1nat } else { 0nat }
    }
}

/// `t` starts a whitespace-separated word of the name.
pub open spec fn starts_word(name: Seq<char>, t: Seq<char>) -> bool {
    exists|p: int| #[trigger] occurs_at(name, t, p) && (p == 0 || is_ws(name[p - 1]))
}

/// How well a query token matches a lower-cased name, in half points: 4 at
/// its start, 3 at the start of a word, 2 elsewhere, 1 nowhere.
pub open spec fn half_score(name: Seq<char>, t: Seq<char>) -> nat {
    if contains_seq(name, t) {
        if has_prefix(name, t) { 4 } else if starts_word(name, t) { 3 } else { 2 }
    } else {
        1
    }
}

/// The score of a name for the query tokens, in half points: for each query
/// token, its score times the number of the name's tokens it starts.
pub open spec fn name_score(name: Seq<char>, query: Seq<Seq<char>>) -> nat
    decreases query.len(),
{
    if query.len() == 0 {
        0
    } else {
        name_score(name, query.drop_last())
            + prefix_count(tokens_of(name), query.last()) * half_score(lowercase(name), query.last())
    }
}

/// The longest of the first `n` tokens that occurs in the name's bytes; the
/// earliest among equally long ones; empty when none occurs.
pub open spec fn longest_upto(nb: Seq<u8>, toks: Seq<Seq<u8>>, n: int) -> Seq<u8>
    decreases n,
{
    if n <= 0 {
        Seq::empty()
    } else {
        let acc = longest_upto(nb, toks, n - 1);
        let t = toks[n - 1];
        if contains_b(nb, t) && t.len() > acc.len() { t } else { acc }
    }
}

/// The bytes of the tokens.
pub open spec fn token_bytes(toks: Seq<Seq<char>>) -> Seq<Seq<u8>> {
    toks.map_values(|t: Seq<char>| encode_utf8(t))
}

/// The longest query token that occurs in the lower-cased name, as bytes.
pub open spec fn longest_match(name: Seq<char>, toks: Seq<Seq<char>>) -> Seq<u8> {
    longest_upto(encode_utf8(lowercase(name)), token_bytes(toks), toks.len() as int)
}

/// Where the context around a match starts: ten bytes before it, or at 0.
pub open spec fn context_start(pos: int) -> int {
    if pos > 10 { pos - 10 } else { 0 }
}

/// Where the context around a match ends: ten bytes after it, or at the end.
pub open spec fn context_end(pos: int, len: int, n: int) -> int {
    if pos + len + 10 < n { pos + len + 10 } else { n }
}

/// The match in its context, in bytes: up to ten bytes before and after,
/// `...` where the name goes on, and the match between `<b>` and `</b>`.
pub open spec fn context_bytes(nb: Seq<u8>, l: Seq<u8>) -> Seq<u8> {
    let pos = find_b(nb, l, 0);
    let start = context_start(pos);
    let end = context_end(pos, l.len() as int, nb.len() as int);
    (if start > 0 { encode_utf8("..."@) } else { Seq::empty() })
        + nb.subrange(start, pos) + encode_utf8("<b>"@) + nb.subrange(pos, pos + l.len())
        + encode_utf8("</b>"@) + nb.subrange(pos + l.len(), end)
        + (if end < nb.len() { encode_utf8("..."@) } else { Seq::empty() })
}

/// The text shown for an entry, in bytes: its name where no query token
/// occurs in it, otherwise the longest such token in its context.
pub open spec fn matched_text_bytes(name: Seq<char>, toks: Seq<Seq<char>>) -> Seq<u8> {
    let l = longest_match(name, toks);
    if l.len() == 0 { encode_utf8(name) } else { context_bytes(encode_utf8(lowercase(name)), l) }
}

/// The cuts around the match fall between characters.
pub open spec fn matched_cuts_ok(name: Seq<char>, toks: Seq<Seq<char>>) -> bool {
    let l = longest_match(name, toks);
    let nb = encode_utf8(lowercase(name));
    let pos = find_b(nb, l, 0);
    l.len() > 0 ==> {
        &&& is_char_boundary(nb, context_start(pos))
        &&& is_char_boundary(nb, pos)
        &&& is_char_boundary(nb, pos + l.len())
        &&& is_char_boundary(nb, context_end(pos, l.len() as int, nb.len() as int))
    }
}

/// One search result: the entry, its score in half points, and the text
/// shown for it.
#[derive(Debug, Clone)]
pub struct SearchResult {
    pub entry: Entry,
    pub score_halves: u64,
    pub matched_text: String,
}

/// Result `a` ranks before result `b`: higher score, or equal score and
/// earlier entry.
pub open spec fn ranks_before(a: (int, nat), b: (int, nat)) -> bool {
    a.1 > b.1 || (a.1 == b.1 && a.0 < b.0)
}

/// The entries of the index that a query matches, with their scores.
pub open spec fn is_candidate(entries: Seq<EntryView>, query: Seq<Seq<char>>, c: (int, nat)) -> bool {
    0 <= c.0 < entries.len() && c.1 == name_score(entries[c.0].name, query) && c.1 > 0
}

/// Searches the entries of an index.
pub struct SearchEngine {
    index: Index,
}

/// The pieces of `v` between characters that are not letters or digits.
fn split_runs(v: &Vec<char>) -> (res: Vec<Vec<char>>)
    ensures
        vviews(res@) == split_nonalnum(v@),
{
    let mut parts: Vec<Vec<char>> = Vec::new();
    let mut cur: Vec<char> = Vec::new();
    let mut i: usize = 0;
    proof {
        assert(split_nonalnum(v@.take(0)) =~= seq![Seq::<char>::empty()]);
    }
    while i < v.len()
        invariant
            0 <= i <= v.len(),
            vviews(parts@).push(cur@) == split_nonalnum(v@.take(i as int)),
        decreases v.len() - i,
    {
        let c = v[i];
        let ghost pv = vviews(parts@);
        let ghost cv = cur@;
        proof {
            assert(v@.take(i + 1).drop_last() =~= v@.take(i as int));
            assert(v@.take(i + 1).last() == c);
        }
        if !is_alphanumeric(c) {
            let done = cur;
            parts.push(done);
            cur = Vec::new();
            proof {
                assert(vviews(parts@) =~= pv.push(cv));
                assert(vviews(parts@).push(cur@) =~= pv.push(cv).push(Seq::<char>::empty()));
            }
        } else {
            cur.push(c);
            proof {
                assert(vviews(parts@) == pv);
                assert(pv.push(cv).update(pv.len() as int, cv.push(c)) =~= pv.push(cv.push(c)));
            }
        }
        i = i + 1;
    }
    parts.push(cur);
    proof {
        assert(v@.take(v@.len() as int) =~= v@);
    }
    parts
}

/// The tokens of a text.
pub fn tokenize(text: &str) -> (res: Vec<String>)
    ensures
        res@.map_values(|s: String| s@) == tokens_of(text@),
{
    let lower = to_lowercase(text);
    let v = chars_of(lower.as_str());
    let parts = nonempty_parts(split_runs(&v));
    let mut out: Vec<String> = Vec::new();
    let mut i: usize = 0;
    while i < parts.len()
        invariant
            0 <= i <= parts.len(),
            vviews(parts@) == tokens_of(text@),
            out@.map_values(|s: String| s@) == vviews(parts@).take(i as int),
        decreases parts.len() - i,
    {
        let s = string_from_chars(&parts[i]);
        let ghost before = out@.map_values(|s: String| s@);
        out.push(s);
        assert(out@.map_values(|s: String| s@) =~= before.push(s@));
        assert(vviews(parts@).take(i + 1) =~= vviews(parts@).take(i as int).push(parts@[i as int]@));
        i = i + 1;
    }
    assert(vviews(parts@).take(i as int) =~= vviews(parts@));
    out
}

/// How many of the tokens start with `t`.
fn count_prefixed(toks: &Vec<String>, t: &str) -> (r: u64)
    ensures
        r == prefix_count(toks@.map_values(|s: String| s@), t@),
{
    let ghost tv = toks@.map_values(|s: String| s@);
    let mut n: u64 = 0;
    let mut i: usize = 0;
    while i < toks.len()
        invariant
            0 <= i <= toks.len(),
            tv == toks@.map_values(|s: String| s@),
            n == prefix_count(tv.take(i as int), t@),
            n <= i,
        decreases toks.len() - i,
    {
        proof {
            assert(tv.take(i + 1).drop_last() =~= tv.take(i as int));
            assert(tv.take(i + 1).last() == toks@[i as int]@);
        }
        if starts_with(toks[i].as_str(), t) {
            n = n + 1;
        }
        i = i + 1;
    }
    assert(tv.take(i as int) =~= tv);
    n
}

/// Whether `t` starts a whitespace-separated word of the name.
fn starts_a_word(name: &Vec<char>, t: &Vec<char>) -> (r: bool)
    ensures
        r == starts_word(name@, t@),
{
    let mut p: usize = 0;
    while p < name.len()
        invariant
            0 <= p <= name.len(),
            forall|q: int| 0 <= q < p ==> !(#[trigger] occurs_at(name@, t@, q) && (q == 0 || is_ws(name@[q - 1]))),
        decreases name.len() - p,
    {
        if (p == 0 || is_whitespace(name[p - 1])) && occurs_at_exec(name, t, p) {
            return true;
        }
        p = p + 1;
    }
    if (p == 0 || is_whitespace(name[p - 1])) && occurs_at_exec(name, t, p) {
        return true;
    }
    proof {
        assert forall|q: int| #[trigger] occurs_at(name@, t@, q) implies !(q == 0 || is_ws(name@[q - 1])) by {
            assert(q <= name@.len());
        }
    }
    false
}

impl SearchEngine {
    /// The entries searched.
    pub closed spec fn entries_view(&self) -> Seq<EntryView> {
        self.index@
    }

    /// An engine over the entries of an index.
    pub fn new(index: Index) -> (res: Self)
        ensures
            res.entries_view() == index@,
    {
        SearchEngine { index }
    }

    /// The position and length of the longest query token in the name's
    /// lower-cased bytes, if any occurs.
    fn longest_token(nb: &[u8], tokens: &Vec<String>) -> (res: Option<(usize, usize)>)
        ensures
            match res {
                Some((idx, pos)) => idx < tokens@.len()
                    && longest_upto(nb@, token_bytes(tokens@.map_values(|s: String| s@)), tokens@.len() as int)
                        == encode_utf8(tokens@[idx as int]@)
                    && encode_utf8(tokens@[idx as int]@).len() > 0
                    && pos == find_b(nb@, encode_utf8(tokens@[idx as int]@), 0),
                None => longest_upto(nb@, token_bytes(tokens@.map_values(|s: String| s@)), tokens@.len() as int).len() == 0,
            },
    {
        let ghost tb = token_bytes(tokens@.map_values(|s: String| s@));
        let mut best: usize = 0;
        let mut best_len: usize = 0;
        let mut best_pos: usize = 0;
        let mut i: usize = 0;
        while i < tokens.len()
            invariant
                0 <= i <= tokens.len(),
                tb == token_bytes(tokens@.map_values(|s: String| s@)),
                best_len == longest_upto(nb@, tb, i as int).len(),
                best_len > 0 ==> best < i && longest_upto(nb@, tb, i as int) == tb[best as int]
                    && best_pos == find_b(nb@, tb[best as int], 0),
            decreases tokens.len() - i,
        {
            let t = tokens[i].as_str().as_bytes();
            assert(tb[i as int] == t@);
            match find_bytes(nb, t) {
                Some(p) => {
                    proof {
                        lemma_find_b(nb@, t@, 0);
                    }
                    if t.len() > best_len {
                        best = i;
                        best_len = t.len();
                        best_pos = p;
                    }
                },
                None => {
                    proof {
                        lemma_find_b(nb@, t@, 0);
                        if contains_b(nb@, t@) {
                            let j = choose|j: int| #[trigger] occurs_b(nb@, t@, j);
                            assert(j >= 0);
                        }
                    }
                },
            }
            i = i + 1;
        }
        if best_len == 0 {
            None
        } else {
            assert(tb[best as int] == encode_utf8(tokens@[best as int]@));
            Some((best, best_pos))
        }
    }

    /// The text shown for an entry: its name where no query token occurs in
    /// it, otherwise the longest such token with up to ten bytes around it.
    /// The cuts must fall between characters.
    pub fn get_matched_text(&self, entry: &Entry, tokens: &Vec<String>) -> (res: String)
        requires
            matched_cuts_ok(entry.name@, tokens@.map_values(|s: String| s@)),
        ensures
            encode_utf8(res@) == matched_text_bytes(entry.name@, tokens@.map_values(|s: String| s@)),
    {
        let name = to_lowercase(entry.name.as_str());
        let nb = name.as_str().as_bytes();
        let ghost nbv = encode_utf8(lowercase(entry.name@));
        assert(nb@ == nbv);
        match Self::longest_token(nb, tokens) {
            None => {
                let r = crate::text::copy_str(entry.name.as_str());
                r
            },
            Some((idx, pos)) => {
                let l = tokens[idx].as_str().as_bytes().len();
                let n = nb.len();
                proof {
                    lemma_find_b(nbv, encode_utf8(tokens@[idx as int]@), 0);
                    let lb = encode_utf8(tokens@[idx as int]@);
                    if pos < 0 {
                        let j = choose|j: int| #[trigger] occurs_b(nbv, lb, j);
                    }
                }
                assert(pos + l <= n);
                let start: usize = if pos > 10 { pos - 10 } else { 0 };
                let end: usize = if n - (pos + l) > 10 { pos + l + 10 } else { n };
                let mut out = String::new();
                assert(encode_utf8(out@) =~= Seq::<u8>::empty());
                if start > 0 {
                    push_str_bytes(&mut out, "...");
                }
                let a = str_slice(name.as_str(), start, pos);
                push_str_bytes(&mut out, a);
                push_str_bytes(&mut out, "<b>");
                let m = str_slice(name.as_str(), pos, pos + l);
                push_str_bytes(&mut out, m);
                push_str_bytes(&mut out, "</b>");
                let z = str_slice(name.as_str(), pos + l, end);
                push_str_bytes(&mut out, z);
                if end < n {
                    push_str_bytes(&mut out, "...");
                }
                proof {
                    let lb = encode_utf8(tokens@[idx as int]@);
                    assert(encode_utf8(out@) =~= context_bytes(nbv, lb));
                }
                out
            },
        }
    }

    /// Whether the cuts around the match fall between characters.
    pub fn matched_cuts_check(&self, entry: &Entry, tokens: &Vec<String>) -> (r: bool)
        ensures
            r == matched_cuts_ok(entry.name@, tokens@.map_values(|s: String| s@)),
    {
        let name = to_lowercase(entry.name.as_str());
        let nb = name.as_str().as_bytes();
        match Self::longest_token(nb, tokens) {
            None => true,
            Some((idx, pos)) => {
                let l = tokens[idx].as_str().as_bytes().len();
                let n = nb.len();
                proof {
                    lemma_find_b(nb@, encode_utf8(tokens@[idx as int]@), 0);
                    let lb = encode_utf8(tokens@[idx as int]@);
                    if pos < 0 {
                        let j = choose|j: int| #[trigger] occurs_b(nb@, lb, j);
                    }
                }
                let start: usize = if pos > 10 { pos - 10 } else { 0 };
                let end: usize = if n - (pos + l) > 10 { pos + l + 10 } else { n };
                name.as_str().is_char_boundary(start) && name.as_str().is_char_boundary(pos)
                    && name.as_str().is_char_boundary(pos + l) && name.as_str().is_char_boundary(end)
            },
        }
    }

    /// How well a query token matches an entry's name, in half points.
    fn calculate_score(&self, entry: &Entry, token: &str) -> (r: u64)
        ensures
            r == half_score(lowercase(entry.name@), token@),
    {
        let name = to_lowercase(entry.name.as_str());
        if contains_str(name.as_str(), token) {
            if starts_with(name.as_str(), token) {
                return 4;
            }
            let nv = chars_of(name.as_str());
            let tv = chars_of(token);
            if starts_a_word(&nv, &tv) {
                return 3;
            }
            return 2;
        }
        1
    }

    /// The score of an entry for the query tokens, in half points; `None`
    /// where it does not fit in a `u64`.
    fn entry_score(&self, entry: &Entry, query: &Vec<String>) -> (r: Option<u64>)
        ensures
            r matches Some(s) ==> s == name_score(entry.name@, query@.map_values(|s: String| s@)),
            r is None ==> name_score(entry.name@, query@.map_values(|s: String| s@)) > u64::MAX,
    {
        let toks = tokenize(entry.name.as_str());
        let ghost qv = query@.map_values(|s: String| s@);
        let mut total: u64 = 0;
        let mut i: usize = 0;
        while i < query.len()
            invariant
                0 <= i <= query.len(),
                qv == query@.map_values(|s: String| s@),
                toks@.map_values(|s: String| s@) == tokens_of(entry.name@),
                total == name_score(entry.name@, qv.take(i as int)),
            decreases query.len() - i,
        {
            proof {
                assert(qv.take(i + 1).drop_last() =~= qv.take(i as int));
                assert(qv.take(i + 1).last() == query@[i as int]@);
                lemma_prefix_count_bound(toks@.map_values(|s: String| s@), query@[i as int]@);
                lemma_name_score_mono(entry.name@, qv, i + 1);
            }
            let c = count_prefixed(&toks, query[i].as_str());
            let h = self.calculate_score(entry, query[i].as_str());
            let add = match c.checked_mul(h) {
                Some(x) => x,
                None => {
                    return None;
                },
            };
            if total > u64::MAX - add {
                return None;
            }
            total = total + add;
            i = i + 1;
        }
        assert(qv.take(i as int) =~= qv);
        Some(total)
    }

    /// The entries that the query matches, as (position, score) pairs, best
    /// first: higher score first, and the earlier entry first among equal
    /// scores. A query without tokens matches nothing; an entry whose score
    /// does not fit in a `u64` is left out.
    pub fn ranked(&self, query: &str) -> (res: Vec<(usize, u64)>)
        ensures
            forall|k: int| 0 <= k < res@.len() ==>
                is_candidate(self.entries_view(), tokens_of(query@), pair_of(#[trigger] res@[k])),
            forall|a: int, b: int| 0 <= a < b < res@.len() ==> ranks_before(pair_of(res@[a]), pair_of(res@[b])),
            forall|i: int| 0 <= i < self.entries_view().len()
                && is_candidate(self.entries_view(), tokens_of(query@), (i, name_score(self.entries_view()[i].name, tokens_of(query@))))
                && name_score(self.entries_view()[i].name, tokens_of(query@)) <= u64::MAX
                ==> exists|k: int| 0 <= k < res@.len() && #[trigger] res@[k].0 == i,
    {
        let tokens = tokenize(query);
        let ghost q = tokens_of(query@);
        let mut ranked: Vec<(usize, u64)> = Vec::new();
        if tokens.len() == 0 {
            proof {
                assert forall|i: int| 0 <= i < self.entries_view().len() implies
                    !is_candidate(self.entries_view(), q, (i, name_score(self.entries_view()[i].name, q))) by {
                    assert(q.len() == 0);
                }
            }
            return ranked;
        }
        let mut i: usize = 0;
        while i < self.index.entries.len()
            invariant
                0 <= i <= self.index.entries.len(),
                tokens@.map_values(|s: String| s@) == q,
                q == tokens_of(query@),
                forall|k: int| 0 <= k < ranked@.len() ==> #[trigger] ranked@[k].0 < i
                    && is_candidate(self.entries_view(), q, pair_of(ranked@[k])),
                forall|a: int, b: int| 0 <= a < b < ranked@.len() ==> ranks_before(pair_of(ranked@[a]), pair_of(ranked@[b])),
                forall|j: int| 0 <= j < i
                    && is_candidate(self.entries_view(), q, (j, name_score(self.entries_view()[j].name, q)))
                    && name_score(self.entries_view()[j].name, q) <= u64::MAX
                    ==> exists|k: int| 0 <= k < ranked@.len() && #[trigger] ranked@[k].0 == j,
            decreases self.index.entries.len() - i,
        {
            let entry = &self.index.entries[i];
            assert(self.entries_view()[i as int] == entry@);
            match self.entry_score(entry, &tokens) {
                Some(score) => {
                    if score > 0 {
                        insert_ranked(&mut ranked, i, score);
                        proof {
                            assert(is_candidate(self.entries_view(), q, (i as int, score as nat)));
                        }
                    }
                },
                None => {},
            }
            i = i + 1;
        }
        ranked
    }

    /// The entries that the query matches, best first, at most `limit` of
    /// them: the first of `ranked`, each with its entry, its score and the
    /// text shown for it. The cuts of that text must fall between characters.
    pub fn search(&self, query: &str, limit: usize) -> (res: Result<Vec<SearchResult>>)
        requires
            forall|i: int| 0 <= i < self.entries_view().len()
                && name_score(self.entries_view()[i].name, tokens_of(query@)) > 0
                ==> matched_cuts_ok(#[trigger] self.entries_view()[i].name, tokens_of(query@)),
        ensures
            res matches Ok(v) && exists|r: Seq<(usize, u64)>| #[trigger] ranked_as(self, query@, r)
                && v@.len() == if r.len() < limit { r.len() } else { limit as nat }
                && forall|k: int| 0 <= k < v@.len() ==> #[trigger] v@[k].entry@ == self.entries_view()[r[k].0 as int]
                    && v@[k].score_halves == r[k].1
                    && encode_utf8(v@[k].matched_text@)
                        == matched_text_bytes(self.entries_view()[r[k].0 as int].name, tokens_of(query@)),
    {
        let ranked = self.ranked(query);
        let tokens = tokenize(query);
        let mut results: Vec<SearchResult> = Vec::new();
        let mut k: usize = 0;
        while k < ranked.len() && k < limit
            invariant
                0 <= k <= ranked@.len(),
                k <= limit,
                results@.len() == k,
                tokens@.map_values(|s: String| s@) == tokens_of(query@),
                forall|i: int| 0 <= i < self.entries_view().len()
                    && name_score(self.entries_view()[i].name, tokens_of(query@)) > 0
                    ==> matched_cuts_ok(#[trigger] self.entries_view()[i].name, tokens_of(query@)),
                forall|j: int| 0 <= j < ranked@.len() ==> is_candidate(self.entries_view(), tokens_of(query@),
                    pair_of(#[trigger] ranked@[j])),
                forall|j: int| 0 <= j < k ==> #[trigger] results@[j].entry@ == self.entries_view()[ranked@[j].0 as int]
                    && results@[j].score_halves == ranked@[j].1
                    && encode_utf8(results@[j].matched_text@)
                        == matched_text_bytes(self.entries_view()[ranked@[j].0 as int].name, tokens_of(query@)),
            decreases ranked@.len() - k,
        {
            let (idx, score) = ranked[k];
            assert(is_candidate(self.entries_view(), tokens_of(query@), pair_of(ranked@[k as int])));
            let entry = &self.index.entries[idx];
            assert(self.entries_view()[idx as int] == entry@);
            let e = Entry {
                name: crate::text::copy_str(entry.name.as_str()),
                path: crate::text::copy_str(entry.path.as_str()),
                type_str: crate::text::copy_str(entry.type_str.as_str()),
                parent: match &entry.parent { Some(p) => Some(crate::text::copy_str(p.as_str())), None => None },
            };
            let matched = self.get_matched_text(entry, &tokens);
            results.push(SearchResult { entry: e, score_halves: score, matched_text: matched });
            k = k + 1;
        }
        proof {
            assert(ranked_as(self, query@, ranked@));
        }
        Ok(results)
    }

    /// `search`, where the cuts of every shown text fall between characters;
    /// `None` where one would split a character.
    pub fn try_search(&self, query: &str, limit: usize) -> (res: Option<Result<Vec<SearchResult>>>)
        ensures
            res is None ==> exists|i: int| 0 <= i < self.entries_view().len()
                && name_score(self.entries_view()[i].name, tokens_of(query@)) > 0
                && !matched_cuts_ok(#[trigger] self.entries_view()[i].name, tokens_of(query@)),
            res matches Some(r) ==> (r matches Ok(v) && exists|rk: Seq<(usize, u64)>| #[trigger] ranked_as(self, query@, rk)
                && v@.len() == if rk.len() < limit { rk.len() } else { limit as nat }
                && forall|k: int| 0 <= k < v@.len() ==> #[trigger] v@[k].entry@ == self.entries_view()[rk[k].0 as int]
                    && v@[k].score_halves == rk[k].1
                    && encode_utf8(v@[k].matched_text@)
                        == matched_text_bytes(self.entries_view()[rk[k].0 as int].name, tokens_of(query@))),
    {
        let tokens = tokenize(query);
        let mut i: usize = 0;
        while i < self.index.entries.len()
            invariant
                0 <= i <= self.index.entries.len(),
                tokens@.map_values(|s: String| s@) == tokens_of(query@),
                forall|j: int| 0 <= j < i && name_score(self.entries_view()[j].name, tokens_of(query@)) > 0
                    ==> matched_cuts_ok(#[trigger] self.entries_view()[j].name, tokens_of(query@)),
            decreases self.index.entries.len() - i,
        {
            let entry = &self.index.entries[i];
            assert(self.entries_view()[i as int] == entry@);
            let sc = self.entry_score(entry, &tokens);
            let needed = match sc {
                Some(x) => x > 0,
                None => true,
            };
            if needed && !self.matched_cuts_check(entry, &tokens) {
                assert(self.entries_view()[i as int].name == entry.name@);
                assert(name_score(self.entries_view()[i as int].name, tokens_of(query@)) > 0);
                assert(!matched_cuts_ok(self.entries_view()[i as int].name, tokens_of(query@)));
                return None;
            }
            i = i + 1;
        }
        Some(self.search(query, limit))
    }

    /// The entry last added under `path`.
    pub fn get_entry(&self, path: &str) -> (res: Option<&Entry>)
        ensures
            match res {
                Some(e) => latest_entry(self.entries_view(), path@) == Some(e@),
                None => latest_entry(self.entries_view(), path@) is None,
            },
    {
        self.index.get_entry(path)
    }

    /// All entries, in the order they were added.
    pub fn get_all_entries(&self) -> (res: &[Entry])
        ensures
            res@.map_values(|e: Entry| e@) == self.entries_view(),
    {
        self.index.entries.as_slice()
    }

    /// The number of entries.
    pub fn len(&self) -> (r: usize)
        ensures
            r == self.entries_view().len(),
    {
        self.index.len()
    }

    /// No entries.
    pub fn is_empty(&self) -> (r: bool)
        ensures
            r == (self.entries_view().len() == 0),
    {
        self.index.is_empty()
    }
}

/// The score for a prefix of the query never exceeds the score for all of it.
proof fn lemma_name_score_mono(name: Seq<char>, q: Seq<Seq<char>>, k: int)
    requires
        0 <= k <= q.len(),
    ensures
        name_score(name, q.take(k)) <= name_score(name, q),
    decreases q.len() - k,
{
    if k < q.len() {
        lemma_name_score_mono(name, q, k + 1);
        assert(q.take(k + 1).drop_last() =~= q.take(k));
    } else {
        assert(q.take(k) =~= q);
    }
}

/// A token count never exceeds the number of tokens.
proof fn lemma_prefix_count_bound(toks: Seq<Seq<char>>, t: Seq<char>)
    ensures
        prefix_count(toks, t) <= toks.len(),
    decreases toks.len(),
{
    if toks.len() > 0 {
        lemma_prefix_count_bound(toks.drop_last(), t);
    }
}

/// A (position, score) pair as numbers.
pub open spec fn pair_of(p: (usize, u64)) -> (int, nat) {
    (p.0 as int, p.1 as nat)
}

/// `r` is what `ranked` gives for the query.
pub open spec fn ranked_as(engine: &SearchEngine, query: Seq<char>, r: Seq<(usize, u64)>) -> bool {
    &&& forall|k: int| 0 <= k < r.len() ==> is_candidate(engine.entries_view(), tokens_of(query), pair_of(#[trigger] r[k]))
    &&& forall|a: int, b: int| 0 <= a < b < r.len() ==> ranks_before(pair_of(r[a]), pair_of(r[b]))
    &&& forall|i: int| 0 <= i < engine.entries_view().len()
        && is_candidate(engine.entries_view(), tokens_of(query), (i, name_score(engine.entries_view()[i].name, tokens_of(query))))
        && name_score(engine.entries_view()[i].name, tokens_of(query)) <= u64::MAX
        ==> exists|k: int| 0 <= k < r.len() && #[trigger] r[k].0 == i
}

/// Ranking is transitive.
pub proof fn lemma_ranks_transitive(a: (int, nat), b: (int, nat), c: (int, nat))
    requires
        ranks_before(a, b),
        ranks_before(b, c),
    ensures
        ranks_before(a, c),
{
}

/// Puts a pair in its place in a list ranked best first; its position is
/// later than those of the pairs already there.
fn insert_ranked(v: &mut Vec<(usize, u64)>, i: usize, score: u64)
    requires
        forall|k: int| 0 <= k < old(v)@.len() ==> (#[trigger] old(v)@[k]).0 < i,
        forall|a: int, b: int| 0 <= a < b < old(v)@.len() ==> ranks_before(pair_of(old(v)@[a]), pair_of(old(v)@[b])),
    ensures
        forall|a: int, b: int| 0 <= a < b < final(v)@.len() ==> ranks_before(pair_of(final(v)@[a]), pair_of(final(v)@[b])),
        exists|k: int| 0 <= k < final(v)@.len() && #[trigger] final(v)@[k] == (i, score),
        forall|k: int| 0 <= k < final(v)@.len() ==> #[trigger] final(v)@[k] == (i, score)
            || exists|j: int| 0 <= j < old(v)@.len() && final(v)@[k] == old(v)@[j],
        forall|j: int| 0 <= j < old(v)@.len() ==> final(v)@.contains(#[trigger] old(v)@[j]),
{
    let ghost s0 = v@;
    let mut p: usize = 0;
    while p < v.len() && !(score > v[p].1)
        invariant
            0 <= p <= v@.len(),
            v@ == s0,
            s0 == old(v)@,
            forall|k: int| 0 <= k < s0.len() ==> (#[trigger] s0[k]).0 < i,
            forall|a: int| 0 <= a < p ==> ranks_before(pair_of(v@[a]), pair_of((i, score))),
        decreases v@.len() - p,
    {
        p = p + 1;
    }
    proof {
        if p < s0.len() {
            assert(ranks_before(pair_of((i, score)), pair_of(s0[p as int])));
            assert forall|b: int| p <= b < s0.len() implies ranks_before(pair_of((i, score)), pair_of(s0[b])) by {
                if b > p {
                    lemma_ranks_transitive(pair_of((i, score)), pair_of(s0[p as int]), pair_of(s0[b]));
                }
            }
        }
    }
    v.insert(p, (i, score));
    proof {
        let s1 = v@;
        assert(s1 == s0.insert(p as int, (i, score)));
        assert forall|a: int, b: int| 0 <= a < b < s1.len() implies ranks_before(pair_of(s1[a]), pair_of(s1[b])) by {
            if b < p {
                assert(s1[a] == s0[a] && s1[b] == s0[b]);
            } else if b == p {
                assert(s1[a] == s0[a]);
            } else if a < p {
                assert(s1[a] == s0[a] && s1[b] == s0[b - 1]);
                lemma_ranks_transitive(pair_of(s0[a]), pair_of((i, score)), pair_of(s0[b - 1]));
            } else if a == p {
                assert(s1[b] == s0[b - 1]);
            } else {
                assert(s1[a] == s0[a - 1] && s1[b] == s0[b - 1]);
            }
        }
        assert(s1[p as int] == (i, score));
        assert forall|j: int| 0 <= j < s0.len() implies s1.contains(#[trigger] s0[j]) by {
            if j < p {
                assert(s1[j] == s0[j]);
            } else {
                assert(s1[j + 1] == s0[j]);
            }
        }
        assert forall|k: int| 0 <= k < s1.len() implies #[trigger] s1[k] == (i, score)
            || exists|j: int| 0 <= j < s0.len() && s1[k] == s0[j] by {
            if k < p {
                assert(s1[k] == s0[k]);
            } else if k > p {
                assert(s1[k] == s0[k - 1]);
            }
        }
    }
}

/// An engine over the entries of an index.
pub fn create_search_engine(index: Index) -> (res: SearchEngine)
    ensures
        res.entries_view() == index@,
{
    SearchEngine::new(index)
}

/// Scores add up over the query: the score of a name for two queries one
/// after the other is the sum of its scores for each.
pub proof fn law_name_score_additive(name: Seq<char>, q1: Seq<Seq<char>>, q2: Seq<Seq<char>>)
    ensures
        name_score(name, q1 + q2) == name_score(name, q1) + name_score(name, q2),
    decreases q2.len(),
{
    if q2.len() == 0 {
        assert(q1 + q2 =~= q1);
    } else {
        law_name_score_additive(name, q1, q2.drop_last());
        assert((q1 + q2).drop_last() =~= q1 + q2.drop_last());
        assert((q1 + q2).last() == q2.last());
    }
}

/// The score of a name for one query token: how many of the name's tokens
/// start with it, times how well it matches the lower-cased name; so a
/// query token that starts some token of the name adds at least one half
/// point per such token, and one that starts none adds nothing.
pub proof fn law_name_score_single(name: Seq<char>, t: Seq<char>)
    ensures
        name_score(name, seq![t]) == prefix_count(tokens_of(name), t) * half_score(lowercase(name), t),
        name_score(name, seq![t]) >= prefix_count(tokens_of(name), t),
        prefix_count(tokens_of(name), t) == 0 ==> name_score(name, seq![t]) == 0,
{
    let q = seq![t];
    assert(q.drop_last() =~= Seq::<Seq<char>>::empty());
    assert(q.last() == t);
    assert(name_score(name, q.drop_last()) == 0);
    assert(name_score(name, q) == name_score(name, q.drop_last())
        + prefix_count(tokens_of(name), q.last()) * half_score(lowercase(name), q.last()));
    let c = prefix_count(tokens_of(name), t);
    let h = half_score(lowercase(name), t);
    assert(c * h >= c && (c == 0 ==> c * h == 0)) by (nonlinear_arith)
        requires h >= 1;
}

/// An entry that matches one more query token scores strictly more: adding
/// a token that starts some token of the name raises the score.
pub proof fn law_extra_match_scores_more(name: Seq<char>, q: Seq<Seq<char>>, t: Seq<char>)
    requires
        prefix_count(tokens_of(name), t) > 0,
    ensures
        name_score(name, q.push(t)) > name_score(name, q),
{
    law_name_score_additive(name, q, seq![t]);
    law_name_score_single(name, t);
    assert(q + seq![t] =~= q.push(t));
}

} // verus!
