//! The pages of a documentation set, by path.

use vstd::prelude::*;
use crate::text::str_eq;

verus! {

/// The map a list of (path, content) pairs with distinct paths stands for.
pub open spec fn pairs_map(s: Seq<(String, String)>) -> Map<Seq<char>, Seq<char>> {
    Map::new(
        |k: Seq<char>| exists|i: int| 0 <= i < s.len() && s[i].0@ == k,
        |k: Seq<char>| s[choose|i: int| 0 <= i < s.len() && s[i].0@ == k].1@,
    )
}

/// No path occurs twice.
pub open spec fn distinct_keys(s: Seq<(String, String)>) -> bool {
    forall|i: int, j: int| 0 <= i < j < s.len() ==> s[i].0@ != s[j].0@
}

/// Inserts or replaces the pair for `k`, keeping paths distinct.
pub fn put_pair(v: &mut Vec<(String, String)>, k: String, c: String)
    requires
        distinct_keys(old(v)@),
    ensures
        distinct_keys(final(v)@),
        pairs_map(final(v)@) == pairs_map(old(v)@).insert(k@, c@),
{
    let ghost s0 = v@;
    let ghost kv = k@;
    let ghost cv = c@;
    let mut j: usize = 0;
    while j < v.len()
        invariant
            0 <= j <= v.len(),
            v@ == s0,
            s0 == old(v)@,
            kv == k@,
            cv == c@,
            distinct_keys(s0),
            forall|i: int| 0 <= i < j ==> v@[i].0@ != k@,
        decreases v.len() - j,
    {
        if str_eq(v[j].0.as_str(), k.as_str()) {
            assert(s0[j as int].0@ == kv);
            v.set(j, (k, c));
            proof {
                let s1 = v@;
                assert forall|a: int, b: int| 0 <= a < b < s1.len() implies s1[a].0@ != s1[b].0@ by {
                    if a != j && b != j {
                        assert(s1[a] == s0[a] && s1[b] == s0[b]);
                    } else if a == j {
                        assert(s1[b] == s0[b]);
                    } else {
                        assert(s1[a] == s0[a]);
                    }
                }
                assert forall|key: Seq<char>| #![auto] pairs_map(s1).dom().contains(key) <==> pairs_map(s0).insert(kv, cv).dom().contains(key) by {
                    if exists|i: int| 0 <= i < s0.len() && s0[i].0@ == key {
                        let i = choose|i: int| 0 <= i < s0.len() && s0[i].0@ == key;
                        if i != j { assert(s1[i] == s0[i]); } else { assert(s1[j as int].0@ == kv); }
                    }
                    if exists|i: int| 0 <= i < s1.len() && s1[i].0@ == key {
                        let i = choose|i: int| 0 <= i < s1.len() && s1[i].0@ == key;
                        if i != j { assert(s1[i] == s0[i]); }
                    }
                }
                assert forall|key: Seq<char>| #[trigger] pairs_map(s1).dom().contains(key) implies pairs_map(s1)[key] == pairs_map(s0).insert(kv, cv)[key] by {
                    let i1 = choose|i: int| 0 <= i < s1.len() && s1[i].0@ == key;
                    if key == kv {
                        assert(i1 == j);
                    } else {
                        let i0 = choose|i: int| 0 <= i < s0.len() && s0[i].0@ == key;
                        assert(s1[i1] == s0[i1]);
                        assert(i1 == i0);
                    }
                }
                assert(pairs_map(s1) =~= pairs_map(s0).insert(kv, cv));
            }
            return;
        }
        j = j + 1;
    }
    v.push((k, c));
    proof {
        let s1 = v@;
        assert(s1 == s0.push((k, c)));
        assert forall|key: Seq<char>| #![auto] pairs_map(s1).dom().contains(key) <==> pairs_map(s0).insert(kv, cv).dom().contains(key) by {
            if exists|i: int| 0 <= i < s0.len() && s0[i].0@ == key {
                let i = choose|i: int| 0 <= i < s0.len() && s0[i].0@ == key;
                assert(s1[i] == s0[i]);
            }
            if key == kv {
                assert(s1[s0.len() as int].0@ == kv);
            }
        }
        assert forall|key: Seq<char>| #[trigger] pairs_map(s1).dom().contains(key) implies pairs_map(s1)[key] == pairs_map(s0).insert(kv, cv)[key] by {
            let i1 = choose|i: int| 0 <= i < s1.len() && s1[i].0@ == key;
            if key == kv {
                assert(i1 == s0.len());
            } else {
                let i0 = choose|i: int| 0 <= i < s0.len() && s0[i].0@ == key;
                assert(s1[i0] == s0[i0]);
                assert(i1 == i0);
            }
        }
        assert(pairs_map(s1) =~= pairs_map(s0).insert(kv, cv));
    }
}

/// The pages of a documentation set: content by path.
#[derive(Debug, Clone)]
pub struct PageDb {
    pages: Vec<(String, String)>,
}

impl View for PageDb {
    type V = Map<Seq<char>, Seq<char>>;

    closed spec fn view(&self) -> Map<Seq<char>, Seq<char>> {
        pairs_map(self.pages@)
    }
}

impl PageDb {
    /// Paths are distinct.
    pub closed spec fn wf(&self) -> bool {
        distinct_keys(self.pages@)
    }

    /// No pages.
    pub fn new() -> (res: Self)
        ensures
            res.wf(),
            res@ == Map::<Seq<char>, Seq<char>>::empty(),
    {
        let res = PageDb { pages: Vec::new() };
        assert(res@ =~= Map::<Seq<char>, Seq<char>>::empty());
        res
    }

    /// Stores `content` as the page at `path`, replacing any earlier one.
    pub fn add(&mut self, path: String, content: String)
        requires
            old(self).wf(),
        ensures
            final(self).wf(),
            final(self)@ == old(self)@.insert(path@, content@),
            final(self)@.dom().finite(),
    {
        put_pair(&mut self.pages, path, content);
        proof { lemma_pairs_map_len(self.pages@); }
    }

    /// No pages.
    pub fn empty(&self) -> (r: bool)
        requires
            self.wf(),
        ensures
            r == (self@.dom().len() == 0),
            self@.dom().finite(),
    {
        proof { lemma_pairs_map_len(self.pages@); }
        self.pages.len() == 0
    }

    /// No pages.
    pub fn blank(&self) -> (r: bool)
        requires
            self.wf(),
        ensures
            r == (self@.dom().len() == 0),
    {
        self.empty()
    }

    /// The content of the page at `path`.
    pub fn get(&self, path: &str) -> (res: Option<&String>)
        requires
            self.wf(),
        ensures
            match res {
                Some(c) => self@.contains_key(path@) && c@ == self@[path@],
                None => !self@.contains_key(path@),
            },
    {
        let mut j: usize = 0;
        while j < self.pages.len()
            invariant
                0 <= j <= self.pages.len(),
                distinct_keys(self.pages@),
                forall|i: int| 0 <= i < j ==> self.pages@[i].0@ != path@,
            decreases self.pages.len() - j,
        {
            if str_eq(self.pages[j].0.as_str(), path) {
                proof {
                    let s = self.pages@;
                    assert(s[j as int].0@ == path@);
                    let i = choose|i: int| 0 <= i < s.len() && s[i].0@ == path@;
                    if i != j {
                        if i < j {
                            assert(s[i].0@ != s[j as int].0@);
                        } else {
                            assert(s[j as int].0@ != s[i].0@);
                        }
                    }
                }
                return Some(&self.pages[j].1);
            }
            j = j + 1;
        }
        None
    }

    /// The number of pages.
    pub fn len(&self) -> (r: usize)
        requires
            self.wf(),
        ensures
            r == self@.dom().len(),
            self@.dom().finite(),
    {
        proof { lemma_pairs_map_len(self.pages@); }
        self.pages.len()
    }

    /// The pages as (path, content) pairs, each path once.
    pub fn as_json(&self) -> (res: &Vec<(String, String)>)
        requires
            self.wf(),
        ensures
            distinct_keys(res@),
            pairs_map(res@) == self@,
    {
        &self.pages
    }
}

/// A list with distinct keys has as many pairs as its map has keys.
pub proof fn lemma_pairs_map_len(s: Seq<(String, String)>)
    requires
        distinct_keys(s),
    ensures
        pairs_map(s).dom().finite(),
        pairs_map(s).dom().len() == s.len(),
    decreases s.len(),
{
    if s.len() == 0 {
        assert(pairs_map(s).dom() =~= Set::<Seq<char>>::empty());
    } else {
        let t = s.drop_last();
        assert(distinct_keys(t));
        lemma_pairs_map_len(t);
        let k = s.last().0@;
        assert(pairs_map(s).dom() =~= pairs_map(t).dom().insert(k)) by {
            assert forall|key: Seq<char>| pairs_map(s).dom().contains(key) implies pairs_map(t).dom().insert(k).contains(key) by {
                let i = choose|i: int| 0 <= i < s.len() && s[i].0@ == key;
                if i < t.len() { assert(t[i] == s[i]); }
            }
            assert forall|key: Seq<char>| pairs_map(t).dom().contains(key) implies pairs_map(s).dom().contains(key) by {
                let i = choose|i: int| 0 <= i < t.len() && t[i].0@ == key;
                assert(t[i] == s[i]);
            }
            assert(s[s.len() - 1].0@ == k);
        }
        assert(!pairs_map(t).dom().contains(k)) by {
            if pairs_map(t).dom().contains(k) {
                let i = choose|i: int| 0 <= i < t.len() && t[i].0@ == k;
                assert(s[i].0@ == s[s.len() - 1].0@);
            }
        }
    }
}

impl Default for PageDb {
    fn default() -> (res: Self)
        ensures
            res.wf(),
            res@ == Map::<Seq<char>, Seq<char>>::empty(),
    {
        Self::new()
    }
}

/// A page read back after it was added: `get` finds, under the path added,
/// the content added, and under every other path what it found before.
pub proof fn lemma_get_after_add(before: PageDb, after: PageDb, path: Seq<char>, content: Seq<char>)
    requires
        after@ == before@.insert(path, content),
    ensures
        after@.contains_key(path),
        after@[path] == content,
        forall|p: Seq<char>| p != path ==> (#[trigger] after@.contains_key(p) <==> before@.contains_key(p)),
        forall|p: Seq<char>| p != path && before@.contains_key(p) ==> #[trigger] after@[p] == before@[p],
{
}

} // verus!
