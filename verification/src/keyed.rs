//! Values kept by string key in a vector, with no key twice.

use vstd::prelude::*;
use crate::text::str_eq;

verus! {

/// The map a list of keyed values with distinct keys stands for.
pub open spec fn keyed_map<V>(s: Seq<(String, V)>) -> Map<Seq<char>, V> {
    Map::new(
        |k: Seq<char>| exists|i: int| 0 <= i < s.len() && s[i].0@ == k,
        |k: Seq<char>| s[choose|i: int| 0 <= i < s.len() && s[i].0@ == k].1,
    )
}

/// No key occurs twice.
pub open spec fn distinct_keyed<V>(s: Seq<(String, V)>) -> bool {
    forall|i: int, j: int| 0 <= i < j < s.len() ==> s[i].0@ != s[j].0@
}

/// Inserts or replaces the value for `k`, keeping keys distinct.
pub fn put_keyed<V>(v: &mut Vec<(String, V)>, k: String, c: V)
    requires
        distinct_keyed(old(v)@),
    ensures
        distinct_keyed(final(v)@),
        keyed_map(final(v)@) == keyed_map(old(v)@).insert(k@, c),
{
    let ghost s0 = v@;
    let ghost kv = k@;
    let ghost cv = c;
    let mut j: usize = 0;
    while j < v.len()
        invariant
            0 <= j <= v.len(),
            v@ == s0,
            s0 == old(v)@,
            kv == k@,
            cv == c,
            distinct_keyed(s0),
            forall|i: int| 0 <= i < j ==> v@[i].0@ != k@,
        decreases v.len() - j,
    {
        if str_eq(v[j].0.as_str(), k.as_str()) {
            assert(s0[j as int].0@ == kv);
            v.set(j, (k, c));
            proof {
                let s1 = v@;
                assert forall|a: int, b: int| 0 <= a < b < s1.len() implies s1[a].0@ != s1[b].0@ by {
                    if a != j && b != j {
                        assert(s1[a] == s0[a] && s1[b] == s0[b]);
                    } else if a == j {
                        assert(s1[b] == s0[b]);
                    } else {
                        assert(s1[a] == s0[a]);
                    }
                }
                assert forall|key: Seq<char>| #![auto] keyed_map(s1).dom().contains(key) <==> keyed_map(s0).insert(kv, cv).dom().contains(key) by {
                    if exists|i: int| 0 <= i < s0.len() && s0[i].0@ == key {
                        let i = choose|i: int| 0 <= i < s0.len() && s0[i].0@ == key;
                        if i != j { assert(s1[i] == s0[i]); } else { assert(s1[j as int].0@ == kv); }
                    }
                    if exists|i: int| 0 <= i < s1.len() && s1[i].0@ == key {
                        let i = choose|i: int| 0 <= i < s1.len() && s1[i].0@ == key;
                        if i != j { assert(s1[i] == s0[i]); }
                    }
                }
                assert forall|key: Seq<char>| #[trigger] keyed_map(s1).dom().contains(key) implies keyed_map(s1)[key] == keyed_map(s0).insert(kv, cv)[key] by {
                    let i1 = choose|i: int| 0 <= i < s1.len() && s1[i].0@ == key;
                    if key == kv {
                        assert(i1 == j);
                    } else {
                        let i0 = choose|i: int| 0 <= i < s0.len() && s0[i].0@ == key;
                        assert(s1[i1] == s0[i1]);
                        assert(i1 == i0);
                    }
                }
                assert(keyed_map(s1) =~= keyed_map(s0).insert(kv, cv));
            }
            return;
        }
        j = j + 1;
    }
    v.push((k, c));
    proof {
        let s1 = v@;
        assert(s1 == s0.push((k, c)));
        assert forall|key: Seq<char>| #![auto] keyed_map(s1).dom().contains(key) <==> keyed_map(s0).insert(kv, cv).dom().contains(key) by {
            if exists|i: int| 0 <= i < s0.len() && s0[i].0@ == key {
                let i = choose|i: int| 0 <= i < s0.len() && s0[i].0@ == key;
                assert(s1[i] == s0[i]);
            }
            if key == kv {
                assert(s1[s0.len() as int].0@ == kv);
            }
        }
        assert forall|key: Seq<char>| #[trigger] keyed_map(s1).dom().contains(key) implies keyed_map(s1)[key] == keyed_map(s0).insert(kv, cv)[key] by {
            let i1 = choose|i: int| 0 <= i < s1.len() && s1[i].0@ == key;
            if key == kv {
                assert(i1 == s0.len());
            } else {
                let i0 = choose|i: int| 0 <= i < s0.len() && s0[i].0@ == key;
                assert(s1[i0] == s0[i0]);
                assert(i1 == i0);
            }
        }
        assert(keyed_map(s1) =~= keyed_map(s0).insert(kv, cv));
    }
}


/// The value stored under `k`.
pub fn get_keyed<'a, V>(v: &'a Vec<(String, V)>, k: &str) -> (res: Option<&'a V>)
    requires
        distinct_keyed(v@),
    ensures
        match res {
            Some(x) => keyed_map(v@).contains_key(k@) && *x == keyed_map(v@)[k@],
            None => !keyed_map(v@).contains_key(k@),
        },
{
    let mut j: usize = 0;
    while j < v.len()
        invariant
            0 <= j <= v.len(),
            distinct_keyed(v@),
            forall|i: int| 0 <= i < j ==> v@[i].0@ != k@,
        decreases v.len() - j,
    {
        if str_eq(v[j].0.as_str(), k) {
            proof {
                assert(v@[j as int].0@ == k@);
                let i = choose|i: int| 0 <= i < v@.len() && v@[i].0@ == k@;
                if i != j {
                    if i < j {
                        assert(v@[i].0@ != v@[j as int].0@);
                    } else {
                        assert(v@[j as int].0@ != v@[i].0@);
                    }
                }
            }
            return Some(&v[j].1);
        }
        j = j + 1;
    }
    None
}

/// A list with distinct keys has as many entries as its map has keys.
pub proof fn lemma_keyed_len<V>(s: Seq<(String, V)>)
    requires
        distinct_keyed(s),
    ensures
        keyed_map(s).dom().finite(),
        keyed_map(s).dom().len() == s.len(),
    decreases s.len(),
{
    if s.len() == 0 {
        assert(keyed_map(s).dom() =~= Set::<Seq<char>>::empty());
    } else {
        let t = s.drop_last();
        assert(distinct_keyed(t));
        lemma_keyed_len(t);
        let k = s.last().0@;
        assert(keyed_map(s).dom() =~= keyed_map(t).dom().insert(k)) by {
            assert forall|key: Seq<char>| keyed_map(s).dom().contains(key) implies keyed_map(t).dom().insert(k).contains(key) by {
                let i = choose|i: int| 0 <= i < s.len() && s[i].0@ == key;
                if i < t.len() { assert(t[i] == s[i]); }
            }
            assert forall|key: Seq<char>| keyed_map(t).dom().contains(key) implies keyed_map(s).dom().contains(key) by {
                let i = choose|i: int| 0 <= i < t.len() && t[i].0@ == key;
                assert(t[i] == s[i]);
            }
            assert(s[s.len() - 1].0@ == k);
        }
        assert(!keyed_map(t).dom().contains(k)) by {
            if keyed_map(t).dom().contains(k) {
                let i = choose|i: int| 0 <= i < t.len() && t[i].0@ == k;
                assert(s[i].0@ == s[s.len() - 1].0@);
            }
        }
    }
}

} // verus!
