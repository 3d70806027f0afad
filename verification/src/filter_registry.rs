//! Filters registered by name: factories that make them, instances that are
//! copied, and chains that list filter names in the order they run.

use vstd::prelude::*;
use crate::keyed::{keyed_map, distinct_keyed, put_keyed, get_keyed, lemma_keyed_len};
use crate::name_order::{Cmp, lex_order, lex_chars, lemma_lex_flip, lemma_lex_refl, lemma_lex_equal, lemma_lex_trans};
use crate::text::{copy_str, str_eq, push_str, chars_of};
use crate::url_scraper::views;

verus! {

/// Makes a filter. Implemented by each kind of filter registered; nothing is
/// assumed of what it makes.
pub trait FilterFactory<T> {
    /// A new filter.
    fn create(&self) -> T;
}

/// The filters known by name.
pub struct FilterRegistry<F, T> {
    factories: Vec<(String, F)>,
    instances: Vec<(String, T)>,
    chains: Vec<(String, Vec<String>)>,
}

/// How much a registry holds.
#[derive(Debug, Clone)]
pub struct FilterRegistryStats {
    pub factory_count: usize,
    pub instance_count: usize,
    pub chain_count: usize,
    pub total_filters: usize,
}

/// Each text comes before the next, so none occurs twice.
pub open spec fn strictly_sorted(s: Seq<Seq<char>>) -> bool {
    forall|i: int, j: int| 0 <= i < j < s.len() ==> lex_order(#[trigger] s[i], #[trigger] s[j]) == Cmp::Less
}

/// No text occurs twice.
pub open spec fn all_distinct(s: Seq<Seq<char>>) -> bool {
    forall|i: int, j: int| 0 <= i < j < s.len() ==> s[i] != s[j]
}

/// The message for a filter name that nothing is registered under.
pub open spec fn missing_filter(name: Seq<char>) -> Seq<char> {
    "未找到过滤器: "@ + name
}

/// The message for a chain name that nothing is registered under.
pub open spec fn missing_chain(name: Seq<char>) -> Seq<char> {
    "未找到过滤器链: "@ + name
}

/// Removes the entry for `k`, if there is one.
fn remove_keyed<V>(v: &mut Vec<(String, V)>, k: &str)
    requires
        distinct_keyed(old(v)@),
    ensures
        distinct_keyed(final(v)@),
        keyed_map(final(v)@) == keyed_map(old(v)@).remove(k@),
{
    let ghost s0 = v@;
    let mut j: usize = 0;
    while j < v.len()
        invariant
            0 <= j <= v.len(),
            v@ == s0,
            s0 == old(v)@,
            distinct_keyed(s0),
            forall|i: int| 0 <= i < j ==> v@[i].0@ != k@,
        decreases v.len() - j,
    {
        if str_eq(v[j].0.as_str(), k) {
            v.remove(j);
            proof {
                let s1 = v@;
                assert(s1 =~= s0.remove(j as int));
                assert forall|a: int, b: int| 0 <= a < b < s1.len() implies s1[a].0@ != s1[b].0@ by {
                    let a0 = if a < j { a } else { a + 1 };
                    let b0 = if b < j { b } else { b + 1 };
                    assert(s1[a] == s0[a0] && s1[b] == s0[b0]);
                }
                assert forall|key: Seq<char>| #![auto] keyed_map(s1).dom().contains(key)
                    <==> keyed_map(s0).remove(k@).dom().contains(key) by {
                    if exists|i: int| 0 <= i < s1.len() && s1[i].0@ == key {
                        let i = choose|i: int| 0 <= i < s1.len() && s1[i].0@ == key;
                        let i0 = if i < j { i } else { i + 1 };
                        assert(s1[i] == s0[i0]);
                        if key == k@ {
                            assert(s0[j as int].0@ == k@);
                            if i0 < j { assert(s0[i0].0@ != s0[j as int].0@); } else { assert(s0[j as int].0@ != s0[i0].0@); }
                        }
                    }
                    if exists|i: int| 0 <= i < s0.len() && s0[i].0@ == key && key != k@ {
                        let i = choose|i: int| 0 <= i < s0.len() && s0[i].0@ == key && key != k@;
                        assert(i != j);
                        let i1 = if i < j { i } else { i - 1 };
                        assert(s1[i1] == s0[i]);
                    }
                }
                assert forall|key: Seq<char>| #[trigger] keyed_map(s1).dom().contains(key)
                    implies keyed_map(s1)[key] == keyed_map(s0).remove(k@)[key] by {
                    let i1 = choose|i: int| 0 <= i < s1.len() && s1[i].0@ == key;
                    let i0 = choose|i: int| 0 <= i < s0.len() && s0[i].0@ == key;
                    let m = if i1 < j { i1 } else { i1 + 1 };
                    assert(s1[i1] == s0[m]);
                    if m != i0 {
                        if m < i0 { assert(s0[m].0@ != s0[i0].0@); } else { assert(s0[i0].0@ != s0[m].0@); }
                    }
                }
                assert(keyed_map(s1) =~= keyed_map(s0).remove(k@));
            }
            return;
        }
        j = j + 1;
    }
    proof {
        assert(!keyed_map(s0).dom().contains(k@));
        assert(keyed_map(s0).remove(k@) =~= keyed_map(s0));
    }
}

/// Puts `x` where it belongs in a sorted list that does not hold it.
fn insert_sorted(out: &mut Vec<String>, x: String)
    requires
        strictly_sorted(views(old(out)@)),
        !views(old(out)@).contains(x@),
    ensures
        strictly_sorted(views(final(out)@)),
        views(final(out)@).len() == views(old(out)@).len() + 1,
        forall|t: Seq<char>| views(final(out)@).contains(t) <==> (views(old(out)@).contains(t) || t == x@),
{
    let ghost s0 = views(out@);
    let xv = chars_of(x.as_str());
    let mut p: usize = 0;
    while p < out.len()
        invariant
            0 <= p <= out.len(),
            s0 == views(out@),
            xv@ == x@,
            forall|i: int| 0 <= i < p ==> lex_order(#[trigger] s0[i], x@) == Cmp::Less,
        ensures
            0 <= p <= out.len(),
            forall|i: int| 0 <= i < p ==> lex_order(#[trigger] s0[i], x@) == Cmp::Less,
            p < out.len() ==> lex_order(s0[p as int], x@) != Cmp::Less,
        decreases out.len() - p,
    {
        let cv = chars_of(out[p].as_str());
        if lex_chars(&cv, &xv) != Cmp::Less {
            break;
        }
        p = p + 1;
    }
    out.insert(p, x);
    proof {
        let s1 = views(out@);
        assert(s1 =~= s0.insert(p as int, x@));
        if p < s0.len() {
            assert(s0[p as int] != x@);
            lemma_lex_flip(s0[p as int], x@);
            if lex_order(s0[p as int], x@) == Cmp::Equal {
                lemma_lex_equal(s0[p as int], x@);
            }
            assert(lex_order(x@, s0[p as int]) == Cmp::Less);
        }
        assert forall|i: int, j: int| 0 <= i < j < s1.len() implies lex_order(#[trigger] s1[i], #[trigger] s1[j]) == Cmp::Less by {
            if j < p {
                assert(s1[i] == s0[i] && s1[j] == s0[j]);
            } else if j == p {
                assert(s1[i] == s0[i]);
            } else if i == p {
                assert(s1[j] == s0[j - 1]);
                if j - 1 > p {
                    lemma_lex_trans(x@, s0[p as int], s0[j - 1]);
                }
            } else if i < p {
                assert(s1[i] == s0[i] && s1[j] == s0[j - 1]);
                if j - 1 > p {
                    lemma_lex_trans(x@, s0[p as int], s0[j - 1]);
                }
                lemma_lex_trans(s0[i], x@, s0[j - 1]);
            } else {
                assert(s1[i] == s0[i - 1] && s1[j] == s0[j - 1]);
            }
        }
        assert forall|t: Seq<char>| s1.contains(t) <==> (s0.contains(t) || t == x@) by {
            if s1.contains(t) {
                let i = choose|i: int| 0 <= i < s1.len() && s1[i] == t;
                if i < p { assert(s0[i] == t); } else if i > p { assert(s0[i - 1] == t); }
            }
            if s0.contains(t) {
                let i = choose|i: int| 0 <= i < s0.len() && s0[i] == t;
                if i < p { assert(s1[i] == t); } else { assert(s1[i + 1] == t); }
            }
            if t == x@ {
                assert(s1[p as int] == t);
            }
        }
    }
}

/// The names sorted, each once.
fn sorted_names(names: &Vec<String>) -> (res: Vec<String>)
    ensures
        strictly_sorted(views(res@)),
        forall|t: Seq<char>| views(res@).contains(t) <==> views(names@).contains(t),
{
    let mut out: Vec<String> = Vec::new();
    let mut i: usize = 0;
    while i < names.len()
        invariant
            0 <= i <= names.len(),
            strictly_sorted(views(out@)),
            forall|t: Seq<char>| views(out@).contains(t) <==> views(names@).take(i as int).contains(t),
        decreases names.len() - i,
    {
        let ghost before = views(out@);
        assert(views(names@).take(i + 1) =~= views(names@).take(i as int).push(names@[i as int]@));
        if !contains_name(&out, names[i].as_str()) {
            insert_sorted(&mut out, copy_str(names[i].as_str()));
        }
        proof {
            let t1 = views(names@).take(i + 1);
            let t0 = views(names@).take(i as int);
            assert forall|t: Seq<char>| views(out@).contains(t) <==> t1.contains(t) by {
                if t == names@[i as int]@ {
                    assert(t1[i as int] == t);
                }
                if t1.contains(t) {
                    let k = choose|k: int| 0 <= k < t1.len() && t1[k] == t;
                    if k < i {
                        assert(t0[k] == t);
                    }
                }
                if t0.contains(t) {
                    let k = choose|k: int| 0 <= k < t0.len() && t0[k] == t;
                    assert(t1[k] == t);
                }
            }
        }
        i = i + 1;
    }
    assert(views(names@).take(names@.len() as int) =~= views(names@));
    out
}

/// Whether the list holds `x`.
fn contains_name(v: &Vec<String>, x: &str) -> (r: bool)
    ensures
        r == views(v@).contains(x@),
{
    let mut i: usize = 0;
    while i < v.len()
        invariant
            0 <= i <= v.len(),
            forall|j: int| 0 <= j < i ==> v@[j]@ != x@,
        decreases v.len() - i,
    {
        if str_eq(v[i].as_str(), x) {
            assert(views(v@)[i as int] == x@);
            return true;
        }
        i = i + 1;
    }
    proof {
        if views(v@).contains(x@) {
            let j = choose|j: int| 0 <= j < views(v@).len() && views(v@)[j] == x@;
            assert(v@[j]@ == x@);
        }
    }
    false
}

/// The names of a keyed list.
fn key_names<V>(v: &Vec<(String, V)>) -> (res: Vec<String>)
    ensures
        forall|t: Seq<char>| views(res@).contains(t) <==> keyed_map(v@).contains_key(t),
{
    let mut out: Vec<String> = Vec::new();
    let mut i: usize = 0;
    while i < v.len()
        invariant
            0 <= i <= v.len(),
            out@.len() == i,
            forall|k: int| 0 <= k < i ==> #[trigger] out@[k]@ == v@[k].0@,
        decreases v.len() - i,
    {
        out.push(copy_str(v[i].0.as_str()));
        i = i + 1;
    }
    proof {
        assert forall|t: Seq<char>| views(out@).contains(t) <==> keyed_map(v@).contains_key(t) by {
            if views(out@).contains(t) {
                let k = choose|k: int| 0 <= k < views(out@).len() && views(out@)[k] == t;
                assert(v@[k].0@ == t);
            }
            if keyed_map(v@).contains_key(t) {
                let k = choose|k: int| 0 <= k < v@.len() && v@[k].0@ == t;
                assert(views(out@)[k] == t);
            }
        }
    }
    out
}

impl<F: FilterFactory<T>, T: Clone> FilterRegistry<F, T> {
    /// No name is registered twice in any of the three lists.
    pub closed spec fn wf(&self) -> bool {
        &&& distinct_keyed(self.factories@)
        &&& distinct_keyed(self.instances@)
        &&& distinct_keyed(self.chains@)
    }

    /// The factories, by name.
    pub closed spec fn factories_view(&self) -> Map<Seq<char>, F> {
        keyed_map(self.factories@)
    }

    /// The instances, by name.
    pub closed spec fn instances_view(&self) -> Map<Seq<char>, T> {
        keyed_map(self.instances@)
    }

    /// The chains, by name: the filter names of each.
    pub closed spec fn chains_view(&self) -> Map<Seq<char>, Seq<Seq<char>>> {
        keyed_map(self.chains@).map_values(|v: Vec<String>| views(v@))
    }

    /// A filter is registered under the name, as a factory or an instance.
    pub open spec fn registered(&self, name: Seq<char>) -> bool {
        self.instances_view().contains_key(name) || self.factories_view().contains_key(name)
    }

    /// An empty registry.
    pub fn new() -> (res: Self)
        ensures
            res.wf(),
            res.factories_view() == Map::<Seq<char>, F>::empty(),
            res.instances_view() == Map::<Seq<char>, T>::empty(),
            res.chains_view() == Map::<Seq<char>, Seq<Seq<char>>>::empty(),
    {
        let res = FilterRegistry { factories: Vec::new(), instances: Vec::new(), chains: Vec::new() };
        assert(res.factories_view() =~= Map::<Seq<char>, F>::empty());
        assert(res.instances_view() =~= Map::<Seq<char>, T>::empty());
        assert(res.chains_view() =~= Map::<Seq<char>, Seq<Seq<char>>>::empty());
        res
    }

    /// Registers a factory under a name, in place of any factory there.
    pub fn register(&mut self, name: &str, factory: F) -> (res: Result<(), String>)
        requires
            old(self).wf(),
        ensures
            res is Ok,
            final(self).wf(),
            final(self).factories_view() == old(self).factories_view().insert(name@, factory),
            final(self).instances_view() == old(self).instances_view(),
            final(self).chains_view() == old(self).chains_view(),
    {
        put_keyed(&mut self.factories, copy_str(name), factory);
        Ok(())
    }

    /// Registers an instance under a name, in place of any instance there.
    pub fn register_instance(&mut self, name: &str, filter: T) -> (res: Result<(), String>)
        requires
            old(self).wf(),
        ensures
            res is Ok,
            final(self).wf(),
            final(self).instances_view() == old(self).instances_view().insert(name@, filter),
            final(self).factories_view() == old(self).factories_view(),
            final(self).chains_view() == old(self).chains_view(),
    {
        put_keyed(&mut self.instances, copy_str(name), filter);
        Ok(())
    }

    /// A filter for the name: a copy of the instance registered under it,
    /// else one made by its factory, else the error naming it.
    pub fn create(&self, name: &str) -> (res: Result<T, String>)
        requires
            self.wf(),
        ensures
            self.instances_view().contains_key(name@) ==> (res matches Ok(t)
                && cloned::<T>(self.instances_view()[name@], t)),
            res is Ok <==> self.registered(name@),
            res matches Err(m) ==> m@ == missing_filter(name@),
    {
        match get_keyed(&self.instances, name) {
            Some(t) => {
                return Ok(t.clone());
            },
            None => {},
        }
        match get_keyed(&self.factories, name) {
            Some(f) => Ok(f.create()),
            None => {
                let mut m = "未找到过滤器: ".to_string();
                push_str(&mut m, name);
                Err(m)
            },
        }
    }

    /// Whether a filter is registered under the name.
    pub fn filter_exists(&self, name: &str) -> (r: bool)
        requires
            self.wf(),
        ensures
            r == self.registered(name@),
    {
        get_keyed(&self.factories, name).is_some() || get_keyed(&self.instances, name).is_some()
    }

    /// The names filters are registered under, sorted, each once.
    pub fn list_filters(&self) -> (res: Vec<String>)
        requires
            self.wf(),
        ensures
            strictly_sorted(views(res@)),
            forall|t: Seq<char>| views(res@).contains(t) <==> self.registered(t),
    {
        let mut names = key_names(&self.factories);
        let more = key_names(&self.instances);
        let ghost a = views(names@);
        let mut i: usize = 0;
        while i < more.len()
            invariant
                0 <= i <= more.len(),
                forall|t: Seq<char>| views(names@).contains(t)
                    <==> (a.contains(t) || views(more@).take(i as int).contains(t)),
            decreases more.len() - i,
        {
            let ghost before = views(names@);
            names.push(copy_str(more[i].as_str()));
            proof {
                let now = views(names@);
                let m1 = views(more@).take(i + 1);
                let m0 = views(more@).take(i as int);
                let x = more@[i as int]@;
                assert(now =~= before.push(x));
                assert forall|t: Seq<char>| now.contains(t) <==> (a.contains(t) || m1.contains(t)) by {
                    assert(before.contains(t) <==> (a.contains(t) || m0.contains(t)));
                    if now.contains(t) && t != x {
                        let k = choose|k: int| 0 <= k < now.len() && now[k] == t;
                        assert(before[k] == t);
                    }
                    if before.contains(t) {
                        let k = choose|k: int| 0 <= k < before.len() && before[k] == t;
                        assert(now[k] == t);
                    }
                    if t == x {
                        assert(now[before.len() as int] == t);
                        assert(m1[i as int] == t);
                    }
                    if m1.contains(t) && t != x {
                        let k = choose|k: int| 0 <= k < m1.len() && m1[k] == t;
                        assert(m0[k] == t);
                    }
                    if m0.contains(t) {
                        let k = choose|k: int| 0 <= k < m0.len() && m0[k] == t;
                        assert(m1[k] == t);
                    }
                }
            }
            i = i + 1;
        }
        assert(views(more@).take(more@.len() as int) =~= views(more@));
        let res = sorted_names(&names);
        assert forall|t: Seq<char>| views(res@).contains(t) <==> self.registered(t) by {
            assert(views(names@).contains(t) <==> (a.contains(t) || views(more@).contains(t)));
        }
        res
    }

    /// Registers a chain of filter names under a name, in place of any
    /// chain there.
    pub fn register_chain(&mut self, name: &str, filter_names: Vec<String>) -> (res: Result<(), String>)
        requires
            old(self).wf(),
        ensures
            res is Ok,
            final(self).wf(),
            final(self).chains_view() == old(self).chains_view().insert(name@, views(filter_names@)),
            final(self).factories_view() == old(self).factories_view(),
            final(self).instances_view() == old(self).instances_view(),
    {
        let ghost fv = views(filter_names@);
        let ghost old_chains = keyed_map(self.chains@);
        put_keyed(&mut self.chains, copy_str(name), filter_names);
        proof {
            assert(self.chains_view() =~= old(self).chains_view().insert(name@, fv));
        }
        Ok(())
    }

    /// The filters of the chain registered under the name, in its order;
    /// the error for the chain, or for its first filter name that nothing
    /// is registered under.
    pub fn create_chain(&self, name: &str) -> (res: Result<Vec<T>, String>)
        requires
            self.wf(),
        ensures
            !self.chains_view().contains_key(name@) ==> (res matches Err(m) && m@ == missing_chain(name@)),
            self.chains_view().contains_key(name@) ==> ({
                let names = self.chains_view()[name@];
                &&& res is Ok <==> forall|k: int| 0 <= k < names.len() ==> self.registered(#[trigger] names[k])
                &&& res matches Ok(v) ==> v@.len() == names.len()
                    && forall|k: int| 0 <= k < names.len() && self.instances_view().contains_key(#[trigger] names[k])
                        ==> cloned::<T>(self.instances_view()[names[k]], v@[k])
                &&& res matches Err(m) ==> exists|k: int| 0 <= k < names.len() && !self.registered(#[trigger] names[k])
                    && m@ == missing_filter(names[k])
                    && forall|j: int| 0 <= j < k ==> self.registered(#[trigger] names[j])
            }),
    {
        let names = match get_keyed(&self.chains, name) {
            Some(n) => n,
            None => {
                assert(self.chains_view().dom() =~= keyed_map(self.chains@).dom());
                let mut m = "未找到过滤器链: ".to_string();
                push_str(&mut m, name);
                return Err(m);
            },
        };
        let ghost nv = views(names@);
        assert(self.chains_view().dom() =~= keyed_map(self.chains@).dom());
        assert(self.chains_view()[name@] == nv);
        let mut out: Vec<T> = Vec::new();
        let mut i: usize = 0;
        while i < names.len()
            invariant
                0 <= i <= names.len(),
                self.wf(),
                nv == views(names@),
                self.chains_view().contains_key(name@),
                self.chains_view()[name@] == nv,
                out@.len() == i,
                forall|j: int| 0 <= j < i ==> self.registered(#[trigger] nv[j]),
                forall|j: int| 0 <= j < i && self.instances_view().contains_key(#[trigger] nv[j])
                    ==> cloned::<T>(self.instances_view()[nv[j]], out@[j]),
            decreases names.len() - i,
        {
            match self.create(names[i].as_str()) {
                Ok(t) => {
                    out.push(t);
                },
                Err(m) => {
                    assert(!self.registered(nv[i as int]));
                    return Err(m);
                },
            }
            i = i + 1;
        }
        Ok(out)
    }

    /// The names chains are registered under, sorted.
    pub fn list_chains(&self) -> (res: Vec<String>)
        requires
            self.wf(),
        ensures
            strictly_sorted(views(res@)),
            forall|t: Seq<char>| views(res@).contains(t) <==> self.chains_view().contains_key(t),
    {
        let names = key_names(&self.chains);
        sorted_names(&names)
    }

    /// Removes the factory and the instance registered under the name.
    pub fn unregister(&mut self, name: &str) -> (res: Result<(), String>)
        requires
            old(self).wf(),
        ensures
            res is Ok,
            final(self).wf(),
            final(self).factories_view() == old(self).factories_view().remove(name@),
            final(self).instances_view() == old(self).instances_view().remove(name@),
            final(self).chains_view() == old(self).chains_view(),
    {
        remove_keyed(&mut self.factories, name);
        remove_keyed(&mut self.instances, name);
        Ok(())
    }

    /// Removes the chain registered under the name.
    pub fn unregister_chain(&mut self, name: &str) -> (res: Result<(), String>)
        requires
            old(self).wf(),
        ensures
            res is Ok,
            final(self).wf(),
            final(self).chains_view() == old(self).chains_view().remove(name@),
            final(self).factories_view() == old(self).factories_view(),
            final(self).instances_view() == old(self).instances_view(),
    {
        remove_keyed(&mut self.chains, name);
        proof {
            assert(self.chains_view() =~= old(self).chains_view().remove(name@));
        }
        Ok(())
    }

    /// Removes everything registered.
    pub fn clear(&mut self) -> (res: Result<(), String>)
        ensures
            res is Ok,
            final(self).wf(),
            final(self).factories_view() == Map::<Seq<char>, F>::empty(),
            final(self).instances_view() == Map::<Seq<char>, T>::empty(),
            final(self).chains_view() == Map::<Seq<char>, Seq<Seq<char>>>::empty(),
    {
        self.factories.clear();
        self.instances.clear();
        self.chains.clear();
        assert(self.factories_view() =~= Map::<Seq<char>, F>::empty());
        assert(self.instances_view() =~= Map::<Seq<char>, T>::empty());
        assert(self.chains_view() =~= Map::<Seq<char>, Seq<Seq<char>>>::empty());
        Ok(())
    }

    /// How many factories, instances and chains are registered; the total
    /// counts factories and instances.
    pub fn stats(&self) -> (res: FilterRegistryStats)
        requires
            self.wf(),
            self.factories_view().dom().len() + self.instances_view().dom().len() <= usize::MAX,
        ensures
            res.factory_count == self.factories_view().dom().len(),
            res.instance_count == self.instances_view().dom().len(),
            res.chain_count == self.chains_view().dom().len(),
            res.total_filters == res.factory_count + res.instance_count,
    {
        proof {
            lemma_keyed_len(self.factories@);
            lemma_keyed_len(self.instances@);
            lemma_keyed_len(self.chains@);
            assert(self.chains_view().dom() =~= keyed_map(self.chains@).dom());
        }
        let factory_count = self.factories.len();
        let instance_count = self.instances.len();
        FilterRegistryStats {
            factory_count,
            instance_count,
            chain_count: self.chains.len(),
            total_filters: factory_count + instance_count,
        }
    }
}

/// After a filter is registered under a name, a filter is found under that
/// name, and every other name is found exactly when it was before.
pub proof fn lemma_registered_after_register<F: FilterFactory<T>, T: Clone>(
    before: FilterRegistry<F, T>,
    after: FilterRegistry<F, T>,
    name: Seq<char>,
    factory: F,
)
    requires
        after.factories_view() == before.factories_view().insert(name, factory),
        after.instances_view() == before.instances_view(),
    ensures
        after.registered(name),
        forall|other: Seq<char>| other != name ==> after.registered(other) == before.registered(other),
{
}

/// After a name is unregistered, no filter is found under it, and every
/// other name is found exactly when it was before.
pub proof fn lemma_unregistered_after_unregister<F: FilterFactory<T>, T: Clone>(
    before: FilterRegistry<F, T>,
    after: FilterRegistry<F, T>,
    name: Seq<char>,
)
    requires
        after.factories_view() == before.factories_view().remove(name),
        after.instances_view() == before.instances_view().remove(name),
    ensures
        !after.registered(name),
        forall|other: Seq<char>| other != name ==> after.registered(other) == before.registered(other),
{
}

} // verus!
