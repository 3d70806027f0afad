//! The index of a documentation set: its entries, without duplicates, and
//! the number of entries of each type.

use vstd::prelude::*;
use crate::models::entry::{Entry, EntryJson, EntryView, view_is_root, json_view};
use crate::models::type_model::{Type, TypeJson, type_slug};
use crate::name_order::{Cmp, ComparablePart, name_order, is_permutation, sorted_by_name,
    parts_view, comparable_parts, order_names, sort_positions, comparable};
use crate::text::{split_on, chars_of, split_chars, vviews, string_from_chars};

verus! {

/// How many entries have type `t`.
pub open spec fn count_type(es: Seq<EntryView>, t: Seq<char>) -> nat
    decreases es.len(),
{
    if es.len() == 0 {
        0
    } else {
        count_type(es.drop_last(), t) + if es.last().entry_type == Some(t) { 1nat } else { 0nat }
    }
}

/// The abstract value of an index: its entries in the order they were added,
/// and each type with its count, in the order the types first appeared.
pub struct EntryIndexView {
    pub entries: Seq<EntryView>,
    pub types: Seq<(Seq<char>, nat)>,
}

/// The position of the type named `t`, or `-1`.
pub open spec fn type_position(types: Seq<(Seq<char>, nat)>, t: Seq<char>) -> int {
    if exists|j: int| 0 <= j < types.len() && types[j].0 == t {
        choose|j: int| 0 <= j < types.len() && types[j].0 == t
    } else {
        -1
    }
}

/// The type table after one more entry of type `t`.
pub open spec fn bump_type(types: Seq<(Seq<char>, nat)>, t: Seq<char>) -> Seq<(Seq<char>, nat)> {
    let j = type_position(types, t);
    if j >= 0 {
        types.update(j, (t, types[j].1 + 1))
    } else {
        types.push((t, 1nat))
    }
}

/// What `add` makes of an index.
pub open spec fn added(v: EntryIndexView, e: EntryView) -> EntryIndexView {
    if view_is_root(e) || v.entries.contains(e) {
        v
    } else {
        EntryIndexView {
            entries: v.entries.push(e),
            types: match e.entry_type {
                Some(t) => bump_type(v.types, t),
                None => v.types,
            },
        }
    }
}

/// Adding keeps every entry that differs from all present ones in name,
/// path or type: a non-root entry not already present is appended, so the
/// number of entries grows by one; the root entry and one already present
/// leave the index as it is.
pub proof fn law_add_keeps_distinct_entries(v: EntryIndexView, e: EntryView)
    ensures
        !view_is_root(e) && !v.entries.contains(e) ==> added(v, e).entries == v.entries.push(e)
            && added(v, e).entries.len() == v.entries.len() + 1,
        view_is_root(e) || v.entries.contains(e) ==> added(v, e) == v,
{
}

/// The invariant of an index: no entry twice, no root entry, each type once,
/// and each type's count is the number of its entries, which is never zero;
/// every entry's type is listed.
pub open spec fn index_wf(v: EntryIndexView) -> bool {
    &&& forall|i: int, j: int| 0 <= i < j < v.entries.len() ==> v.entries[i] != v.entries[j]
    &&& forall|i: int| 0 <= i < v.entries.len() ==> !view_is_root(#[trigger] v.entries[i])
    &&& forall|i: int, j: int| 0 <= i < j < v.types.len() ==> v.types[i].0 != v.types[j].0
    &&& forall|j: int| 0 <= j < v.types.len() ==> (#[trigger] v.types[j]).1 == count_type(v.entries, v.types[j].0)
        && v.types[j].1 > 0
    &&& forall|i: int| 0 <= i < v.entries.len() && (#[trigger] v.entries[i]).entry_type is Some ==>
        exists|j: int| 0 <= j < v.types.len() && v.types[j].0 == v.entries[i].entry_type->0
}

/// The key an entry is listed by: its name, or the empty string.
pub open spec fn name_key(e: EntryView) -> Seq<char> {
    match e.name {
        Some(n) => n,
        None => Seq::<char>::empty(),
    }
}

/// The serialised index.
#[derive(Debug, Clone)]
pub struct IndexJson {
    pub entries: Vec<EntryJson>,
    pub types: Vec<TypeJson>,
}

/// The index of a documentation set.
#[derive(Debug, Clone)]
pub struct EntryIndex {
    entries: Vec<Entry>,
    types: Vec<Type>,
}

impl View for EntryIndex {
    type V = EntryIndexView;

    closed spec fn view(&self) -> EntryIndexView {
        EntryIndexView {
            entries: self.entries@.map_values(|e: Entry| e@),
            types: self.types@.map_values(|t: Type| (t.name@, t.count as nat)),
        }
    }
}

/// Adding an entry a second time changes nothing: the index holds each
/// entry once.
pub proof fn lemma_add_idempotent(v: EntryIndexView, e: EntryView)
    ensures
        added(added(v, e), e) == added(v, e),
{
    if !(view_is_root(e) || v.entries.contains(e)) {
        assert(added(v, e).entries[v.entries.len() as int] == e);
        assert(added(v, e).entries.contains(e));
    }
}

proof fn lemma_count_le_len(es: Seq<EntryView>, t: Seq<char>)
    ensures
        count_type(es, t) <= es.len(),
    decreases es.len(),
{
    if es.len() > 0 {
        lemma_count_le_len(es.drop_last(), t);
    }
}

proof fn lemma_count_push(es: Seq<EntryView>, e: EntryView, t: Seq<char>)
    ensures
        count_type(es.push(e), t) == count_type(es, t) + if e.entry_type == Some(t) { 1nat } else { 0nat },
{
    assert(es.push(e).drop_last() =~= es);
}

proof fn lemma_count_zero_without(es: Seq<EntryView>, t: Seq<char>)
    requires
        forall|i: int| 0 <= i < es.len() ==> es[i].entry_type != Some(t),
    ensures
        count_type(es, t) == 0,
    decreases es.len(),
{
    if es.len() > 0 {
        assert(es.last() == es[es.len() - 1]);
        lemma_count_zero_without(es.drop_last(), t);
    }
}

impl EntryIndex {
    /// The invariant holds.
    pub open spec fn wf(&self) -> bool {
        index_wf(self@)
    }

    /// The value of an empty index.
    pub open spec fn new_view() -> EntryIndexView {
        EntryIndexView { entries: Seq::<EntryView>::empty(), types: Seq::<(Seq<char>, nat)>::empty() }
    }

    /// An empty index.
    pub fn new() -> (res: Self)
        ensures
            res.wf(),
            res@ == Self::new_view(),
    {
        let res = EntryIndex { entries: Vec::new(), types: Vec::new() };
        assert(res@.entries =~= Seq::<EntryView>::empty());
        assert(res@.types =~= Seq::<(Seq<char>, nat)>::empty());
        res
    }

    fn contains_entry(&self, entry: &Entry) -> (r: bool)
        ensures
            r == self@.entries.contains(entry@),
    {
        let mut i: usize = 0;
        while i < self.entries.len()
            invariant
                0 <= i <= self.entries.len(),
                forall|k: int| 0 <= k < i ==> self.entries@[k]@ != entry@,
            decreases self.entries.len() - i,
        {
            if self.entries[i].same_as(entry) {
                assert(self@.entries[i as int] == entry@);
                return true;
            }
            i = i + 1;
        }
        assert forall|k: int| 0 <= k < self@.entries.len() implies self@.entries[k] != entry@ by {
            assert(self@.entries[k] == self.entries@[k]@);
        }
        false
    }

    fn find_type(&self, t: &String) -> (r: Option<usize>)
        ensures
            match r {
                Some(j) => j < self@.types.len() && self@.types[j as int].0 == t@,
                None => forall|j: int| 0 <= j < self@.types.len() ==> self@.types[j].0 != t@,
            },
    {
        let mut j: usize = 0;
        while j < self.types.len()
            invariant
                0 <= j <= self.types.len(),
                forall|k: int| 0 <= k < j ==> self.types@[k].name@ != t@,
            decreases self.types.len() - j,
        {
            if crate::text::str_eq(self.types[j].name.as_str(), t.as_str()) {
                return Some(j);
            }
            j = j + 1;
        }
        None
    }

    /// Adds an entry. The root entry and an entry already present are ignored;
    /// otherwise the entry is appended and its type counted.
    pub fn add(&mut self, entry: Entry)
        requires
            old(self).wf(),
        ensures
            final(self).wf(),
            final(self)@ == added(old(self)@, entry@),
            !view_is_root(entry@) && !old(self)@.entries.contains(entry@)
                ==> final(self)@.entries == old(self)@.entries.push(entry@),
            view_is_root(entry@) || old(self)@.entries.contains(entry@) ==> final(self)@ == old(self)@,
    {
        proof { law_add_keeps_distinct_entries(old(self)@, entry@); }
        let ghost v0 = self@;
        if entry.is_root() {
            return;
        }
        if self.contains_entry(&entry) {
            return;
        }
        let ghost e = entry@;
        let ty = match entry.entry_type() {
            Some(t) => Some(t.clone()),
            None => None,
        };
        self.entries.push(entry);
        assert(self@.entries =~= v0.entries.push(e));
        proof {
            assert forall|t: Seq<char>| true implies count_type(self@.entries, t) == count_type(v0.entries, t) + if e.entry_type == Some(t) { 1nat } else { 0nat } by {
                lemma_count_push(v0.entries, e, t);
            }
        }
        match ty {
            None => {
                assert(self@.types =~= v0.types);
            },
            Some(t) => {
                match self.find_type(&t) {
                    Some(j) => {
                        let c = self.types[j].count;
                        let total = self.entries.len();
                        proof {
                            lemma_count_le_len(v0.entries, t@);
                            assert(v0.types[j as int].1 == count_type(v0.entries, t@));
                            assert(self@.types == v0.types);
                            assert(self@.types[j as int].1 == c as nat);
                            assert(self@.entries.len() == v0.entries.len() + 1);
                            assert(self.entries@.len() == total);
                        }
                        let name = self.types[j].name.clone();
                        self.types.set(j, Type { name, count: c + 1 });
                        proof {
                            assert(type_position(v0.types, t@) == j as int);
                            assert(self@.types =~= bump_type(v0.types, t@));
                        }
                    },
                    None => {
                        assert(self@.types =~= v0.types);
                        assert(!(exists|j: int| 0 <= j < v0.types.len() && v0.types[j].0 == t@));
                        self.types.push(Type { name: t, count: 1 });
                        proof {
                            assert(type_position(v0.types, t@) == -1);
                            assert(self@.types =~= bump_type(v0.types, t@));
                            lemma_count_zero_without(v0.entries, t@);
                        }
                    },
                }
            },
        }
        proof {
            let v = self@;
            assert forall|i: int| 0 <= i < v.entries.len() && (#[trigger] v.entries[i]).entry_type is Some implies
                exists|j: int| 0 <= j < v.types.len() && v.types[j].0 == v.entries[i].entry_type->0 by {
                if i < v0.entries.len() {
                    assert(v.entries[i] == v0.entries[i]);
                    let j = choose|j: int| 0 <= j < v0.types.len() && v0.types[j].0 == v0.entries[i].entry_type->0;
                    assert(v.types[j].0 == v0.types[j].0);
                    assert(0 <= j < v.types.len() && v.types[j].0 == v.entries[i].entry_type->0);
                } else {
                    assert(v.entries[i] == e);
                    let t = e.entry_type->0;
                    let p0 = type_position(v0.types, t);
                    if p0 >= 0 {
                        assert(v.types[p0].0 == t);
                    } else {
                        let last = v.types.len() - 1;
                        assert(v.types[last].0 == t);
                    }
                }
            }
            assert forall|j: int| 0 <= j < v.types.len() implies (#[trigger] v.types[j]).1 == count_type(v.entries, v.types[j].0)
                && v.types[j].1 > 0 by {
                if j < v0.types.len() {
                    assert(v0.types[j].1 == count_type(v0.entries, v0.types[j].0));
                }
            }
        }
    }

    /// Adds each entry in turn.
    pub fn add_entries(&mut self, entries: Vec<Entry>)
        requires
            old(self).wf(),
        ensures
            final(self).wf(),
            final(self)@ == entries@.map_values(|e: Entry| e@).fold_left(old(self)@, |v: EntryIndexView, e: EntryView| added(v, e)),
    {
        let ghost ev = entries@.map_values(|e: Entry| e@);
        let ghost v0 = self@;
        let mut k: usize = 0;
        for e in it: entries
            invariant
                it.seq() == entries@,
                ev == entries@.map_values(|e: Entry| e@),
                self.wf(),
                self@ == ev.take(it.index() as int).fold_left(v0, |v: EntryIndexView, e: EntryView| added(v, e)),
        {
            let ghost i = it.index() as int;
            proof {
                assert(ev.take(i + 1).drop_last() =~= ev.take(i));
                assert(ev.take(i + 1).last() == e@);
            }
            self.add(e);
        }
        proof {
            assert(ev.take(ev.len() as int) =~= ev);
        }
    }

    /// No entries.
    pub fn is_empty(&self) -> (r: bool)
        ensures
            r == (self@.entries.len() == 0),
    {
        self.entries.len() == 0
    }

    /// No entries.
    pub fn is_blank(&self) -> (r: bool)
        ensures
            r == (self@.entries.len() == 0),
    {
        self.is_empty()
    }

    /// The number of entries.
    pub fn length(&self) -> (r: usize)
        ensures
            r == self@.entries.len(),
    {
        self.entries.len()
    }

    /// The number of entries.
    pub fn len(&self) -> (r: usize)
        ensures
            r == self@.entries.len(),
    {
        self.length()
    }

    /// At least one entry.
    pub fn present(&self) -> (r: bool)
        ensures
            r == (self@.entries.len() > 0),
    {
        !self.is_empty()
    }

    /// The pieces of `s` between dots.
    pub fn split_with_ints(&self, s: &str) -> (res: Vec<String>)
        ensures
            res@.map_values(|x: String| x@) == split_on(s@, '.'),
    {
        let v = chars_of(s);
        let parts = split_chars(&v, '.');
        let mut res: Vec<String> = Vec::new();
        let mut i: usize = 0;
        while i < parts.len()
            invariant
                0 <= i <= parts.len(),
                vviews(parts@) == split_on(s@, '.'),
                res@.len() == i,
                forall|k: int| 0 <= k < i ==> (#[trigger] res@[k])@ == parts@[k]@,
            decreases parts.len() - i,
        {
            res.push(string_from_chars(&parts[i]));
            i = i + 1;
        }
        assert(res@.map_values(|x: String| x@) =~= vviews(parts@));
        res
    }

    /// The pieces as they are compared: the last stays text, the others
    /// become numbers where they parse as `i32`.
    pub fn convert_to_comparable(&self, parts: &[String]) -> (res: Vec<ComparablePart>)
        ensures
            parts_view(res@) == comparable_parts(parts@.map_values(|x: String| x@)),
    {
        let mut cv: Vec<Vec<char>> = Vec::new();
        let mut i: usize = 0;
        while i < parts.len()
            invariant
                0 <= i <= parts.len(),
                cv@.len() == i,
                forall|k: int| 0 <= k < i ==> (#[trigger] cv@[k])@ == parts@[k]@,
            decreases parts.len() - i,
        {
            cv.push(chars_of(parts[i].as_str()));
            i = i + 1;
        }
        assert(vviews(cv@) =~= parts@.map_values(|x: String| x@));
        comparable(&cv)
    }

    /// The listing order of two names (see `name_order`).
    pub fn sort_fn(&self, a: &str, b: &str) -> (r: std::cmp::Ordering)
        ensures
            r == ordering_of(name_order(a@, b@)),
    {
        let va = chars_of(a);
        let vb = chars_of(b);
        match order_names(&va, &vb) {
            Cmp::Less => std::cmp::Ordering::Less,
            Cmp::Equal => std::cmp::Ordering::Equal,
            Cmp::Greater => std::cmp::Ordering::Greater,
        }
    }

    /// The entries in listing order by name.
    fn entries_as_json(&self) -> (res: Vec<EntryJson>)
        ensures
            listed_entries(res@, self@.entries),
    {
        let n = self.entries.len();
        let mut keys: Vec<Vec<char>> = Vec::new();
        let mut i: usize = 0;
        while i < n
            invariant
                0 <= i <= n == self.entries.len(),
                keys@.len() == i,
                forall|k: int| 0 <= k < i ==> (#[trigger] keys@[k])@ == name_key(self@.entries[k]),
            decreases n - i,
        {
            let key = match self.entries[i].name() {
                Some(nm) => chars_of(nm.as_str()),
                None => Vec::new(),
            };
            assert(self@.entries[i as int] == self.entries@[i as int]@);
            keys.push(key);
            i = i + 1;
        }
        let ghost kv = vviews(keys@);
        assert(kv =~= self@.entries.map_values(|e: EntryView| name_key(e)));
        let p = sort_positions(&keys);
        let mut res: Vec<EntryJson> = Vec::new();
        let mut k: usize = 0;
        while k < n
            invariant
                0 <= k <= n == self.entries.len() == p@.len(),
                is_permutation(p@, n as nat),
                res@.len() == k,
                forall|m: int| 0 <= m < k ==> json_view(#[trigger] res@[m]) == self@.entries[p@[m] as int],
            decreases n - k,
        {
            let j = p[k];
            assert(self@.entries[j as int] == self.entries@[j as int]@);
            res.push(self.entries[j].as_json());
            k = k + 1;
        }
        proof {
            assert(self@.entries.map_values(|e: EntryView| name_key(e)) == kv);
            assert(listed_with(res@, self@.entries, p@));
        }
        res
    }

    /// The types in listing order by name, each with its count and slug.
    fn types_as_json(&self) -> (res: Vec<TypeJson>)
        ensures
            listed_types(res@, self@.types),
    {
        let n = self.types.len();
        let mut keys: Vec<Vec<char>> = Vec::new();
        let mut i: usize = 0;
        while i < n
            invariant
                0 <= i <= n == self.types.len(),
                keys@.len() == i,
                forall|k: int| 0 <= k < i ==> (#[trigger] keys@[k])@ == self@.types[k].0,
            decreases n - i,
        {
            assert(self@.types[i as int].0 == self.types@[i as int].name@);
            keys.push(chars_of(self.types[i].name.as_str()));
            i = i + 1;
        }
        let ghost kv = vviews(keys@);
        assert(kv =~= self@.types.map_values(|t: (Seq<char>, nat)| t.0));
        let p = sort_positions(&keys);
        let mut res: Vec<TypeJson> = Vec::new();
        let mut k: usize = 0;
        while k < n
            invariant
                0 <= k <= n == self.types.len() == p@.len(),
                is_permutation(p@, n as nat),
                res@.len() == k,
                forall|m: int| 0 <= m < k ==> type_json_is(#[trigger] res@[m], self@.types[p@[m] as int]),
            decreases n - k,
        {
            let j = p[k];
            assert(self@.types[j as int] == (self.types@[j as int].name@, self.types@[j as int].count as nat));
            res.push(self.types[j].as_json());
            k = k + 1;
        }
        proof {
            assert(self@.types.map_values(|t: (Seq<char>, nat)| t.0) == kv);
            assert(types_listed_with(res@, self@.types, p@));
        }
        res
    }

    /// The entries and types, each sorted by name for listing.
    pub fn as_json(&self) -> (res: IndexJson)
        ensures
            listed_entries(res.entries@, self@.entries),
            listed_types(res.types@, self@.types),
    {
        IndexJson { entries: self.entries_as_json(), types: self.types_as_json() }
    }
}

impl Default for EntryIndex {
    fn default() -> (res: Self)
        ensures
            res.wf(),
            res@ == Self::new_view(),
    {
        Self::new()
    }
}

/// The std ordering for a comparison outcome.
pub open spec fn ordering_of(c: Cmp) -> std::cmp::Ordering {
    match c {
        Cmp::Less => std::cmp::Ordering::Less,
        Cmp::Equal => std::cmp::Ordering::Equal,
        Cmp::Greater => std::cmp::Ordering::Greater,
    }
}

/// `out` lists `es` in the order `p`, which is a permutation sorted by name.
pub open spec fn listed_with(out: Seq<EntryJson>, es: Seq<EntryView>, p: Seq<usize>) -> bool {
    &&& is_permutation(p, es.len())
    &&& sorted_by_name(es.map_values(|e: EntryView| name_key(e)), p)
    &&& out.len() == es.len()
    &&& forall|m: int| 0 <= m < out.len() ==> json_view(#[trigger] out[m]) == es[p[m] as int]
}

/// `out` holds every entry of `es` once, sorted by name.
pub open spec fn listed_entries(out: Seq<EntryJson>, es: Seq<EntryView>) -> bool {
    exists|p: Seq<usize>| listed_with(out, es, p)
}

/// A serialised type carries the name, count and slug of `t`.
pub open spec fn type_json_is(j: TypeJson, t: (Seq<char>, nat)) -> bool {
    j.name@ == t.0 && j.count == t.1 && j.slug@ == type_slug(t.0)
}

/// `out` lists `ts` in the order `p`, which is a permutation sorted by name.
pub open spec fn types_listed_with(out: Seq<TypeJson>, ts: Seq<(Seq<char>, nat)>, p: Seq<usize>) -> bool {
    &&& is_permutation(p, ts.len())
    &&& sorted_by_name(ts.map_values(|t: (Seq<char>, nat)| t.0), p)
    &&& out.len() == ts.len()
    &&& forall|m: int| 0 <= m < out.len() ==> type_json_is(#[trigger] out[m], ts[p[m] as int])
}

/// `out` holds every type of `ts` once, sorted by name.
pub open spec fn listed_types(out: Seq<TypeJson>, ts: Seq<(Seq<char>, nat)>) -> bool {
    exists|p: Seq<usize>| types_listed_with(out, ts, p)
}

} // verus!
