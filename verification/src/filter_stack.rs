//! An ordered list of filter class names, built from snake-case filter
//! names (`clean_html` is stored as `CleanHtmlFilter`).

use vstd::prelude::*;
use crate::text::{copy_str, push_str, char_to_uppercase, to_lowercase, uppercase_char, lowercase,
    chars_of, split_chars, split_on, vviews, string_from_range, str_eq, decimal, decimal_string};

verus! {

/// The first letter upper-cased and the rest lower-cased; empty stays empty.
pub open spec fn camel_word(w: Seq<char>) -> Seq<char> {
    if w.len() == 0 {
        Seq::empty()
    } else {
        uppercase_char(w[0]) + lowercase(w.drop_first())
    }
}

/// The camel-cased pieces, concatenated.
pub open spec fn camel_concat(parts: Seq<Seq<char>>) -> Seq<char>
    decreases parts.len(),
{
    if parts.len() == 0 {
        Seq::empty()
    } else {
        camel_concat(parts.drop_last()) + camel_word(parts.last())
    }
}

/// `snake_case` to `CamelCase`: each piece between underscores camel-cased.
pub open spec fn camel_case(s: Seq<char>) -> Seq<char> {
    camel_concat(split_on(s, '_'))
}

/// The class name a filter name stands for: `name_filter`, camel-cased.
pub open spec fn class_name(name: Seq<char>) -> Seq<char> {
    camel_case(name + "_filter"@)
}

/// The constant name of a filter: its class name followed by `Filter`.
pub open spec fn filter_const_name(name: Seq<char>) -> Seq<char> {
    class_name(name) + "Filter"@
}

/// Where to put filters: at a position, or at the first filter of a name.
#[derive(Debug, Clone)]
pub enum FilterIndex {
    Position(usize),
    Name(&'static str),
}

/// `k` is the first position of `x` in `s`.
pub open spec fn is_first(s: Seq<Seq<char>>, x: Seq<char>, k: int) -> bool {
    0 <= k < s.len() && s[k] == x && forall|j: int| 0 <= j < k ==> s[j] != x
}

/// The index names a place in `s`: a position up to its length, or a
/// filter name whose class name occurs in it.
pub open spec fn resolvable(s: Seq<Seq<char>>, index: FilterIndex) -> bool {
    match index {
        FilterIndex::Position(i) => i <= s.len(),
        FilterIndex::Name(n) => s.contains(class_name(n@)),
    }
}

/// The place that a resolvable index names.
pub open spec fn resolved(s: Seq<Seq<char>>, index: FilterIndex) -> int {
    match index {
        FilterIndex::Position(i) => i as int,
        FilterIndex::Name(n) => choose|k: int| is_first(s, class_name(n@), k),
    }
}

/// The message for an index that names no place.
pub open spec fn index_error(index: FilterIndex) -> Seq<char> {
    match index {
        FilterIndex::Position(i) => "Index "@ + decimal(i as nat) + " out of bounds"@,
        FilterIndex::Name(n) => "No such filter to insert: "@ + n@,
    }
}

/// `s` with `items` put in at `k`.
pub open spec fn splice(s: Seq<Seq<char>>, k: int, items: Seq<Seq<char>>) -> Seq<Seq<char>> {
    s.take(k) + items + s.skip(k)
}

/// The class names of a list of filter names.
pub open spec fn class_names(names: Seq<&str>) -> Seq<Seq<char>> {
    names.map_values(|n: &str| class_name(n@))
}

/// A first position is unique.
pub proof fn lemma_first_unique(s: Seq<Seq<char>>, x: Seq<char>, k1: int, k2: int)
    requires
        is_first(s, x, k1),
        is_first(s, x, k2),
    ensures
        k1 == k2,
{
    if k1 < k2 {
        assert(s[k1] != x);
    } else if k2 < k1 {
        assert(s[k2] != x);
    }
}

/// The filter class names of a scraper, in the order they run.
#[derive(Debug, Clone, PartialEq)]
pub struct FilterStack {
    filters: Vec<String>,
}

impl View for FilterStack {
    type V = Seq<Seq<char>>;

    closed spec fn view(&self) -> Seq<Seq<char>> {
        self.filters@.map_values(|s: String| s@)
    }
}

/// A copy of a list of strings.
fn copy_strings(v: &Vec<String>) -> (res: Vec<String>)
    ensures
        res@.map_values(|s: String| s@) == v@.map_values(|s: String| s@),
{
    let mut out: Vec<String> = Vec::new();
    let mut i: usize = 0;
    while i < v.len()
        invariant
            0 <= i <= v.len(),
            out@.len() == i,
            forall|k: int| 0 <= k < i ==> #[trigger] out@[k]@ == v@[k]@,
        decreases v.len() - i,
    {
        let c = copy_str(v[i].as_str());
        out.push(c);
        i = i + 1;
    }
    assert(out@.map_values(|s: String| s@) =~= v@.map_values(|s: String| s@));
    out
}

impl FilterStack {
    /// A stack holding the given class names, or none.
    pub fn new(filters: Option<Vec<String>>) -> (res: Self)
        ensures
            res@ == match filters {
                Some(v) => v@.map_values(|s: String| s@),
                None => Seq::<Seq<char>>::empty(),
            },
    {
        match filters {
            Some(v) => FilterStack { filters: v },
            None => {
                let res = FilterStack { filters: Vec::new() };
                assert(res@ =~= Seq::<Seq<char>>::empty());
                res
            },
        }
    }

    /// The number of filters.
    pub fn length(&self) -> (r: usize)
        ensures
            r == self@.len(),
    {
        self.filters.len()
    }

    /// The class names, in order.
    pub fn filters(&self) -> (res: &Vec<String>)
        ensures
            res@.map_values(|s: String| s@) == self@,
    {
        &self.filters
    }

    /// `snake_case` to `CamelCase`.
    pub fn camelize(&self, s: &str) -> (res: String)
        ensures
            res@ == camel_case(s@),
    {
        let v = chars_of(s);
        let parts = split_chars(&v, '_');
        let ghost pv = vviews(parts@);
        let mut out = String::new();
        let mut i: usize = 0;
        assert(pv.take(0) =~= Seq::<Seq<char>>::empty());
        while i < parts.len()
            invariant
                0 <= i <= parts.len(),
                pv == vviews(parts@),
                out@ == camel_concat(pv.take(i as int)),
            decreases parts.len() - i,
        {
            let w = &parts[i];
            proof {
                assert(pv.take(i + 1).drop_last() =~= pv.take(i as int));
                assert(pv.take(i + 1).last() == w@);
            }
            if w.len() > 0 {
                let first = char_to_uppercase(w[0]);
                push_str(&mut out, first.as_str());
                let rest = string_from_range(w, 1, w.len());
                let low = to_lowercase(rest.as_str());
                push_str(&mut out, low.as_str());
                assert(rest@ =~= w@.drop_first());
                assert(out@ =~= camel_concat(pv.take(i as int)) + camel_word(w@));
            } else {
                assert(out@ =~= camel_concat(pv.take(i as int)) + camel_word(w@));
            }
            i = i + 1;
        }
        assert(pv.take(i as int) =~= pv);
        out
    }

    /// The class name a filter name is stored as.
    fn class_name_of(&self, name: &str) -> (res: String)
        ensures
            res@ == class_name(name@),
    {
        let mut s = copy_str(name);
        push_str(&mut s, "_filter");
        self.camelize(s.as_str())
    }

    /// The constant name of a filter: its class name followed by `Filter`.
    pub fn filter_const(&self, name: &str) -> (res: String)
        ensures
            res@ == filter_const_name(name@),
    {
        let mut s = self.class_name_of(name);
        push_str(&mut s, "Filter");
        s
    }

    /// Appends filters, in order.
    pub fn push(&mut self, names: &[&str])
        ensures
            final(self)@ == old(self)@ + class_names(names@),
    {
        let ghost s0 = self@;
        let mut i: usize = 0;
        while i < names.len()
            invariant
                0 <= i <= names.len(),
                self@ == s0 + class_names(names@).take(i as int),
            decreases names.len() - i,
        {
            let c = self.class_name_of(names[i]);
            let ghost before = self@;
            let ghost fs = self.filters@;
            self.filters.push(c);
            assert(self.filters@ == fs.push(c));
            assert(self@ =~= before.push(class_name(names@[i as int]@)));
            assert(self@ =~= s0 + class_names(names@).take(i + 1));
            i = i + 1;
        }
        assert(class_names(names@).take(i as int) =~= class_names(names@));
    }

    /// The place an index names, or the message saying that it names none.
    pub fn assert_index(&self, index: FilterIndex) -> (res: Result<usize, String>)
        ensures
            match res {
                Ok(k) => resolvable(self@, index) && k == resolved(self@, index) && k <= self@.len()
                    && (index is Name ==> k < self@.len()),
                Err(m) => !resolvable(self@, index) && m@ == index_error(index),
            },
    {
        match index {
            FilterIndex::Position(i) => {
                if i <= self.filters.len() {
                    Ok(i)
                } else {
                    let mut m = "Index ".to_string();
                    let d = decimal_string(i as u64);
                    push_str(&mut m, d.as_str());
                    push_str(&mut m, " out of bounds");
                    Err(m)
                }
            },
            FilterIndex::Name(name) => {
                let target = self.class_name_of(name);
                let mut k: usize = 0;
                while k < self.filters.len()
                    invariant
                        0 <= k <= self.filters.len(),
                        target@ == class_name(name@),
                        index == FilterIndex::Name(name),
                        forall|j: int| 0 <= j < k ==> self@[j] != target@,
                    decreases self.filters.len() - k,
                {
                    if str_eq(self.filters[k].as_str(), target.as_str()) {
                        proof {
                            assert(self@[k as int] == target@);
                            assert(self@.contains(target@));
                            assert(is_first(self@, target@, k as int));
                            let c = choose|c: int| is_first(self@, class_name(name@), c);
                            lemma_first_unique(self@, target@, k as int, c);
                        }
                        return Ok(k);
                    }
                    k = k + 1;
                }
                proof {
                    if self@.contains(target@) {
                        let j = choose|j: int| 0 <= j < self@.len() && self@[j] == target@;
                        assert(self@[j] != target@);
                    }
                }
                let mut m = "No such filter to insert: ".to_string();
                push_str(&mut m, name);
                Err(m)
            },
        }
    }

    /// Puts filters in at the place an index names, before what stood there.
    pub fn insert(&mut self, index: FilterIndex, names: &[&str]) -> (res: Result<(), String>)
        ensures
            match res {
                Ok(()) => resolvable(old(self)@, index)
                    && final(self)@ == splice(old(self)@, resolved(old(self)@, index), class_names(names@)),
                Err(m) => !resolvable(old(self)@, index) && m@ == index_error(index)
                    && final(self)@ == old(self)@,
            },
    {
        let idx = match self.assert_index(index) {
            Ok(k) => k,
            Err(m) => {
                return Err(m);
            },
        };
        let ghost s0 = self@;
        let ghost items = class_names(names@);
        let mut i: usize = 0;
        while i < names.len()
            invariant
                0 <= i <= names.len(),
                idx <= s0.len(),
                self.filters@.len() == s0.len() + i,
                items == class_names(names@),
                self@ == s0.take(idx as int) + items.take(i as int) + s0.skip(idx as int),
            decreases names.len() - i,
        {
            let c = self.class_name_of(names[i]);
            let ghost cv = c@;
            let ghost before = self@;
            let ghost fs = self.filters@;
            let cur_len = self.filters.len();
            assert(idx + i <= cur_len);
            self.filters.insert(idx + i, c);
            assert(self.filters@ == fs.insert(idx + i, c));
            assert(self@ =~= before.insert(idx + i, cv));
            assert(cv == items[i as int]);
            assert(self@ =~= s0.take(idx as int) + items.take(i + 1) + s0.skip(idx as int));
            i = i + 1;
        }
        assert(items.take(i as int) =~= items);
        Ok(())
    }

    /// Puts filters in before the place an index names.
    pub fn insert_before(&mut self, index: FilterIndex, names: &[&str]) -> (res: Result<(), String>)
        ensures
            match res {
                Ok(()) => resolvable(old(self)@, index)
                    && final(self)@ == splice(old(self)@, resolved(old(self)@, index), class_names(names@)),
                Err(m) => !resolvable(old(self)@, index) && m@ == index_error(index)
                    && final(self)@ == old(self)@,
            },
    {
        self.insert(index, names)
    }

    /// Puts filters in just after the place an index names. The place after
    /// the end is out of bounds.
    pub fn insert_after(&mut self, index: FilterIndex, names: &[&str]) -> (res: Result<(), String>)
        requires
            old(self)@.len() < usize::MAX,
        ensures
            match res {
                Ok(()) => resolvable(old(self)@, index) && resolved(old(self)@, index) < old(self)@.len()
                    && final(self)@ == splice(old(self)@, resolved(old(self)@, index) + 1, class_names(names@)),
                Err(m) => final(self)@ == old(self)@ && (
                    if resolvable(old(self)@, index) {
                        resolved(old(self)@, index) == old(self)@.len()
                            && m@ == index_error(FilterIndex::Position((old(self)@.len() + 1) as usize))
                    } else {
                        m@ == index_error(index)
                    }),
            },
    {
        let idx = match self.assert_index(index) {
            Ok(k) => k,
            Err(m) => {
                return Err(m);
            },
        };
        self.insert(FilterIndex::Position(idx + 1), names)
    }

    /// Replaces the filter at the place an index names. A position must not
    /// be the end.
    pub fn replace(&mut self, index: FilterIndex, name: &str) -> (res: Result<(), String>)
        requires
            !(index matches FilterIndex::Position(i) && i == old(self)@.len()),
        ensures
            match res {
                Ok(()) => resolvable(old(self)@, index)
                    && final(self)@ == old(self)@.update(resolved(old(self)@, index), class_name(name@)),
                Err(m) => !resolvable(old(self)@, index) && m@ == index_error(index)
                    && final(self)@ == old(self)@,
            },
    {
        let idx = match self.assert_index(index) {
            Ok(k) => k,
            Err(m) => {
                return Err(m);
            },
        };
        let c = self.class_name_of(name);
        self.filters.set(idx, c);
        assert(self@ =~= old(self)@.update(idx as int, class_name(name@)));
        Ok(())
    }

    /// The class names, as a new list.
    pub fn to_a(&self) -> (res: Vec<String>)
        ensures
            res@.map_values(|s: String| s@) == self@,
    {
        copy_strings(&self.filters)
    }

    /// A copy holding the same class names.
    pub fn inheritable_copy(&self) -> (res: Self)
        ensures
            res@ == self@,
    {
        FilterStack { filters: copy_strings(&self.filters) }
    }
}

impl Default for FilterStack {
    fn default() -> (res: Self)
        ensures
            res@ == Seq::<Seq<char>>::empty(),
    {
        FilterStack::new(None)
    }
}

} // verus!
