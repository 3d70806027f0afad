//! Filters kept by name, and the stacks made of them.

use vstd::prelude::*;
use crate::keyed::{keyed_map, distinct_keyed, put_keyed, get_keyed};
use crate::text::copy_str;
use crate::filter_trait::{Filter, FilterStack};

verus! {

/// The names of the default HTML filters, in the order they run.
pub open spec fn default_html_names() -> Seq<Seq<char>> {
    seq!["apply_base_url"@, "container"@, "clean_html"@, "normalize_urls"@, "internal_urls"@,
        "normalize_paths"@, "parse_cf_email"@]
}

/// The names among the first `n` that a filter is kept under.
pub open spec fn known_names<F>(m: Map<Seq<char>, F>, names: Seq<Seq<char>>, n: int) -> Seq<Seq<char>>
    decreases n,
{
    if n <= 0 {
        Seq::empty()
    } else {
        known_names(m, names, n - 1) + if m.contains_key(names[n - 1]) { seq![names[n - 1]] } else { Seq::empty() }
    }
}

/// Keeps filters by name and hands out copies of them.
pub struct FilterFactory<F> {
    filters: Vec<(String, F)>,
}

impl<F: Filter + Clone> FilterFactory<F> {
    /// No name is kept twice.
    pub closed spec fn wf(&self) -> bool {
        distinct_keyed(self.filters@)
    }

    /// The filters, by name.
    pub closed spec fn filters_view(&self) -> Map<Seq<char>, F> {
        keyed_map(self.filters@)
    }

    /// A factory without filters.
    pub fn new() -> (res: Self)
        ensures
            res.wf(),
            res.filters_view() == Map::<Seq<char>, F>::empty(),
    {
        let res = FilterFactory { filters: Vec::new() };
        assert(res.filters_view() =~= Map::<Seq<char>, F>::empty());
        res
    }

    /// Keeps a filter under a name, in place of any filter there.
    pub fn register(&mut self, name: &str, filter: F)
        requires
            old(self).wf(),
        ensures
            final(self).wf(),
            final(self).filters_view() == old(self).filters_view().insert(name@, filter),
    {
        put_keyed(&mut self.filters, copy_str(name), filter);
    }

    /// A copy of the filter kept under a name.
    pub fn get(&self, name: &str) -> (res: Option<F>)
        requires
            self.wf(),
        ensures
            res is Some <==> self.filters_view().contains_key(name@),
            res matches Some(f) ==> cloned::<F>(self.filters_view()[name@], f),
    {
        match get_keyed(&self.filters, name) {
            Some(f) => Some(f.clone()),
            None => None,
        }
    }

    /// A stack of copies of the filters kept under the names, in their
    /// order; names without a filter are passed over.
    pub fn create_stack(&self, filter_names: &[&str]) -> (res: FilterStack<F>)
        requires
            self.wf(),
        ensures
            ({
                let known = known_names(self.filters_view(), filter_names@.map_values(|s: &str| s@),
                    filter_names@.len() as int);
                &&& res.filters_view().len() == known.len()
                &&& forall|k: int| 0 <= k < known.len()
                    ==> cloned::<F>(self.filters_view()[known[k]], #[trigger] res.filters_view()[k])
            }),
    {
        let ghost nv = filter_names@.map_values(|s: &str| s@);
        let mut stack: FilterStack<F> = FilterStack::new();
        let mut i: usize = 0;
        while i < filter_names.len()
            invariant
                0 <= i <= filter_names@.len(),
                self.wf(),
                nv == filter_names@.map_values(|s: &str| s@),
                stack.filters_view().len() == known_names(self.filters_view(), nv, i as int).len(),
                forall|k: int| 0 <= k < known_names(self.filters_view(), nv, i as int).len()
                    ==> cloned::<F>(self.filters_view()[known_names(self.filters_view(), nv, i as int)[k]],
                        #[trigger] stack.filters_view()[k]),
            decreases filter_names@.len() - i,
        {
            let ghost before = known_names(self.filters_view(), nv, i as int);
            let ghost s0 = stack.filters_view();
            assert(nv[i as int] == filter_names@[i as int]@);
            match self.get(filter_names[i]) {
                Some(f) => {
                    stack.push(f);
                    proof {
                        let after = known_names(self.filters_view(), nv, i + 1);
                        assert(after =~= before.push(nv[i as int]));
                        assert forall|k: int| 0 <= k < after.len()
                            implies cloned::<F>(self.filters_view()[after[k]], #[trigger] stack.filters_view()[k]) by {
                            if k < before.len() {
                                assert(after[k] == before[k]);
                                assert(stack.filters_view()[k] == s0[k]);
                            }
                        }
                    }
                },
                None => {
                    proof {
                        let after = known_names(self.filters_view(), nv, i + 1);
                        assert(after =~= before);
                    }
                },
            }
            i = i + 1;
        }
        stack
    }

    /// The stack of the default HTML filters that are kept, in their order.
    pub fn create_default_html_stack(&self) -> (res: FilterStack<F>)
        requires
            self.wf(),
        ensures
            ({
                let known = known_names(self.filters_view(), default_html_names(), 7);
                &&& res.filters_view().len() == known.len()
                &&& forall|k: int| 0 <= k < known.len()
                    ==> cloned::<F>(self.filters_view()[known[k]], #[trigger] res.filters_view()[k])
            }),
    {
        let names: [&str; 7] = ["apply_base_url", "container", "clean_html", "normalize_urls", "internal_urls",
            "normalize_paths", "parse_cf_email"];
        proof {
            assert(names@.map_values(|s: &str| s@) =~= default_html_names());
        }
        self.create_stack(names.as_slice())
    }

    /// The default text stack, which is empty.
    pub fn create_default_text_stack(&self) -> (res: FilterStack<F>)
        ensures
            res.filters_view().len() == 0,
    {
        FilterStack::new()
    }
}

} // verus!
