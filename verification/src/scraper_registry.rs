//! The documentation scrapers known by name.

use vstd::prelude::*;
use crate::keyed::{keyed_map, distinct_keyed, put_keyed, get_keyed};
use crate::text::copy_str;
use crate::url_scraper::views;

verus! {

/// Makes the scraper of one documentation set for a version and an output
/// directory. Implemented by each set; nothing is assumed of what it makes.
pub trait ScraperFactory<S> {
    /// A scraper for the version, writing under `output_path`.
    fn make(&self, version: &str, output_path: &str) -> S;
}

/// The scraper factories, by documentation name.
pub struct ScraperRegistry<F> {
    factories: Vec<(String, F)>,
}

impl<F> ScraperRegistry<F> {
    /// No name is registered twice.
    pub closed spec fn wf(&self) -> bool {
        distinct_keyed(self.factories@)
    }

    /// The factories, by name.
    pub closed spec fn factories_view(&self) -> Map<Seq<char>, F> {
        keyed_map(self.factories@)
    }

    /// An empty registry.
    pub fn new() -> (res: Self)
        ensures
            res.wf(),
            res.factories_view() == Map::<Seq<char>, F>::empty(),
    {
        let res = ScraperRegistry { factories: Vec::new() };
        assert(res.factories_view() =~= Map::<Seq<char>, F>::empty());
        res
    }

    /// Registers a factory under a name, in place of any factory there.
    pub fn register(&mut self, name: &str, factory: F)
        requires
            old(self).wf(),
        ensures
            final(self).wf(),
            final(self).factories_view() == old(self).factories_view().insert(name@, factory),
    {
        put_keyed(&mut self.factories, copy_str(name), factory);
    }

    /// A scraper made by the factory registered under the name, if any.
    pub fn get<S>(&self, name: &str, version: &str, output_path: &str) -> (res: Option<S>)
        where F: ScraperFactory<S>,
        requires
            self.wf(),
        ensures
            res is Some <==> self.factories_view().contains_key(name@),
    {
        match get_keyed(&self.factories, name) {
            Some(f) => Some(f.make(version, output_path)),
            None => None,
        }
    }

    /// The names registered, each once, in the order they were first
    /// registered.
    pub fn get_all_names(&self) -> (res: Vec<String>)
        requires
            self.wf(),
        ensures
            forall|i: int, j: int| 0 <= i < j < res@.len() ==> res@[i]@ != res@[j]@,
            forall|t: Seq<char>| views(res@).contains(t) <==> self.factories_view().contains_key(t),
    {
        let mut out: Vec<String> = Vec::new();
        let mut i: usize = 0;
        while i < self.factories.len()
            invariant
                0 <= i <= self.factories.len(),
                distinct_keyed(self.factories@),
                out@.len() == i,
                forall|k: int| 0 <= k < i ==> #[trigger] out@[k]@ == self.factories@[k].0@,
            decreases self.factories.len() - i,
        {
            out.push(copy_str(self.factories[i].0.as_str()));
            i = i + 1;
        }
        proof {
            assert forall|a: int, b: int| 0 <= a < b < out@.len() implies out@[a]@ != out@[b]@ by {
                assert(out@[a]@ == self.factories@[a].0@ && out@[b]@ == self.factories@[b].0@);
            }
            assert forall|t: Seq<char>| views(out@).contains(t) <==> self.factories_view().contains_key(t) by {
                if views(out@).contains(t) {
                    let k = choose|k: int| 0 <= k < views(out@).len() && views(out@)[k] == t;
                    assert(self.factories@[k].0@ == t);
                }
                if self.factories_view().contains_key(t) {
                    let k = choose|k: int| 0 <= k < self.factories@.len() && self.factories@[k].0@ == t;
                    assert(views(out@)[k] == t);
                }
            }
        }
        out
    }
}

} // verus!
