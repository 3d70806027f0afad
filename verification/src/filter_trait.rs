//! A page filter and the stack of filters a page goes through in order.

use vstd::prelude::*;
use crate::filter_base::FilterContext;
use crate::text::copy_str;
use crate::error::{Error, Result};

verus! {

/// One step of page processing. Implemented by each filter; nothing is
/// assumed of what it does.
pub trait Filter {
    /// The page after the filter, or why the filter failed.
    fn apply(&self, html: &str, context: &mut FilterContext) -> Result<String>;

    /// The (name, path, type) of each entry the filter finds on a page.
    fn get_entries(&self, html: &str, context: &FilterContext) -> Vec<(String, String, String)>;
}

/// `s` is what the filter's `get_entries` may give for the page and context.
pub open spec fn gives_entries<F: Filter>(f: &F, html: &str, context: &FilterContext,
    s: Seq<(String, String, String)>) -> bool
{
    exists|v: Vec<(String, String, String)>| call_ensures(F::get_entries, (f, html, context), v) && v@ == s
}

/// The filter's `apply`, given the page `html` and the context `before`,
/// may give `r`.
pub open spec fn step_applied<F: Filter + ?Sized>(f: &F, html: Seq<char>, before: FilterContext, r: Result<String>) -> bool {
    exists|q: &str, m: &mut FilterContext| #![trigger call_ensures(F::apply, (f, q, m), r)]
        q@ == html && mut_ref_current(m) == before && call_ensures(F::apply, (f, q, m), r)
}

/// A run of the filters over a page, step by step: filter `k` is given the
/// page `pages[k]` and the context `ctxs[k]` and gives `rs[k]`; the first is
/// given `html` and `start`, each later one the page the one before gave;
/// every step but the last succeeded, and the run ends with the context
/// `end` and the result `res`: the last page when every filter succeeded
/// (`html` without filters), or the error of the one that failed.
pub open spec fn stack_steps<F: Filter>(filters: Seq<F>, html: Seq<char>, start: FilterContext,
    end: FilterContext, res: Result<String>, pages: Seq<Seq<char>>, ctxs: Seq<FilterContext>,
    rs: Seq<Result<String>>) -> bool
{
    &&& rs.len() <= filters.len() && pages.len() == rs.len() + 1 && ctxs.len() == rs.len() + 1
    &&& pages[0] == html && ctxs[0] == start && ctxs.last() == end
    &&& forall|k: int| 0 <= k < rs.len() ==> #[trigger] step_applied(&filters[k], pages[k], ctxs[k], rs[k])
    &&& forall|k: int| 0 <= k < rs.len() - 1 ==> #[trigger] rs[k] is Ok
    &&& forall|k: int| 0 <= k < rs.len() ==> (#[trigger] rs[k] matches Ok(s) ==> s@ == pages[k + 1])
    &&& match res {
        Ok(h) => rs.len() == filters.len() && h@ == pages.last() && (rs.len() > 0 ==> rs.last() == Ok::<String, Error>(h)),
        Err(e) => rs.len() > 0 && rs.last() == Err::<String, Error>(e),
    }
}

/// The filters, run one after the other on `html` from the context `start`,
/// may end with the context `end` and give `res`.
pub open spec fn stack_ran<F: Filter>(filters: Seq<F>, html: Seq<char>, start: FilterContext,
    end: FilterContext, res: Result<String>) -> bool
{
    exists|pages: Seq<Seq<char>>, ctxs: Seq<FilterContext>, rs: Seq<Result<String>>|
        #[trigger] stack_steps(filters, html, start, end, res, pages, ctxs, rs)
}

/// What a filter's `apply` gives for the page.
fn apply_step<F: Filter + ?Sized>(f: &F, html: &str, context: &mut FilterContext) -> (res: Result<String>)
    ensures
        step_applied(f, html@, *old(context), res),
{
    let applier = F::apply;
    applier(f, html, context)
}

/// `es` is what the filters' `get_entries` gave for the page `q` and the
/// context, `outs[i]` from filter `i`, one after the other.
pub open spec fn entries_gathered<F: Filter>(filters: Seq<F>, q: &str, context: &FilterContext,
    es: Seq<(String, String, String)>, outs: Seq<Seq<(String, String, String)>>) -> bool
{
    &&& outs.len() == filters.len()
    &&& forall|i: int| 0 <= i < outs.len() ==> gives_entries(&filters[i], q, context, #[trigger] outs[i])
    &&& es == outs.flatten()
}

/// `es` is what the filters' `get_entries` may give, one after the other,
/// for the page `html` and the context.
pub open spec fn stack_entries<F: Filter>(filters: Seq<F>, html: Seq<char>, context: FilterContext,
    es: Seq<(String, String, String)>) -> bool
{
    exists|q: &str, outs: Seq<Seq<(String, String, String)>>|
        q@ == html && #[trigger] entries_gathered(filters, q, &context, es, outs)
}

/// Filters applied one after the other.
pub struct FilterStack<F> {
    filters: Vec<F>,
}

impl<F: Filter> FilterStack<F> {
    /// The filters, in the order they run.
    pub closed spec fn filters_view(&self) -> Seq<F> {
        self.filters@
    }

    /// A stack without filters.
    pub fn new() -> (res: Self)
        ensures
            res.filters_view() == Seq::<F>::empty(),
    {
        FilterStack { filters: Vec::new() }
    }

    /// Adds a filter after the others.
    pub fn push(&mut self, filter: F)
        ensures
            final(self).filters_view() == old(self).filters_view().push(filter),
    {
        self.filters.push(filter);
    }

    /// Adds a filter after the others.
    pub fn add_filter(&mut self, filter: F)
        ensures
            final(self).filters_view() == old(self).filters_view().push(filter),
    {
        self.filters.push(filter);
    }

    /// The page after each filter in turn, each given the page the one
    /// before gave and the context as the one before left it; the first
    /// failure stops it. Without filters, the page as it is.
    pub fn apply(&self, html: &str, context: &mut FilterContext) -> (res: Result<String>)
        ensures
            self.filters_view().len() == 0 ==> (res matches Ok(h) && h@ == html@ && *final(context) == *old(context)),
            stack_ran(self.filters_view(), html@, *old(context), *final(context), res),
    {
        let mut result = copy_str(html);
        let ghost mut pages: Seq<Seq<char>> = seq![html@];
        let ghost mut ctxs: Seq<FilterContext> = seq![*context];
        let ghost mut rs: Seq<Result<String>> = Seq::empty();
        let mut i: usize = 0;
        while i < self.filters.len()
            invariant
                0 <= i <= self.filters.len(),
                rs.len() == i && pages.len() == i + 1 && ctxs.len() == i + 1,
                pages[0] == html@ && ctxs[0] == *old(context),
                pages.last() == result@ && ctxs.last() == *context,
                forall|k: int| 0 <= k < rs.len() ==>
                    #[trigger] step_applied(&self.filters@[k], pages[k], ctxs[k], rs[k]),
                forall|k: int| 0 <= k < rs.len() ==> #[trigger] rs[k] is Ok,
                forall|k: int| 0 <= k < rs.len() ==> (#[trigger] rs[k] matches Ok(s) ==> s@ == pages[k + 1]),
                i > 0 ==> rs.last() == Ok::<String, Error>(result),
            decreases self.filters.len() - i,
        {
            let ghost c0 = *context;
            let r = apply_step(&self.filters[i], result.as_str(), context);
            let ghost gr = r;
            proof {
                let p0 = pages;
                let x0 = ctxs;
                let r0 = rs;
                pages = p0.push(match gr { Ok(s) => s@, Err(_) => Seq::<char>::empty() });
                ctxs = x0.push(*context);
                rs = r0.push(gr);
                assert forall|k: int| 0 <= k < rs.len() implies
                    #[trigger] step_applied(&self.filters@[k], pages[k], ctxs[k], rs[k]) by {
                    if k < i {
                        assert(rs[k] == r0[k] && pages[k] == p0[k] && ctxs[k] == x0[k]);
                    } else {
                        assert(pages[k] == result@ && ctxs[k] == c0 && rs[k] == gr);
                    }
                }
                assert forall|k: int| 0 <= k < rs.len() - 1 implies #[trigger] rs[k] is Ok by {
                    assert(rs[k] == r0[k]);
                }
                assert forall|k: int| 0 <= k < rs.len() implies (#[trigger] rs[k] matches Ok(s) ==> s@ == pages[k + 1]) by {
                    if k < i {
                        assert(rs[k] == r0[k] && pages[k + 1] == p0[k + 1]);
                        assert(r0[k] is Ok);
                    }
                }
            }
            match r {
                Ok(h) => {
                    result = h;
                },
                Err(e) => {
                    assert(stack_steps(self.filters@, html@, *old(context), *context, Err(e), pages, ctxs, rs));
                    return Err(e);
                },
            }
            i = i + 1;
        }
        assert(stack_steps(self.filters@, html@, *old(context), *context, Ok::<String, Error>(result), pages, ctxs, rs));
        Ok(result)
    }

    /// The entries each filter finds on the page, filter by filter: what the
    /// filters' `get_entries` give, one after the other.
    pub fn get_all_entries(&self, html: &str, context: &FilterContext) -> (res: Vec<(String, String, String)>)
        ensures
            self.filters_view().len() == 0 ==> res@.len() == 0,
            exists|outs: Seq<Seq<(String, String, String)>>|
                #[trigger] entries_gathered(self.filters_view(), html, context, res@, outs),
            stack_entries(self.filters_view(), html@, *context, res@),
    {
        let mut all: Vec<(String, String, String)> = Vec::new();
        let ghost mut outs: Seq<Seq<(String, String, String)>> = Seq::empty();
        let mut i: usize = 0;
        while i < self.filters.len()
            invariant
                0 <= i <= self.filters.len(),
                outs.len() == i,
                forall|k: int| 0 <= k < outs.len() ==> gives_entries(&self.filters@[k], html, context, #[trigger] outs[k]),
                all@ == outs.flatten(),
            decreases self.filters.len() - i,
        {
            let getter = F::get_entries;
            let mut found = getter(&self.filters[i], html, context);
            let ghost got = found;
            let ghost o0 = outs;
            all.append(&mut found);
            proof {
                assert(call_ensures(F::get_entries, (&self.filters@[i as int], html, context), got));
                o0.lemma_flatten_push(got@);
                outs = o0.push(got@);
                assert forall|k: int| 0 <= k < outs.len() implies gives_entries(&self.filters@[k], html, context, #[trigger] outs[k]) by {
                    if k == i {
                        assert(got@ == outs[k]);
                        assert(gives_entries(&self.filters@[k], html, context, outs[k]));
                    } else {
                        assert(outs[k] == o0[k]);
                    }
                }
            }
            i = i + 1;
        }
        assert(self.filters_view() == self.filters@);
        assert(entries_gathered(self.filters_view(), html, context, all@, outs));
        all
    }

    /// The number of filters.
    pub fn len(&self) -> (r: usize)
        ensures
            r == self.filters_view().len(),
    {
        self.filters.len()
    }

    /// No filters.
    pub fn is_empty(&self) -> (r: bool)
        ensures
            r == (self.filters_view().len() == 0),
    {
        self.filters.len() == 0
    }
}

impl<F: Filter + Clone> FilterStack<F> {
    /// A stack of copies of the filters, in the same order.
    pub fn inheritable_copy(&self) -> (res: Self)
        ensures
            res.filters_view().len() == self.filters_view().len(),
            forall|i: int| 0 <= i < self.filters_view().len()
                ==> cloned::<F>(self.filters_view()[i], #[trigger] res.filters_view()[i]),
    {
        let mut out: Vec<F> = Vec::new();
        let mut i: usize = 0;
        while i < self.filters.len()
            invariant
                0 <= i <= self.filters.len(),
                out@.len() == i,
                forall|k: int| 0 <= k < i ==> cloned::<F>(self.filters@[k], #[trigger] out@[k]),
            decreases self.filters.len() - i,
        {
            out.push(self.filters[i].clone());
            i = i + 1;
        }
        FilterStack { filters: out }
    }
}

} // verus!
