//! What a scraper's filters know of a page, and the filter that records the
//! page as an entry.

use vstd::prelude::*;
use crate::models::entry::{Entry, EntryView, cleaned, filled, view_is_root, opt_view};
use crate::parser::HtmlParser;
use crate::text::copy_str;
use crate::error::{Error, Result};

verus! {

/// The page a scraper's filter works on, the entries found so far, and the
/// settings of the documentation set.
#[derive(Debug, Clone)]
pub struct FilterContext {
    pub entries: Vec<Entry>,
    pub current_path: String,
    pub current_url: String,
    pub base_url: String,
    pub root_url: String,
    pub root_path: Option<String>,
    pub links: Vec<(String, String)>,
    pub version: Option<String>,
    pub release: Option<String>,
    pub initial_paths: Vec<String>,
    pub options: Vec<(String, String)>,
}

/// The entries of a context, as values.
pub open spec fn entry_views(s: Seq<Entry>) -> Seq<EntryView> {
    s.map_values(|e: Entry| e@)
}

impl FilterContext {
    /// A context for the page at `path`, every other field empty.
    pub fn new(_content: &str, path: &str) -> (res: Self)
        ensures
            res.current_path@ == path@,
            res.entries@.len() == 0,
            res.current_url@.len() == 0,
            res.base_url@.len() == 0,
            res.root_url@.len() == 0,
            res.root_path is None,
            res.links@.len() == 0,
            res.version is None,
            res.release is None,
            res.initial_paths@.len() == 0,
            res.options@.len() == 0,
    {
        FilterContext {
            entries: Vec::new(),
            current_path: copy_str(path),
            current_url: String::new(),
            base_url: String::new(),
            root_url: String::new(),
            root_path: None,
            links: Vec::new(),
            version: None,
            release: None,
            initial_paths: Vec::new(),
            options: Vec::new(),
        }
    }
}

impl Default for FilterContext {
    /// A context with every field empty.
    fn default() -> (res: Self)
        ensures
            res.current_path@.len() == 0,
            res.entries@.len() == 0,
            res.root_path is None,
    {
        proof {
            reveal_strlit("");
        }
        FilterContext::new("", "")
    }
}

/// A step of a scraper's page processing. Implemented by each filter;
/// nothing is assumed of what it does.
pub trait Filter {
    /// The page after the filter, or why the filter failed.
    fn apply(&self, html: &str, context: &mut FilterContext) -> Result<String>;

    /// The (name, path, type) of each entry the filter finds on a page.
    fn get_entries(&self, html: &str, context: &FilterContext) -> Vec<(String, String, String)>;
}

/// The filter's `apply`, given the page `html` and the context `before`,
/// may give `r`.
pub open spec fn filter_applied<T: Filter + ?Sized>(f: &T, html: Seq<char>, before: FilterContext,
    r: Result<String>) -> bool
{
    exists|q: &str, m: &mut FilterContext| #![trigger call_ensures(T::apply, (f, q, m), r)]
        q@ == html && mut_ref_current(m) == before && call_ensures(T::apply, (f, q, m), r)
}

/// A run of the filters over a page, step by step: filter `k` is given the
/// page `pages[k]` and the context `ctxs[k]` and gives `rs[k]`; the first is
/// given `html` and `start`, each later one the page the one before gave;
/// every step but the last succeeded, and the run ends with the context
/// `end` and the result `res`: the last page when every filter succeeded
/// (`html` without filters), or the error of the one that failed.
pub open spec fn chain_ran<T: Filter + ?Sized>(filters: Seq<Box<T>>, html: Seq<char>, start: FilterContext,
    end: FilterContext, res: Result<String>, pages: Seq<Seq<char>>, ctxs: Seq<FilterContext>,
    rs: Seq<Result<String>>) -> bool
{
    &&& rs.len() <= filters.len() && pages.len() == rs.len() + 1 && ctxs.len() == rs.len() + 1
    &&& pages[0] == html && ctxs[0] == start && ctxs.last() == end
    &&& forall|k: int| 0 <= k < rs.len() ==> #[trigger] filter_applied(&*filters[k], pages[k], ctxs[k], rs[k])
    &&& forall|k: int| 0 <= k < rs.len() - 1 ==> #[trigger] rs[k] is Ok
    &&& forall|k: int| 0 <= k < rs.len() ==> (#[trigger] rs[k] matches Ok(s) ==> s@ == pages[k + 1])
    &&& match res {
        Ok(h) => rs.len() == filters.len() && h@ == pages.last() && (rs.len() > 0 ==> rs.last() == Ok::<String, Error>(h)),
        Err(e) => rs.len() > 0 && rs.last() == Err::<String, Error>(e),
    }
}

/// The filters, run one after the other on `html` from the context `start`,
/// may end with the context `end` and give `res`.
pub open spec fn filters_ran<T: Filter + ?Sized>(filters: Seq<Box<T>>, html: Seq<char>, start: FilterContext,
    end: FilterContext, res: Result<String>) -> bool
{
    exists|pages: Seq<Seq<char>>, ctxs: Seq<FilterContext>, rs: Seq<Result<String>>|
        #[trigger] chain_ran(filters, html, start, end, res, pages, ctxs, rs)
}

/// `es` is what the filters' `get_entries` gave for the page `q` and the
/// context, `outs[i]` from filter `i`, one after the other.
pub open spec fn entries_gathered<T: Filter + ?Sized>(filters: Seq<Box<T>>, q: &str, context: &FilterContext,
    es: Seq<(String, String, String)>, outs: Seq<Seq<(String, String, String)>>) -> bool
{
    &&& outs.len() == filters.len()
    &&& forall|i: int| 0 <= i < outs.len() ==> filter_gives_entries(&*filters[i], q, context, #[trigger] outs[i])
    &&& es == outs.flatten()
}

/// `es` is what the filters' `get_entries` may give, one after the other,
/// for the page `html` and the context.
pub open spec fn filters_entries<T: Filter + ?Sized>(filters: Seq<Box<T>>, html: Seq<char>, context: FilterContext,
    es: Seq<(String, String, String)>) -> bool
{
    exists|q: &str, outs: Seq<Seq<(String, String, String)>>|
        q@ == html && #[trigger] entries_gathered(filters, q, &context, es, outs)
}

/// What a filter's `apply` gives for the page.
pub(crate) fn apply_one<T: Filter + ?Sized>(f: &T, html: &str, context: &mut FilterContext) -> (res: Result<String>)
    ensures
        filter_applied(f, html@, *old(context), res),
{
    let applier = T::apply;
    applier(f, html, context)
}

/// `s` is what the filter's `get_entries` may give for the page and context.
pub open spec fn filter_gives_entries<T: Filter + ?Sized>(f: &T, html: &str, context: &FilterContext,
    s: Seq<(String, String, String)>) -> bool
{
    exists|v: Vec<(String, String, String)>| call_ensures(T::get_entries, (f, html, context), v) && v@ == s
}

/// What a filter's `get_entries` gives for the page and context.
pub(crate) fn entries_from<T: Filter + ?Sized>(f: &T, html: &str, context: &FilterContext) -> (res: Vec<(String, String, String)>)
    ensures
        filter_gives_entries(f, html, context, res@),
{
    let getter = T::get_entries;
    let res = getter(f, html, context);
    assert(call_ensures(T::get_entries, (f, html, context), res));
    res
}

/// Says what entry a page stands for. Implemented by each documentation
/// set; nothing is assumed of what it answers.
pub trait EntryDefinitionProvider {
    /// The name of the entry for the page, if it has one.
    fn get_entry_name(&self, document: &HtmlParser, context: &FilterContext) -> Option<String>;

    /// The type of the entry with that name.
    fn get_entry_type(&self, name: &str, context: &FilterContext) -> Option<String>;
}

/// The page is the root of the documentation set: no path, `/`, or the root path.
pub open spec fn is_root_page_of(current_path: Seq<char>, root_path: Option<Seq<char>>) -> bool {
    current_path.len() == 0 || current_path == "/"@ || root_path == Some(current_path)
}

/// The entry that a name, a path and a type make, trimmed as `Entry::new` does.
pub open spec fn made_entry(name: Seq<char>, path: Seq<char>, entry_type: Option<Seq<char>>) -> EntryView {
    EntryView { name: cleaned(Some(name)), path: Some(path), entry_type: cleaned(entry_type) }
}

/// `Entry::new` accepts the entry.
pub open spec fn acceptable(e: EntryView) -> bool {
    view_is_root(e) || (filled(e.name) && filled(e.path) && filled(e.entry_type))
}

/// What recording an entry named `name` of type `entry_type` does to a
/// context and what it gives: without a name, the page and nothing added;
/// otherwise the entry that the name, the current path and the type make,
/// added, or the error saying why it is not a valid entry.
pub open spec fn entry_recorded(html: Seq<char>, before: FilterContext, after: FilterContext, res: Result<String>,
    name: Option<Seq<char>>, entry_type: Option<Seq<char>>) -> bool
{
    &&& after.current_path == before.current_path
    &&& after.root_path == before.root_path
    &&& match name {
        None => res matches Ok(h) && h@ == html
            && entry_views(after.entries@) == entry_views(before.entries@),
        Some(n) => {
            let e = made_entry(n, before.current_path@, entry_type);
            if acceptable(e) {
                res matches Ok(h) && h@ == html
                    && entry_views(after.entries@) == entry_views(before.entries@).push(e)
            } else {
                res matches Err(Error::Entry(_))
                    && entry_views(after.entries@) == entry_views(before.entries@)
            }
        },
    }
}

/// Records each page but the root as an entry, named and typed by a provider.
pub struct GenericEntriesFilter<P> {
    provider: P,
}

impl<P: EntryDefinitionProvider> GenericEntriesFilter<P> {
    /// A filter asking `provider`.
    pub fn new(provider: P) -> (res: Self)
        ensures
            res.provider() == provider,
    {
        GenericEntriesFilter { provider }
    }

    /// The provider asked.
    pub closed spec fn provider(&self) -> P {
        self.provider
    }

    /// Records the entry for the current page from what the provider
    /// answered: nothing without a name; otherwise the entry that the name,
    /// the current path and the type make, or the error saying why it is
    /// not a valid entry. The page is handed on unchanged.
    pub fn record_entry(html: &str, context: &mut FilterContext, name: Option<String>, entry_type: Option<String>)
        -> (res: Result<String>)
        ensures
            final(context).current_path == old(context).current_path,
            final(context).root_path == old(context).root_path,
            match name {
                None => res matches Ok(h) && h@ == html@
                    && entry_views(final(context).entries@) == entry_views(old(context).entries@),
                Some(n) => {
                    let e = made_entry(n@, old(context).current_path@, opt_view(entry_type));
                    if acceptable(e) {
                        res matches Ok(h) && h@ == html@
                            && entry_views(final(context).entries@) == entry_views(old(context).entries@).push(e)
                    } else {
                        res matches Err(Error::Entry(_))
                            && entry_views(final(context).entries@) == entry_views(old(context).entries@)
                    }
                },
            },
            entry_recorded(html@, *old(context), *final(context), res, opt_view(name), opt_view(entry_type)),
    {
        match name {
            None => Ok(copy_str(html)),
            Some(n) => {
                let path = copy_str(context.current_path.as_str());
                match Entry::new(Some(n), Some(path), entry_type) {
                    Ok(entry) => {
                        let ghost before = entry_views(context.entries@);
                        context.entries.push(entry);
                        assert(entry_views(context.entries@) =~= before.push(entry@));
                        Ok(copy_str(html))
                    },
                    Err(e) => Err(Error::Entry(e)),
                }
            },
        }
    }

    /// Asks the provider for the entry of the current page, unless it is the
    /// root page, and records it.
    pub fn apply(&self, html: &str, context: &mut FilterContext) -> (res: Result<String>)
        ensures
            final(context).current_path == old(context).current_path,
            is_root_page_of(old(context).current_path@, opt_view(old(context).root_path)) ==> (
                res matches Ok(h) && h@ == html@
                && entry_views(final(context).entries@) == entry_views(old(context).entries@)),
            !is_root_page_of(old(context).current_path@, opt_view(old(context).root_path)) ==> exists|
                d: HtmlParser, n: Option<String>, t: Option<String>|
                #![trigger call_ensures(P::get_entry_name, (&self.provider(), &d, &*old(context)), n), opt_view(t)]
                {
                    &&& d@ == html@
                    &&& call_ensures(P::get_entry_name, (&self.provider(), &d, &*old(context)), n)
                    &&& match n {
                        Some(nm) => exists|q: &str| q@ == nm@
                            && #[trigger] call_ensures(P::get_entry_type, (&self.provider(), q, &*old(context)), t),
                        None => t is None,
                    }
                    &&& entry_recorded(html@, *old(context), *final(context), res, opt_view(n), opt_view(t))
                },
    {
        let root_page = context.current_path.as_str().is_empty()
            || crate::text::str_eq(context.current_path.as_str(), "/")
            || match &context.root_path {
                Some(rp) => crate::text::str_eq(rp.as_str(), context.current_path.as_str()),
                None => false,
            };
        if root_page {
            return GenericEntriesFilter::<P>::record_entry(html, context, None, None);
        }
        let ghost ctx0 = *context;
        let document = HtmlParser::new(html);
        let name_of = P::get_entry_name;
        let name = name_of(&self.provider, &document, &*context);
        assert(call_ensures(P::get_entry_name, (&self.provider, &document, &ctx0), name));
        let type_of = P::get_entry_type;
        let entry_type = match &name {
            Some(n) => {
                let q = n.as_str();
                let t = type_of(&self.provider, q, &*context);
                assert(call_ensures(P::get_entry_type, (&self.provider, q, &ctx0), t));
                assert(exists|q2: &str| q2@ == n@ && #[trigger] call_ensures(P::get_entry_type, (&self.provider, q2, &ctx0), t));
                t
            },
            None => None,
        };
        let ghost gn = name;
        let ghost gt = entry_type;
        let res = GenericEntriesFilter::<P>::record_entry(html, context, name, entry_type);
        proof {
            assert(ctx0 == *old(context));
            assert(self.provider() == self.provider);
            assert(match gn {
                Some(nm) => exists|q: &str| q@ == nm@
                    && #[trigger] call_ensures(P::get_entry_type, (&self.provider(), q, &*old(context)), gt),
                None => gt is None,
            });
            assert(document@ == html@);
            assert(call_ensures(P::get_entry_name, (&self.provider(), &document, &*old(context)), gn));
            assert(entry_recorded(html@, *old(context), *context, res, opt_view(gn), opt_view(gt)));
        }
        res
    }
}

impl<P: EntryDefinitionProvider> Filter for GenericEntriesFilter<P> {
    fn apply(&self, html: &str, context: &mut FilterContext) -> Result<String> {
        GenericEntriesFilter::<P>::apply(self, html, context)
    }

    fn get_entries(&self, _html: &str, _context: &FilterContext) -> Vec<(String, String, String)> {
        Vec::new()
    }
}

} // verus!
