//! A scraper that crawls a documentation site from its base URL.
//!
//! The crawl alternates fetching pages, which the caller does, with the
//! decisions made here: which URL comes next, which links are followed,
//! and what each page adds to the page database and the entry index.

use vstd::prelude::*;
use vstd::string::StringSliceAdditionalSpecFns;
use crate::keyed::{keyed_map, distinct_keyed, put_keyed};
use crate::text::{copy_str, push_str, push_char, chars_of, split_chars, nonempty_parts, split_on, keep_nonempty,
    vviews, str_eq, to_lowercase, lowercase, alphanumeric, is_alphanumeric, contains_seq, string_from_chars};
use crate::strs::{has_prefix, has_suffix, starts_with, ends_with_char, contains_str, contains_char_str,
    strip_trailing_char, trim_end_char, strip_leading, trim_start_char};
use crate::urls::{ParsedUrl, parse_url, url_parsed, url_joined, url_without_fragment, url_domain, url_port,
    url_scheme, url_path};
use crate::html::{css_valid, selected_attrs, select_attrs};
use crate::models::entry::{Entry, EntryView, opt_view, cleaned, filled, view_is_root};
use crate::entry_index::{EntryIndex, EntryIndexView, added};
use crate::page_db::PageDb;
use crate::scraper_filter::{Filter, FilterContext, filter_gives_entries, entries_from, apply_one, filter_applied, chain_ran, filters_ran,
    entries_gathered, filters_entries};
use crate::error::{Error, Result};

verus! {

/// Decides that a link is not followed. Implemented by each documentation
/// set; nothing is assumed of what it answers.
pub trait LinkSkip {
    /// Whether the link is skipped.
    fn skip(&self, href: &str) -> bool;
}

/// The character views of a list of strings.
pub open spec fn views(s: Seq<String>) -> Seq<Seq<char>> {
    s.map_values(|x: String| x@)
}

/// Some pattern occurs in the link.
pub open spec fn pattern_skip(patterns: Seq<Seq<char>>, href: Seq<char>) -> bool {
    exists|i: int| 0 <= i < patterns.len() && contains_seq(href, #[trigger] patterns[i])
}

/// The path of a URL under the base: the parsed URL's path, or the text
/// itself when it is not under the base or does not parse.
pub open spec fn path_to_check(base: Seq<char>, path: Seq<char>) -> Seq<char> {
    if has_prefix(path, base) {
        match url_parsed(path) {
            Ok(ser) => url_path(ser),
            Err(_) => path,
        }
    } else {
        path
    }
}

/// Some pattern is one of the non-empty segments of the path.
pub open spec fn segment_skip(patterns: Seq<Seq<char>>, path: Seq<char>) -> bool {
    exists|i: int, j: int| 0 <= i < patterns.len() && 0 <= j < keep_nonempty(split_on(path, '/')).len()
        && #[trigger] patterns[i] == #[trigger] keep_nonempty(split_on(path, '/'))[j]
}

/// A link with its trailing slash added or removed as the scraper wants:
/// added to one without a `.` where slashes are wanted, removed where not.
pub open spec fn slash_adjusted(s: Seq<char>, trailing_slash: bool) -> Seq<char> {
    if trailing_slash && !(s.len() > 0 && s.last() == '/') && !s.contains('.') {
        s.push('/')
    } else if !trailing_slash && s.len() > 0 && s.last() == '/' {
        s.drop_last()
    } else {
        s
    }
}

/// Where a link of a page leads, when it is followed at all: nowhere for
/// an empty one, a fragment, `mailto:` and `javascript:`; otherwise the link
/// joined to the base URL, without fragment, when it keeps the base's host,
/// port and scheme and starts with the base URL's text.
pub open spec fn link_target(base_ser: Seq<char>, base_text: Seq<char>, trailing_slash: bool, href: Seq<char>)
    -> Option<Seq<char>>
{
    if href.len() == 0 || href[0] == '#' || has_prefix(href, "mailto:"@) || has_prefix(href, "javascript:"@) {
        None
    } else {
        match url_joined(base_ser, href) {
            Ok(j) => {
                let a = url_without_fragment(j);
                if url_domain(a) == url_domain(base_ser) && url_port(a) == url_port(base_ser)
                    && url_scheme(a) == url_scheme(base_ser) && has_prefix(a, base_text) {
                    Some(slash_adjusted(a, trailing_slash))
                } else {
                    None
                }
            },
            Err(_) => None,
        }
    }
}

/// The `k`-th link of a page leads to `link`.
pub open spec fn found_at(hrefs: Seq<Option<Seq<char>>>, k: int, base_text: Seq<char>, trailing_slash: bool,
    link: Seq<char>) -> bool
{
    0 <= k < hrefs.len() && match hrefs[k] {
        Some(h) => match url_parsed(base_text) {
            Ok(b) => link_target(b, base_text, trailing_slash, h) == Some(link),
            Err(_) => false,
        },
        None => false,
    }
}

/// Some link of a page leads to `link`.
pub open spec fn found_on_page(hrefs: Seq<Option<Seq<char>>>, base_text: Seq<char>, trailing_slash: bool,
    link: Seq<char>) -> bool
{
    exists|k: int| found_at(hrefs, k, base_text, trailing_slash, link)
}

/// The links that the first `k` links of a page lead to, in page order and
/// each once, leaving out those that a pattern skips, by text or by path.
pub open spec fn followed_links(hrefs: Seq<Option<Seq<char>>>, base_ser: Seq<char>, base_text: Seq<char>,
    trailing_slash: bool, patterns: Seq<Seq<char>>, k: nat) -> Seq<Seq<char>>
    decreases k,
{
    if k == 0 {
        Seq::empty()
    } else {
        let prev = followed_links(hrefs, base_ser, base_text, trailing_slash, patterns, (k - 1) as nat);
        match hrefs[k - 1] {
            Some(h) => match link_target(base_ser, base_text, trailing_slash, h) {
                Some(t) => if !prev.contains(t) && !pattern_skip(patterns, t)
                    && !segment_skip(patterns, path_to_check(base_text, t)) {
                    prev.push(t)
                } else {
                    prev
                },
                None => prev,
            },
            None => prev,
        }
    }
}

/// The links not yet visited, in order.
pub open spec fn unvisited(links: Seq<Seq<char>>, processed: Seq<Seq<char>>) -> Seq<Seq<char>>
    decreases links.len(),
{
    if links.len() == 0 {
        Seq::empty()
    } else {
        let prev = unvisited(links.drop_last(), processed);
        if processed.contains(links.last()) { prev } else { prev.push(links.last()) }
    }
}

/// The entry a found (name, path, type) makes: name and type trimmed.
pub open spec fn found_entry(x: (String, String, String)) -> EntryView {
    EntryView { name: cleaned(Some(x.0@)), path: Some(x.1@), entry_type: cleaned(Some(x.2@)) }
}

/// The entry is the root, or it has a name, a path and a type.
pub open spec fn valid_entry(e: EntryView) -> bool {
    view_is_root(e) || (filled(e.name) && filled(e.path) && filled(e.entry_type))
}

/// The index after the valid entries that the found triples make are added
/// in turn.
pub open spec fn entries_recorded(v: EntryIndexView, found: Seq<(String, String, String)>) -> EntryIndexView
    decreases found.len(),
{
    if found.len() == 0 {
        v
    } else {
        let before = entries_recorded(v, found.drop_last());
        let e = found_entry(found.last());
        if valid_entry(e) { added(before, e) } else { before }
    }
}

/// The queue a crawl starts with: the base URL, then the URL of each of the
/// first `k` initial paths, in order, leaving out those already queued.
pub open spec fn initial_queue(base: Seq<char>, paths: Seq<Seq<char>>, k: nat) -> Seq<Seq<char>>
    decreases k,
{
    if k == 0 {
        seq![base]
    } else {
        let prev = initial_queue(base, paths, (k - 1) as nat);
        let u = url_for_path(base, paths[k - 1]);
        if prev.contains(u) { prev } else { prev.push(u) }
    }
}

/// The URL stands for one of the initial paths.
pub open spec fn from_initial_path(paths: Seq<String>, base: Seq<char>, url: Seq<char>) -> bool {
    exists|k: int| 0 <= k < paths.len() && url == url_for_path(base, paths[k]@)
}

/// The URL an initial path stands for: the base for none or `/`, an
/// absolute URL as it is, and otherwise the path after the base without
/// its trailing slashes.
pub open spec fn url_for_path(base: Seq<char>, path: Seq<char>) -> Seq<char> {
    if path.len() == 0 || path == "/"@ {
        base
    } else if has_prefix(path, "http"@) {
        path
    } else if path[0] == '/' {
        strip_trailing_char(base, '/') + path
    } else {
        strip_trailing_char(base, '/') + "/"@ + path
    }
}

/// The path a page is stored under: `index` for the base URL itself,
/// otherwise the URL after the base without leading slashes.
pub open spec fn stored_path(base: Seq<char>, url: Seq<char>) -> Seq<char> {
    let raw = if has_prefix(url, base) { url.skip(base.len() as int) } else { url };
    if raw.len() == 0 || raw == "/"@ {
        "index"@
    } else {
        strip_leading(raw, '/')
    }
}

/// The slug form of a version: lowercase, `+` as `p`, `#` as `s`, and `_`
/// for anything but letters, digits, `_` and `.`.
pub open spec fn scraper_version_slug(v: Seq<char>) -> Seq<char> {
    lowercase(v).map_values(|c: char| {
        let s = if c == '+' { 'p' } else if c == '#' { 's' } else { c };
        if alphanumeric(s) || s == '_' || s == '.' { s } else { '_' }
    })
}

/// A queued URL that the crawl passes over: already visited, or skipped
/// by path.
pub open spec fn passed_over(processed: Seq<Seq<char>>, patterns: Seq<Seq<char>>, base: Seq<char>, u: Seq<char>) -> bool {
    processed.contains(u) || segment_skip(patterns, path_to_check(base, u))
}

/// What the crawl holds between pages: the URLs still to visit (the last
/// one first), those visited, and what the pages gave.
pub struct CrawlState {
    pub queue: Vec<String>,
    pub processed: Vec<String>,
    pub page_db: PageDb,
    pub entry_index: EntryIndex,
}

impl CrawlState {
    /// The page database and the entry index keep their invariants.
    pub open spec fn wf(&self) -> bool {
        self.page_db.wf() && self.entry_index.wf()
    }

    /// Stores a processed page under its path and adds the valid entries
    /// that the found (name, path, type) triples make; the queue and the
    /// visited URLs stay as they are.
    pub fn record_page(&mut self, path: String, page: String, found: &Vec<(String, String, String)>)
        requires
            old(self).wf(),
        ensures
            final(self).wf(),
            final(self).page_db@ == old(self).page_db@.insert(path@, page@),
            final(self).entry_index@ == entries_recorded(old(self).entry_index@, found@),
            final(self).queue == old(self).queue,
            final(self).processed == old(self).processed,
    {
        let mut i: usize = 0;
        while i < found.len()
            invariant
                0 <= i <= found.len(),
                self.entry_index.wf(),
                self.page_db == old(self).page_db,
                self.queue == old(self).queue,
                self.processed == old(self).processed,
                self.entry_index@ == entries_recorded(old(self).entry_index@, found@.take(i as int)),
            decreases found.len() - i,
        {
            assert(found@.take(i + 1).drop_last() =~= found@.take(i as int));
            assert(found@.take(i + 1).last() == found@[i as int]);
            let (n, p, t) = (copy_str(found[i].0.as_str()), copy_str(found[i].1.as_str()), copy_str(found[i].2.as_str()));
            match Entry::new(Some(n), Some(p), Some(t)) {
                Ok(entry) => {
                    self.entry_index.add(entry);
                },
                Err(_) => {},
            }
            i = i + 1;
        }
        assert(found@.take(found@.len() as int) =~= found@);
        self.page_db.add(path, page);
    }
}

/// The metadata of a scraped documentation set, without its time stamp.
#[derive(Debug, Clone)]
pub struct MetaRecord {
    pub name: String,
    pub slug: String,
    pub doc_type: String,
    pub links: Option<Vec<(String, String)>>,
    pub version: Option<String>,
    pub db_size: usize,
}

/// A copy of a list of strings.
pub(crate) fn copy_strings(v: &Vec<String>) -> (res: Vec<String>)
    ensures
        views(res@) == views(v@),
{
    let mut out: Vec<String> = Vec::new();
    let mut i: usize = 0;
    while i < v.len()
        invariant
            0 <= i <= v.len(),
            out@.len() == i,
            forall|k: int| 0 <= k < i ==> #[trigger] out@[k]@ == v@[k]@,
        decreases v.len() - i,
    {
        out.push(copy_str(v[i].as_str()));
        i = i + 1;
    }
    assert(views(out@) =~= views(v@));
    out
}

/// A copy of a list of string pairs.
pub(crate) fn copy_pairs(v: &Vec<(String, String)>) -> (res: Vec<(String, String)>)
    ensures
        res@.len() == v@.len(),
        forall|k: int| 0 <= k < v@.len() ==> #[trigger] res@[k].0@ == v@[k].0@ && res@[k].1@ == v@[k].1@,
{
    let mut out: Vec<(String, String)> = Vec::new();
    let mut i: usize = 0;
    while i < v.len()
        invariant
            0 <= i <= v.len(),
            out@.len() == i,
            forall|k: int| 0 <= k < i ==> #[trigger] out@[k].0@ == v@[k].0@ && out@[k].1@ == v@[k].1@,
        decreases v.len() - i,
    {
        out.push((copy_str(v[i].0.as_str()), copy_str(v[i].1.as_str())));
        i = i + 1;
    }
    out
}

/// Whether `x` is in the list.
fn contains_string(v: &Vec<String>, x: &str) -> (r: bool)
    ensures
        r == views(v@).contains(x@),
{
    let mut i: usize = 0;
    while i < v.len()
        invariant
            0 <= i <= v.len(),
            forall|j: int| 0 <= j < i ==> v@[j]@ != x@,
        decreases v.len() - i,
    {
        if str_eq(v[i].as_str(), x) {
            assert(views(v@)[i as int] == x@);
            return true;
        }
        i = i + 1;
    }
    proof {
        if views(v@).contains(x@) {
            let j = choose|j: int| 0 <= j < views(v@).len() && views(v@)[j] == x@;
            assert(v@[j]@ == x@);
        }
    }
    false
}

/// A scraper for the documentation at a base URL.
pub struct UrlScraper {
    pub name: String,
    pub version: String,
    pub base_url: String,
    pub output_path: String,
    pub root_title: Option<String>,
    pub attribution: Option<String>,
    pub links: Vec<(String, String)>,
    pub trailing_slash: bool,
    pub skip_patterns: Vec<String>,
    pub skip_link_fn: Option<Box<dyn LinkSkip>>,
    pub filters: Vec<Box<dyn Filter>>,
    pub initial_paths: Vec<String>,
}

impl UrlScraper {
    /// No link is stored twice.
    pub open spec fn wf(&self) -> bool {
        distinct_keyed(self.links@)
    }

    /// The links, by name.
    pub open spec fn links_map(&self) -> Map<Seq<char>, Seq<char>> {
        keyed_map(self.links@).map_values(|v: String| v@)
    }

    /// A scraper with no links, patterns, filters or skip function, and the
    /// root as its only initial path.
    pub fn new(name: &str, version: &str, base_url: &str, output_path: &str) -> (res: Self)
        ensures
            res.wf(),
            res.name@ == name@,
            res.version@ == version@,
            res.base_url@ == base_url@,
            res.output_path@ == output_path@,
            res.root_title is None,
            res.attribution is None,
            res.links@.len() == 0,
            !res.trailing_slash,
            res.skip_patterns@.len() == 0,
            res.skip_link_fn is None,
            res.filters@.len() == 0,
            views(res.initial_paths@) == seq!["/"@],
    {
        let mut initial_paths: Vec<String> = Vec::new();
        initial_paths.push("/".to_string());
        assert(views(initial_paths@) =~= seq!["/"@]);
        UrlScraper {
            name: copy_str(name),
            version: copy_str(version),
            base_url: copy_str(base_url),
            output_path: copy_str(output_path),
            root_title: None,
            attribution: None,
            links: Vec::new(),
            trailing_slash: false,
            skip_patterns: Vec::new(),
            skip_link_fn: None,
            filters: Vec::new(),
            initial_paths,
        }
    }

    /// The scraper with a root title.
    pub fn with_root_title(self, title: &str) -> (res: Self)
        ensures
            opt_view(res.root_title) == Some(title@),
            res.links == self.links,
    {
        let mut s = self;
        s.root_title = Some(copy_str(title));
        s
    }

    /// The scraper with an attribution.
    pub fn with_attribution(self, attribution: &str) -> (res: Self)
        ensures
            opt_view(res.attribution) == Some(attribution@),
            res.links == self.links,
    {
        let mut s = self;
        s.attribution = Some(copy_str(attribution));
        s
    }

    /// The scraper with the given links added, each replacing any earlier
    /// one of its name.
    pub fn with_string_links(self, links: Vec<(String, String)>) -> (res: Self)
        requires
            self.wf(),
        ensures
            res.wf(),
            res.links_map() == links@.fold_left(self.links_map(),
                |m: Map<Seq<char>, Seq<char>>, kv: (String, String)| m.insert(kv.0@, kv.1@)),
    {
        let mut s = self;
        let mut i: usize = 0;
        while i < links.len()
            invariant
                0 <= i <= links.len(),
                s.wf(),
                s.links_map() == links@.take(i as int).fold_left(self.links_map(),
                    |m: Map<Seq<char>, Seq<char>>, kv: (String, String)| m.insert(kv.0@, kv.1@)),
            decreases links.len() - i,
        {
            let k = copy_str(links[i].0.as_str());
            let v = copy_str(links[i].1.as_str());
            let ghost before = s.links_map();
            put_keyed(&mut s.links, k, v);
            proof {
                assert(s.links_map() =~= before.insert(links@[i as int].0@, links@[i as int].1@));
                assert(links@.take(i + 1).drop_last() =~= links@.take(i as int));
            }
            i = i + 1;
        }
        assert(links@.take(i as int) =~= links@);
        s
    }

    /// The scraper with trailing slashes wanted or not.
    pub fn with_trailing_slash(self, trailing_slash: bool) -> (res: Self)
        ensures
            res.trailing_slash == trailing_slash,
            res.links == self.links,
    {
        let mut s = self;
        s.trailing_slash = trailing_slash;
        s
    }

    /// The scraper with the given skip patterns.
    pub fn with_skip_patterns(self, patterns: Vec<&str>) -> (res: Self)
        ensures
            views(res.skip_patterns@) == patterns@.map_values(|p: &str| p@),
            res.links == self.links,
    {
        let mut s = self;
        let mut out: Vec<String> = Vec::new();
        let mut i: usize = 0;
        while i < patterns.len()
            invariant
                0 <= i <= patterns.len(),
                views(out@) == patterns@.map_values(|p: &str| p@).take(i as int),
            decreases patterns.len() - i,
        {
            let c = copy_str(patterns[i]);
            let ghost before = views(out@);
            out.push(c);
            assert(views(out@) =~= before.push(c@));
            assert(views(out@) =~= patterns@.map_values(|p: &str| p@).take(i + 1));
            i = i + 1;
        }
        assert(patterns@.map_values(|p: &str| p@).take(i as int) =~= patterns@.map_values(|p: &str| p@));
        s.skip_patterns = out;
        s
    }

    /// The scraper with a skip function.
    pub fn with_skip_link(self, skip: Box<dyn LinkSkip>) -> (res: Self)
        ensures
            res.skip_link_fn is Some,
            res.links == self.links,
            res.skip_patterns == self.skip_patterns,
    {
        let mut s = self;
        s.skip_link_fn = Some(skip);
        s
    }

    /// The scraper with one more filter, run after the others.
    pub fn with_filter(self, filter: Box<dyn Filter>) -> (res: Self)
        ensures
            res.filters@ == self.filters@.push(filter),
            res.links == self.links,
    {
        let mut s = self;
        s.filters.push(filter);
        s
    }

    /// The scraper with the given initial paths.
    pub fn with_initial_paths(self, paths: Vec<String>) -> (res: Self)
        ensures
            res.initial_paths == paths,
            res.links == self.links,
    {
        let mut s = self;
        s.initial_paths = paths;
        s
    }

    /// The page after each filter in turn, each given the page the one
    /// before gave and the context as the one before left it; the first
    /// failure stops it. Without filters, the page as it is.
    pub fn apply_filters(&self, html: &str, context: &mut FilterContext) -> (res: Result<String>)
        ensures
            self.filters@.len() == 0 ==> (res matches Ok(h) && h@ == html@ && *final(context) == *old(context)),
            filters_ran(self.filters@, html@, *old(context), *final(context), res),
    {
        let mut result = copy_str(html);
        let ghost mut pages: Seq<Seq<char>> = seq![html@];
        let ghost mut ctxs: Seq<FilterContext> = seq![*context];
        let ghost mut rs: Seq<Result<String>> = Seq::empty();
        let mut i: usize = 0;
        while i < self.filters.len()
            invariant
                0 <= i <= self.filters.len(),
                rs.len() == i && pages.len() == i + 1 && ctxs.len() == i + 1,
                pages[0] == html@ && ctxs[0] == *old(context),
                pages.last() == result@ && ctxs.last() == *context,
                forall|k: int| 0 <= k < rs.len() ==>
                    #[trigger] filter_applied(&*self.filters@[k], pages[k], ctxs[k], rs[k]),
                forall|k: int| 0 <= k < rs.len() ==> #[trigger] rs[k] is Ok,
                forall|k: int| 0 <= k < rs.len() ==> (#[trigger] rs[k] matches Ok(s) ==> s@ == pages[k + 1]),
                i > 0 ==> rs.last() == Ok::<String, Error>(result),
            decreases self.filters.len() - i,
        {
            let ghost c0 = *context;
            let r = apply_one(&*self.filters[i], result.as_str(), context);
            let ghost gr = r;
            proof {
                let p0 = pages;
                let x0 = ctxs;
                let r0 = rs;
                pages = p0.push(match gr { Ok(s) => s@, Err(_) => Seq::<char>::empty() });
                ctxs = x0.push(*context);
                rs = r0.push(gr);
                assert forall|k: int| 0 <= k < rs.len() implies
                    #[trigger] filter_applied(&*self.filters@[k], pages[k], ctxs[k], rs[k]) by {
                    if k < i {
                        assert(rs[k] == r0[k] && pages[k] == p0[k] && ctxs[k] == x0[k]);
                        assert(r0[k] is Ok);
                    } else {
                        assert(pages[k] == result@ && ctxs[k] == c0 && rs[k] == gr);
                    }
                }
                assert forall|k: int| 0 <= k < rs.len() - 1 implies #[trigger] rs[k] is Ok by {
                    assert(rs[k] == r0[k]);
                }
                assert forall|k: int| 0 <= k < rs.len() implies (#[trigger] rs[k] matches Ok(s) ==> s@ == pages[k + 1]) by {
                    if k < i {
                        assert(rs[k] == r0[k] && pages[k + 1] == p0[k + 1]);
                        assert(r0[k] is Ok);
                    }
                }
            }
            match r {
                Ok(h) => {
                    result = h;
                },
                Err(e) => {
                    assert(chain_ran(self.filters@, html@, *old(context), *context, Err(e), pages, ctxs, rs));
                    return Err(e);
                },
            }
            i = i + 1;
        }
        assert(chain_ran(self.filters@, html@, *old(context), *context, Ok::<String, Error>(result), pages, ctxs, rs));
        Ok(result)
    }

    /// The entries that the filters find, filter by filter: what the
    /// filters' `get_entries` give, one after the other. Without filters,
    /// none.
    pub fn get_all_entries(&self, html: &str, context: &FilterContext) -> (res: Vec<(String, String, String)>)
        ensures
            self.filters@.len() == 0 ==> res@.len() == 0,
            exists|outs: Seq<Seq<(String, String, String)>>|
                #[trigger] entries_gathered(self.filters@, html, context, res@, outs),
            filters_entries(self.filters@, html@, *context, res@),
    {
        let mut all: Vec<(String, String, String)> = Vec::new();
        let ghost mut outs: Seq<Seq<(String, String, String)>> = Seq::empty();
        let mut i: usize = 0;
        while i < self.filters.len()
            invariant
                0 <= i <= self.filters.len(),
                outs.len() == i,
                forall|k: int| 0 <= k < outs.len()
                    ==> filter_gives_entries(&*self.filters@[k], html, context, #[trigger] outs[k]),
                all@ == outs.flatten(),
            decreases self.filters.len() - i,
        {
            let mut found = entries_from(&*self.filters[i], html, context);
            let ghost got = found;
            let ghost o0 = outs;
            all.append(&mut found);
            proof {
                o0.lemma_flatten_push(got@);
                outs = o0.push(got@);
                assert forall|k: int| 0 <= k < outs.len()
                    implies filter_gives_entries(&*self.filters@[k], html, context, #[trigger] outs[k]) by {
                    if k == i {
                        assert(got@ == outs[k]);
                    } else {
                        assert(outs[k] == o0[k]);
                    }
                }
            }
            i = i + 1;
        }
        assert(entries_gathered(self.filters@, html, context, all@, outs));
        all
    }

    /// Whether some skip pattern occurs in the link.
    fn skips_by_pattern(&self, href: &str) -> (r: bool)
        ensures
            r == pattern_skip(views(self.skip_patterns@), href@),
    {
        let mut i: usize = 0;
        while i < self.skip_patterns.len()
            invariant
                0 <= i <= self.skip_patterns.len(),
                forall|j: int| 0 <= j < i ==> !contains_seq(href@, #[trigger] views(self.skip_patterns@)[j]),
            decreases self.skip_patterns.len() - i,
        {
            assert(views(self.skip_patterns@)[i as int] == self.skip_patterns@[i as int]@);
            if contains_str(href, self.skip_patterns[i].as_str()) {
                return true;
            }
            i = i + 1;
        }
        false
    }

    /// Whether a link is not followed: the skip function says so, or some
    /// skip pattern occurs in it.
    pub fn should_skip_link(&self, href: &str) -> (r: bool)
        ensures
            pattern_skip(views(self.skip_patterns@), href@) ==> r,
            self.skip_link_fn is None ==> r == pattern_skip(views(self.skip_patterns@), href@),
    {
        match &self.skip_link_fn {
            Some(f) => {
                if f.skip(href) {
                    return true;
                }
            },
            None => {},
        }
        self.skips_by_pattern(href)
    }

    /// Whether a path, or the path of a URL under the base, has a segment
    /// equal to a skip pattern.
    pub fn should_skip_path(&self, path: &str) -> (r: bool)
        ensures
            r == segment_skip(views(self.skip_patterns@), path_to_check(self.base_url@, path@)),
    {
        let to_check: String = if starts_with(path, self.base_url.as_str()) {
            match parse_url(path) {
                Ok(u) => u.path(),
                Err(_) => copy_str(path),
            }
        } else {
            copy_str(path)
        };
        assert(to_check@ == path_to_check(self.base_url@, path@));
        let v = chars_of(to_check.as_str());
        let segments = nonempty_parts(split_chars(&v, '/'));
        let ghost segs = keep_nonempty(split_on(to_check@, '/'));
        let ghost pats = views(self.skip_patterns@);
        assert(vviews(segments@) == segs);
        let mut i: usize = 0;
        while i < self.skip_patterns.len()
            invariant
                0 <= i <= self.skip_patterns.len(),
                pats == views(self.skip_patterns@),
                vviews(segments@) == segs,
                to_check@ == path_to_check(self.base_url@, path@),
                segs == keep_nonempty(split_on(to_check@, '/')),
                forall|a: int, b: int| 0 <= a < i && 0 <= b < segs.len() ==> #[trigger] pats[a] != #[trigger] segs[b],
            decreases self.skip_patterns.len() - i,
        {
            let mut j: usize = 0;
            while j < segments.len()
                invariant
                    0 <= i < self.skip_patterns.len(),
                    0 <= j <= segments.len(),
                    pats == views(self.skip_patterns@),
                    vviews(segments@) == segs,
                    to_check@ == path_to_check(self.base_url@, path@),
                    segs == keep_nonempty(split_on(to_check@, '/')),
                    forall|a: int, b: int| 0 <= a < i && 0 <= b < segs.len() ==> #[trigger] pats[a] != #[trigger] segs[b],
                    forall|b: int| 0 <= b < j ==> pats[i as int] != #[trigger] segs[b],
                decreases segments.len() - j,
            {
                let seg = string_from_chars(&segments[j]);
                assert(segs[j as int] == segments@[j as int]@);
                assert(pats[i as int] == self.skip_patterns@[i as int]@);
                if str_eq(seg.as_str(), self.skip_patterns[i].as_str()) {
                    assert(pats[i as int] == segs[j as int]);
                    assert(segs.len() == segments@.len());
                    assert(pats.len() == self.skip_patterns@.len());
                    assert(0 <= j < keep_nonempty(split_on(to_check@, '/')).len());
                    assert(pats[i as int] == keep_nonempty(split_on(to_check@, '/'))[j as int]);
                    assert(segment_skip(pats, to_check@));
                    return true;
                }
                j = j + 1;
            }
            i = i + 1;
        }
        false
    }

    /// The URL a page is fetched from: an `http…` URL as it is, anything
    /// else after the base URL without its trailing slashes.
    pub fn fetch_url(&self, url: &str) -> (res: String)
        ensures
            res@ == if has_prefix(url@, "http"@) { url@ } else { strip_trailing_char(self.base_url@, '/') + url@ },
    {
        if starts_with(url, "http") {
            copy_str(url)
        } else {
            let mut s = trim_end_char(self.base_url.as_str(), '/');
            push_str(&mut s, url);
            s
        }
    }

    /// Where one link leads, when it is followed at all.
    fn link_target_of(&self, base: &ParsedUrl, href: &str) -> (res: Option<String>)
        ensures
            opt_view(res) == link_target(base@, self.base_url@, self.trailing_slash, href@),
    {
        if href.is_empty() || starts_with_char_str(href, '#') || starts_with(href, "mailto:")
            || starts_with(href, "javascript:") {
            return None;
        }
        let joined = match base.join(href) {
            Ok(j) => j,
            Err(_) => {
                return None;
            },
        };
        let abs = joined.without_fragment();
        let same_domain = match (abs.domain(), base.domain()) {
            (Some(a), Some(b)) => str_eq(a.as_str(), b.as_str()),
            (None, None) => true,
            _ => false,
        };
        if !(same_domain && abs.port_or_known_default() == base.port_or_known_default()) {
            return None;
        }
        let s1 = abs.scheme();
        let s2 = base.scheme();
        if !(str_eq(s1.as_str(), s2.as_str()) && starts_with(abs.as_str(), self.base_url.as_str())) {
            return None;
        }
        let mut link = abs.to_string();
        if self.trailing_slash && !ends_with_char(link.as_str(), '/') && !contains_char_str(link.as_str(), '.') {
            push_char(&mut link, '/');
        } else if !self.trailing_slash && ends_with_char(link.as_str(), '/') {
            let v = chars_of(link.as_str());
            let s = crate::text::string_from_range(&v, 0, v.len() - 1);
            assert(s@ =~= link@.drop_last());
            link = s;
        }
        Some(link)
    }

    /// The internal links of a page, in order and each once: the targets of
    /// its `a[href]` links that are not skipped by function, pattern or path.
    pub fn find_internal_links(&self, html: &str, current_url: &str) -> (res: Vec<String>)
        ensures
            forall|i: int, j: int| 0 <= i < j < res@.len() ==> res@[i]@ != res@[j]@,
            forall|i: int| 0 <= i < res@.len() ==> !pattern_skip(views(self.skip_patterns@), #[trigger] res@[i]@)
                && !segment_skip(views(self.skip_patterns@), path_to_check(self.base_url@, res@[i]@)),
            forall|i: int| 0 <= i < res@.len() ==>
                found_on_page(selected_attrs(html@, "a[href]"@, "href"@), self.base_url@, self.trailing_slash, #[trigger] res@[i]@),
            url_parsed(self.base_url@) is Err ==> res@.len() == 0,
            !css_valid("a[href]"@) ==> res@.len() == 0,
            self.skip_link_fn is None && css_valid("a[href]"@) ==> (url_parsed(self.base_url@) matches Ok(b)
                ==> views(res@) == followed_links(selected_attrs(html@, "a[href]"@, "href"@), b, self.base_url@,
                    self.trailing_slash, views(self.skip_patterns@), selected_attrs(html@, "a[href]"@, "href"@).len())),
            self.skip_link_fn is None ==> views(res@) == self.page_links(html@),
    {
        let mut links: Vec<String> = Vec::new();
        let base = match parse_url(self.base_url.as_str()) {
            Ok(b) => b,
            Err(_) => {
                return links;
            },
        };
        let hrefs = match select_attrs(html, "a[href]", "href") {
            Some(h) => h,
            None => {
                return links;
            },
        };
        let ghost hv = hrefs@.map_values(|o: Option<String>| opt_view(o));
        let mut i: usize = 0;
        while i < hrefs.len()
            invariant
                0 <= i <= hrefs.len(),
                hv == hrefs@.map_values(|o: Option<String>| opt_view(o)),
                hv == selected_attrs(html@, "a[href]"@, "href"@),
                url_parsed(self.base_url@) == Ok::<Seq<char>, Seq<char>>(base@),
                forall|a: int, b: int| 0 <= a < b < links@.len() ==> links@[a]@ != links@[b]@,
                forall|a: int| 0 <= a < links@.len() ==> !pattern_skip(views(self.skip_patterns@), #[trigger] links@[a]@)
                    && !segment_skip(views(self.skip_patterns@), path_to_check(self.base_url@, links@[a]@)),
                forall|a: int| 0 <= a < links@.len() ==>
                    found_on_page(selected_attrs(html@, "a[href]"@, "href"@), self.base_url@, self.trailing_slash, #[trigger] links@[a]@),
                self.skip_link_fn is None ==> views(links@) == followed_links(hv, base@, self.base_url@,
                    self.trailing_slash, views(self.skip_patterns@), i as nat),
            decreases hrefs.len() - i,
        {
            assert(hv[i as int] == opt_view(hrefs@[i as int]));
            let ghost prev_views = views(links@);
            assert(followed_links(hv, base@, self.base_url@, self.trailing_slash, views(self.skip_patterns@),
                (i + 1) as nat) == match hv[i as int] {
                    Some(h) => match link_target(base@, self.base_url@, self.trailing_slash, h) {
                        Some(t) => {
                            let prev = followed_links(hv, base@, self.base_url@, self.trailing_slash,
                                views(self.skip_patterns@), i as nat);
                            if !prev.contains(t) && !pattern_skip(views(self.skip_patterns@), t)
                                && !segment_skip(views(self.skip_patterns@), path_to_check(self.base_url@, t)) {
                                prev.push(t)
                            } else {
                                prev
                            }
                        },
                        None => followed_links(hv, base@, self.base_url@, self.trailing_slash,
                            views(self.skip_patterns@), i as nat),
                    },
                    None => followed_links(hv, base@, self.base_url@, self.trailing_slash,
                        views(self.skip_patterns@), i as nat),
                });
            match &hrefs[i] {
                Some(href) => {
                    match self.link_target_of(&base, href.as_str()) {
                        Some(link) => {
                            let seen = contains_string(&links, link.as_str());
                            if !seen && !self.should_skip_link(link.as_str()) && !self.should_skip_path(link.as_str()) {
                                proof {
                                    if exists|a: int| 0 <= a < links@.len() && links@[a]@ == link@ {
                                        let a = choose|a: int| 0 <= a < links@.len() && links@[a]@ == link@;
                                        assert(views(links@)[a] == link@);
                                    }
                                }
                                let ghost before = links@;
                                links.push(link);
                                proof {
                                    assert(views(links@) =~= prev_views.push(links@[links@.len() - 1]@));
                                    assert(found_at(hv, i as int, self.base_url@, self.trailing_slash, link@));
                                    assert(found_on_page(hv, self.base_url@, self.trailing_slash, link@));
                                    assert forall|a: int| 0 <= a < links@.len() implies
                                        found_on_page(hv, self.base_url@, self.trailing_slash, #[trigger] links@[a]@) by {
                                        if a < before.len() {
                                            assert(links@[a] == before[a]);
                                        }
                                    }
                                }
                            }
                        },
                        None => {},
                    }
                },
                None => {},
            }
            i = i + 1;
        }
        links
    }

    /// The URL an initial path stands for.
    pub fn url_for(&self, path: &str) -> (res: String)
        ensures
            res@ == url_for_path(self.base_url@, path@),
    {
        if path.is_empty() || str_eq(path, "/") {
            return copy_str(self.base_url.as_str());
        }
        if starts_with(path, "http") {
            return copy_str(path);
        }
        let mut s = trim_end_char(self.base_url.as_str(), '/');
        if !starts_with_char_str(path, '/') {
            push_str(&mut s, "/");
        }
        push_str(&mut s, path);
        s
    }

    /// The crawl before the first page: the base URL, then the URL of each
    /// initial path not already queued; nothing visited, nothing stored.
    pub fn start_crawl(&self) -> (st: CrawlState)
        ensures
            st.wf(),
            st.processed@.len() == 0,
            st.page_db@ == Map::<Seq<char>, Seq<char>>::empty(),
            st.entry_index@ == EntryIndex::new_view(),
            st.queue@.len() > 0,
            st.queue@[0]@ == self.base_url@,
            forall|a: int, b: int| 0 <= a < b < st.queue@.len() ==> st.queue@[a]@ != st.queue@[b]@,
            forall|a: int| 1 <= a < st.queue@.len() ==>
                from_initial_path(self.initial_paths@, self.base_url@, #[trigger] st.queue@[a]@),
            views(st.queue@) == initial_queue(self.base_url@, views(self.initial_paths@), self.initial_paths@.len()),
    {
        let mut queue: Vec<String> = Vec::new();
        queue.push(copy_str(self.base_url.as_str()));
        let ghost pv = views(self.initial_paths@);
        assert(views(queue@) =~= initial_queue(self.base_url@, pv, 0));
        let mut i: usize = 0;
        while i < self.initial_paths.len()
            invariant
                0 <= i <= self.initial_paths.len(),
                queue@.len() > 0,
                queue@[0]@ == self.base_url@,
                forall|a: int, b: int| 0 <= a < b < queue@.len() ==> queue@[a]@ != queue@[b]@,
                forall|a: int| 1 <= a < queue@.len() ==>
                    from_initial_path(self.initial_paths@, self.base_url@, #[trigger] queue@[a]@),
                pv == views(self.initial_paths@),
                views(queue@) == initial_queue(self.base_url@, pv, i as nat),
            decreases self.initial_paths.len() - i,
        {
            assert(pv[i as int] == self.initial_paths@[i as int]@);
            let ghost q0 = views(queue@);
            let url = self.url_for(self.initial_paths[i].as_str());
            if !contains_string(&queue, url.as_str()) {
                let ghost before = queue@;
                proof {
                    assert forall|a: int| 0 <= a < before.len() implies before[a]@ != url@ by {
                        if before[a]@ == url@ {
                            assert(views(before)[a] == url@);
                        }
                    }
                }
                proof {
                    assert(from_initial_path(self.initial_paths@, self.base_url@, url@));
                }
                queue.push(url);
                assert(views(queue@) =~= q0.push(views(queue@).last()));
                proof {
                    assert forall|a: int| 1 <= a < queue@.len() implies
                        from_initial_path(self.initial_paths@, self.base_url@, #[trigger] queue@[a]@) by {
                        if a < before.len() {
                            assert(queue@[a] == before[a]);
                        }
                    }
                }
            }
            i = i + 1;
        }
        CrawlState { queue, processed: Vec::new(), page_db: PageDb::new(), entry_index: EntryIndex::new() }
    }

    /// The next URL to fetch: the last queued one not yet visited and not
    /// skipped by path, which is marked visited. URLs passed over leave the
    /// queue.
    pub fn next_url(&self, st: &mut CrawlState) -> (res: Option<String>)
        ensures
            final(st).page_db == old(st).page_db,
            final(st).entry_index == old(st).entry_index,
            views(final(st).queue@).is_prefix_of(views(old(st).queue@)),
            forall|k: int| final(st).queue@.len() < k < old(st).queue@.len() ==>
                passed_over(views(old(st).processed@), views(self.skip_patterns@), self.base_url@,
                    #[trigger] views(old(st).queue@)[k]),
            match res {
                Some(u) => final(st).queue@.len() < old(st).queue@.len()
                    && u@ == old(st).queue@[final(st).queue@.len() as int]@
                    && !views(old(st).processed@).contains(u@)
                    && !segment_skip(views(self.skip_patterns@), path_to_check(self.base_url@, u@))
                    && views(final(st).processed@) == views(old(st).processed@).push(u@),
                None => final(st).queue@.len() == 0 && final(st).processed == old(st).processed,
            },
            visit_step(views(self.skip_patterns@), self.base_url@, views(old(st).processed@), views(final(st).processed@),
                opt_view(res)),
    {
        let ghost q0 = views(st.queue@);
        while st.queue.len() > 0
            invariant
                st.page_db == old(st).page_db,
                st.entry_index == old(st).entry_index,
                st.processed == old(st).processed,
                q0 == views(old(st).queue@),
                views(st.queue@).is_prefix_of(q0),
                forall|k: int| st.queue@.len() <= k < q0.len() ==>
                    passed_over(views(old(st).processed@), views(self.skip_patterns@), self.base_url@, #[trigger] q0[k]),
            decreases st.queue.len(),
        {
            let ghost before = views(st.queue@);
            let url = st.queue.pop().unwrap();
            assert(views(st.queue@) =~= before.drop_last());
            assert(url@ == before[before.len() - 1]);
            assert(q0.subrange(0, before.len() as int)[before.len() - 1] == q0[before.len() - 1]);
            assert(url@ == q0[views(st.queue@).len() as int]);
            if contains_string(&st.processed, url.as_str()) {
                continue;
            }
            if self.should_skip_path(url.as_str()) {
                continue;
            }
            let ghost p0 = views(st.processed@);
            st.processed.push(copy_str(url.as_str()));
            assert(views(st.processed@) =~= p0.push(url@));
            return Some(url);
        }
        None
    }

    /// The path a page is stored under.
    pub fn page_path(&self, url: &str) -> (res: String)
        ensures
            res@ == stored_path(self.base_url@, url@),
    {
        let raw: String = if starts_with(url, self.base_url.as_str()) {
            let v = chars_of(url);
            let b = chars_of(self.base_url.as_str());
            let r = crate::text::string_from_range(&v, b.len(), v.len());
            assert(r@ =~= url@.skip(self.base_url@.len() as int));
            r
        } else {
            copy_str(url)
        };
        if raw.as_str().is_empty() || str_eq(raw.as_str(), "/") {
            "index".to_string()
        } else {
            trim_start_char(raw.as_str(), '/')
        }
    }

    /// The links of a page that the crawl follows, when no skip function is
    /// set: in page order and each once, none skipped by a pattern; none
    /// when the base URL does not parse.
    pub open spec fn page_links(&self, html: Seq<char>) -> Seq<Seq<char>> {
        if css_valid("a[href]"@) {
            match url_parsed(self.base_url@) {
                Ok(b) => followed_links(selected_attrs(html, "a[href]"@, "href"@), b, self.base_url@,
                    self.trailing_slash, views(self.skip_patterns@), selected_attrs(html, "a[href]"@, "href"@).len()),
                Err(_) => Seq::empty(),
            }
        } else {
            Seq::empty()
        }
    }

    /// The context the filters are given for the page at `url`: its stored
    /// path and URL, the base URL as base and root, the initial paths, and
    /// nothing else.
    pub open spec fn crawl_context(&self, url: Seq<char>, c: FilterContext) -> bool {
        &&& c.current_path@ == stored_path(self.base_url@, url)
        &&& c.current_url@ == url
        &&& c.base_url@ == self.base_url@
        &&& c.root_url@ == self.base_url@
        &&& c.root_path is None
        &&& c.entries@.len() == 0
        &&& c.links@.len() == 0
        &&& c.version is None
        &&& c.release is None
        &&& views(c.initial_paths@) == views(self.initial_paths@)
        &&& c.options@.len() == 0
    }

    /// One way handling a page can go: the filters run on its content from
    /// the page's context `c0` to `c1` and give `r`. On failure the crawl is
    /// left as it was and the error returned; otherwise the page they gave
    /// is stored under its path and the valid entries the filters find in
    /// the content (with the context `c1`) are added, the visited URLs
    /// staying as they are.
    pub open spec fn handling_steps(&self, st0: CrawlState, st1: CrawlState, url: Seq<char>, content: Seq<char>,
        res: Result<()>, c0: FilterContext, c1: FilterContext, r: Result<String>,
        es: Seq<(String, String, String)>) -> bool
    {
        &&& self.crawl_context(url, c0)
        &&& filters_ran(self.filters@, content, c0, c1, r)
        &&& match r {
            Err(e) => res matches Err(e2) && e2 == e && st1 == st0,
            Ok(h) => res is Ok && filters_entries(self.filters@, content, c1, es)
                && st1.page_db@ == st0.page_db@.insert(stored_path(self.base_url@, url), h@)
                && st1.entry_index@ == entries_recorded(st0.entry_index@, es)
                && st1.processed == st0.processed,
        }
    }

    /// How handling a page went, in one of the ways it can.
    pub open spec fn page_handled(&self, st0: CrawlState, st1: CrawlState, url: Seq<char>, content: Seq<char>,
        res: Result<()>) -> bool
    {
        exists|c0: FilterContext, c1: FilterContext, r: Result<String>, es: Seq<(String, String, String)>|
            #[trigger] self.handling_steps(st0, st1, url, content, res, c0, c1, r, es)
    }

    /// What a fetched page adds to the crawl: its content after the filters
    /// in the page database under its path, the valid entries the filters
    /// find in the entry index, and its internal links not yet visited and
    /// not skipped at the end of the queue. A failing filter stops it.
    pub fn handle_page(&self, st: &mut CrawlState, url: &str, content: &str) -> (res: Result<()>)
        requires
            old(st).wf(),
        ensures
            final(st).wf(),
            self.page_handled(*old(st), *final(st), url@, content@, res),
            views(old(st).queue@).is_prefix_of(views(final(st).queue@)),
            final(st).processed == old(st).processed,
            forall|k: int| old(st).queue@.len() <= k < final(st).queue@.len() ==>
                !views(old(st).processed@).contains(#[trigger] final(st).queue@[k]@)
                && !pattern_skip(views(self.skip_patterns@), final(st).queue@[k]@)
                && !segment_skip(views(self.skip_patterns@), path_to_check(self.base_url@, final(st).queue@[k]@))
                && found_on_page(selected_attrs(content@, "a[href]"@, "href"@), self.base_url@,
                    self.trailing_slash, final(st).queue@[k]@),
            visit_step(views(self.skip_patterns@), self.base_url@, views(old(st).processed@), views(final(st).processed@), None),
            res is Ok && self.skip_link_fn is None ==> views(final(st).queue@)
                == views(old(st).queue@) + unvisited(self.page_links(content@), views(old(st).processed@)),
            res is Err ==> *final(st) == *old(st),
            res is Ok && self.filters@.len() == 0 ==> final(st).page_db@
                == old(st).page_db@.insert(stored_path(self.base_url@, url@), content@),
            self.filters@.len() == 0 ==> res is Ok && final(st).entry_index@ == old(st).entry_index@,
    {
        let path = self.page_path(url);
        let mut context = FilterContext {
            entries: Vec::new(),
            current_path: copy_str(path.as_str()),
            current_url: copy_str(url),
            base_url: copy_str(self.base_url.as_str()),
            root_url: copy_str(self.base_url.as_str()),
            root_path: None,
            links: Vec::new(),
            version: None,
            release: None,
            initial_paths: copy_strings(&self.initial_paths),
            options: Vec::new(),
        };
        let ghost c0 = context;
        assert(self.crawl_context(url@, c0));
        let r = self.apply_filters(content, &mut context);
        let ghost c1 = context;
        let ghost gr = r;
        let processed_content = match r {
            Ok(h) => h,
            Err(e) => {
                assert(self.handling_steps(*old(st), *st, url@, content@, Err(e), c0, c1, gr, Seq::empty()));
                return Err(e);
            },
        };
        let entries = self.get_all_entries(content, &context);
        let ghost pc = processed_content@;
        st.record_page(path, processed_content, &entries);
        assert(st.page_db@ == old(st).page_db@.insert(stored_path(self.base_url@, url@), pc));
        let ghost db1 = st.page_db;
        let ghost ix1 = st.entry_index;
        let new_links = self.find_internal_links(content, url);
        let ghost lv = views(new_links@);
        let ghost pv = views(old(st).processed@);
        let mut j: usize = 0;
        let ghost q0 = views(st.queue@);
        while j < new_links.len()
            invariant
                0 <= j <= new_links.len(),
                st.page_db == db1,
                st.entry_index == ix1,
                q0 == views(old(st).queue@),
                q0.is_prefix_of(views(st.queue@)),
                st.processed == old(st).processed,
                lv == views(new_links@),
                pv == views(old(st).processed@),
                forall|i: int| 0 <= i < new_links@.len() ==>
                    !segment_skip(views(self.skip_patterns@), path_to_check(self.base_url@, #[trigger] new_links@[i]@))
                    && !pattern_skip(views(self.skip_patterns@), new_links@[i]@)
                    && found_on_page(selected_attrs(content@, "a[href]"@, "href"@), self.base_url@,
                        self.trailing_slash, new_links@[i]@),
                forall|k: int| q0.len() <= k < st.queue@.len() ==>
                    !views(old(st).processed@).contains(#[trigger] st.queue@[k]@)
                    && !pattern_skip(views(self.skip_patterns@), st.queue@[k]@)
                    && !segment_skip(views(self.skip_patterns@), path_to_check(self.base_url@, st.queue@[k]@))
                    && found_on_page(selected_attrs(content@, "a[href]"@, "href"@), self.base_url@,
                        self.trailing_slash, st.queue@[k]@),
                self.skip_link_fn is None ==> views(st.queue@) == q0 + unvisited(lv.take(j as int), pv),
            decreases new_links.len() - j,
        {
            let link = &new_links[j];
            assert(found_on_page(selected_attrs(content@, "a[href]"@, "href"@), self.base_url@,
                self.trailing_slash, new_links@[j as int]@));
            assert(lv.take(j + 1).drop_last() =~= lv.take(j as int));
            assert(lv.take(j + 1).last() == link@);
            let ghost before = views(st.queue@);
            if !contains_string(&st.processed, link.as_str()) && !self.should_skip_link(link.as_str()) {
                st.queue.push(copy_str(link.as_str()));
                assert(views(st.queue@) =~= before.push(link@));
            }
            proof {
                if self.skip_link_fn is None {
                    assert(!pattern_skip(views(self.skip_patterns@), new_links@[j as int]@));
                    assert(views(st.queue@) =~= q0 + unvisited(lv.take(j + 1), pv));
                }
            }
            j = j + 1;
        }
        proof {
            assert(lv.take(lv.len() as int) =~= lv);
            assert(self.handling_steps(*old(st), *st, url@, content@, Ok(()), c0, c1, gr, entries@));
        }
        Ok(())
    }

    /// The slug form of the version.
    pub fn version_slug(&self) -> (res: String)
        ensures
            res@ == if self.version@.len() == 0 { Seq::<char>::empty() } else { scraper_version_slug(self.version@) },
    {
        if self.version.as_str().is_empty() {
            return String::new();
        }
        let lower = to_lowercase(self.version.as_str());
        let v = chars_of(lower.as_str());
        let mut out = String::new();
        let mut i: usize = 0;
        while i < v.len()
            invariant
                0 <= i <= v.len(),
                v@ == lowercase(self.version@),
                out@ == scraper_version_slug(self.version@).take(i as int),
            decreases v.len() - i,
        {
            let c = v[i];
            let s = if c == '+' { 'p' } else if c == '#' { 's' } else { c };
            let k = if is_alphanumeric(s) || s == '_' || s == '.' { s } else { '_' };
            push_char(&mut out, k);
            assert(out@ =~= scraper_version_slug(self.version@).take(i + 1));
            i = i + 1;
        }
        assert(scraper_version_slug(self.version@).take(i as int) =~= scraper_version_slug(self.version@));
        out
    }

    /// The slug of the documentation set: its lowercased name, with `~` and
    /// the version slug when it has a version.
    pub fn meta_slug(&self) -> (res: String)
        ensures
            res@ == if self.version@.len() == 0 {
                lowercase(self.name@)
            } else {
                lowercase(self.name@) + "~"@ + scraper_version_slug(self.version@)
            },
    {
        let mut s = to_lowercase(self.name.as_str());
        if !self.version.as_str().is_empty() {
            push_str(&mut s, "~");
            let vs = self.version_slug();
            push_str(&mut s, vs.as_str());
        }
        s
    }

    /// The metadata of the scraped set: name, slug, type `simple`, the
    /// links (or the base URL as home, or none), the version when there is
    /// one, and the size of the page database's text.
    pub fn meta_record(&self, db_content: &str) -> (res: MetaRecord)
        ensures
            res.name@ == self.name@,
            res.slug@ == if self.version@.len() == 0 {
                lowercase(self.name@)
            } else {
                lowercase(self.name@) + "~"@ + scraper_version_slug(self.version@)
            },
            res.doc_type@ == "simple"@,
            self.links@.len() > 0 ==> (res.links matches Some(l) && l@.len() == self.links@.len()
                && forall|k: int| 0 <= k < l@.len() ==> #[trigger] l@[k].0@ == self.links@[k].0@ && l@[k].1@ == self.links@[k].1@),
            self.links@.len() == 0 && self.base_url@.len() > 0 ==> (res.links matches Some(l) && l@.len() == 1
                && l@[0].0@ == "home"@ && l@[0].1@ == self.base_url@),
            self.links@.len() == 0 && self.base_url@.len() == 0 ==> res.links is None,
            res.version matches Some(v) <==> self.version@.len() > 0,
            res.version matches Some(v) ==> v@ == self.version@,
            res.db_size == db_content.spec_bytes().len() as usize,
    {
        let links = if self.links.len() > 0 {
            Some(copy_pairs(&self.links))
        } else if !self.base_url.as_str().is_empty() {
            let mut l: Vec<(String, String)> = Vec::new();
            l.push(("home".to_string(), copy_str(self.base_url.as_str())));
            Some(l)
        } else {
            None
        };
        let version = if self.version.as_str().is_empty() { None } else { Some(copy_str(self.version.as_str())) };
        MetaRecord {
            name: copy_str(self.name.as_str()),
            slug: self.meta_slug(),
            doc_type: "simple".to_string(),
            links,
            version,
            db_size: db_content.len(),
        }
    }
}

/// Whether `c` starts `s`.
fn starts_with_char_str(s: &str, c: char) -> (r: bool)
    ensures
        r == (s@.len() > 0 && s@[0] == c),
{
    crate::strs::starts_with_char(s, c)
}

/// No text occurs twice.
pub open spec fn no_repeats(s: Seq<Seq<char>>) -> bool {
    forall|i: int, j: int| 0 <= i < j < s.len() ==> s[i] != s[j]
}

/// No page is visited twice: `next_url` adds to the visited URLs only one
/// that is not among them, so a list of visited URLs without repeats keeps
/// none.
pub proof fn lemma_visits_stay_distinct(visited: Seq<Seq<char>>, u: Seq<char>)
    requires
        no_repeats(visited),
        !visited.contains(u),
    ensures
        no_repeats(visited.push(u)),
{
    assert forall|i: int, j: int| 0 <= i < j < visited.push(u).len() implies visited.push(u)[i] != visited.push(u)[j] by {
        if j == visited.len() {
            assert(visited[i] == visited.push(u)[i]);
        }
    }
}

/// One step of a crawl as far as the visited URLs go: a URL fetched next
/// was not visited, is not skipped by path (under the skip patterns and the
/// base URL), and is now the last one visited; a step that fetches nothing
/// leaves the visited URLs as they are.
pub open spec fn visit_step(patterns: Seq<Seq<char>>, base: Seq<char>, before: Seq<Seq<char>>,
    after: Seq<Seq<char>>, fetched: Option<Seq<char>>) -> bool
{
    match fetched {
        Some(u) => !before.contains(u) && after == before.push(u) && !segment_skip(patterns, path_to_check(base, u)),
        None => after == before,
    }
}

/// Along a run of steps, the URLs visited before a step are all still
/// visited after it.
proof fn lemma_visits_grow(patterns: Seq<Seq<char>>, base: Seq<char>, visits: Seq<Seq<Seq<char>>>, fetched: Seq<Option<Seq<char>>>, i: int, j: int)
    requires
        visits.len() == fetched.len() + 1,
        forall|k: int| #![trigger fetched[k]] 0 <= k < fetched.len() ==> visit_step(patterns, base, visits[k], visits[k + 1], fetched[k]),
        0 <= i <= j < visits.len(),
    ensures
        visits[i].is_prefix_of(visits[j]),
    decreases j - i,
{
    if i < j {
        lemma_visits_grow(patterns, base, visits, fetched, i, j - 1);
        assert(visit_step(patterns, base, visits[j - 1], visits[j], fetched[j - 1]));
    }
}

/// A crawl fetches no URL twice, nor one visited before it began, nor one
/// skipped by path: along any run of `next_url` and `handle_page` calls
/// (each a `visit_step` on the visited URLs, with what `next_url` gave), the
/// URLs fetched are all different, none was visited at the start, and none
/// has a path segment equal to a skip pattern.
pub proof fn law_fetched_once(patterns: Seq<Seq<char>>, base: Seq<char>, visits: Seq<Seq<Seq<char>>>, fetched: Seq<Option<Seq<char>>>)
    requires
        visits.len() == fetched.len() + 1,
        forall|k: int| #![trigger fetched[k]] 0 <= k < fetched.len() ==> visit_step(patterns, base, visits[k], visits[k + 1], fetched[k]),
    ensures
        forall|i: int, j: int| 0 <= i < j < fetched.len() && #[trigger] fetched[i] is Some && #[trigger] fetched[j] is Some
            ==> fetched[i] != fetched[j],
        forall|i: int| 0 <= i < fetched.len() && #[trigger] fetched[i] is Some ==> !visits[0].contains(fetched[i]->Some_0),
        forall|i: int| 0 <= i < fetched.len() && #[trigger] fetched[i] is Some
            ==> !segment_skip(patterns, path_to_check(base, fetched[i]->Some_0)),
{
    assert forall|i: int, j: int| 0 <= i < j < fetched.len() && #[trigger] fetched[i] is Some && #[trigger] fetched[j] is Some
        implies fetched[i] != fetched[j] by {
        let u = fetched[i]->Some_0;
        assert(visit_step(patterns, base, visits[i], visits[i + 1], fetched[i]));
        assert(visits[i + 1][visits[i].len() as int] == u);
        lemma_visits_grow(patterns, base, visits, fetched, i + 1, j);
        assert(visits[j][visits[i].len() as int] == u);
        assert(visit_step(patterns, base, visits[j], visits[j + 1], fetched[j]));
        assert(visits[j].contains(u));
    }
    assert forall|i: int| 0 <= i < fetched.len() && #[trigger] fetched[i] is Some implies !visits[0].contains(fetched[i]->Some_0) by {
        let u = fetched[i]->Some_0;
        lemma_visits_grow(patterns, base, visits, fetched, 0, i);
        assert(visit_step(patterns, base, visits[i], visits[i + 1], fetched[i]));
        if visits[0].contains(u) {
            let k = choose|k: int| 0 <= k < visits[0].len() && visits[0][k] == u;
            assert(visits[i][k] == u);
        }
    }
}

/// The base URL, with or without a trailing slash, is stored as `index`.
pub proof fn law_base_stored_as_index(base: Seq<char>)
    ensures
        stored_path(base, base) == "index"@,
        stored_path(base, base + "/"@) == "index"@,
{
    assert(base.take(base.len() as int) =~= base);
    assert(base.skip(base.len() as int) =~= Seq::<char>::empty());
    let b2 = base + "/"@;
    assert(b2.take(base.len() as int) =~= base);
    assert(b2.skip(base.len() as int) =~= "/"@);
}

/// Without trailing slashes wanted, a followed link is the joined URL
/// (without fragment) itself when that does not end with `/`, and that URL
/// without its last `/` when it does: one trailing slash is taken off, none
/// is kept or added, so `guide/` and `guide` lead to one page.
pub proof fn law_no_trailing_slash(base_ser: Seq<char>, base_text: Seq<char>, href: Seq<char>)
    ensures
        link_target(base_ser, base_text, false, href) matches Some(x) ==> (url_joined(base_ser, href) matches Ok(j)
            && ({
                let a = url_without_fragment(j);
                &&& a.len() > 0 && a.last() == '/' ==> x.push('/') == a
                &&& !(a.len() > 0 && a.last() == '/') ==> x == a
            })),
{
    if let Some(x) = link_target(base_ser, base_text, false, href) {
        if let Ok(j) = url_joined(base_ser, href) {
            let a = url_without_fragment(j);
            if a.len() > 0 && a.last() == '/' {
                assert(a.drop_last().push('/') =~= a);
            }
        }
    }
}

/// With trailing slashes wanted, a followed link ends with `/` unless its
/// text holds a `.`.
pub proof fn law_trailing_slash(base_ser: Seq<char>, base_text: Seq<char>, href: Seq<char>)
    ensures
        link_target(base_ser, base_text, true, href) matches Some(x) ==> (x.contains('.') || (x.len() > 0 && x.last() == '/')),
{
    if let Some(x) = link_target(base_ser, base_text, true, href) {
        if let Ok(j) = url_joined(base_ser, href) {
            let a = url_without_fragment(j);
            if !(a.len() > 0 && a.last() == '/') && !a.contains('.') {
                assert(x == a.push('/'));
                assert(x.last() == '/');
            } else if !(a.len() > 0 && a.last() == '/') {
                let k = choose|k: int| 0 <= k < a.len() && a[k] == '.';
                assert(x == a);
                assert(x[k] == '.');
            }
        }
    }
}

} // verus!
