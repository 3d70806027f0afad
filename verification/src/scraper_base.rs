//! The scraper of a documentation set: where it starts, which URL each path
//! stands for, what its filters are told of a page, and the pages it has
//! stored in advance.

use vstd::prelude::*;
use crate::keyed::{keyed_map, distinct_keyed, put_keyed, get_keyed};
use crate::text::{copy_str, push_str, str_eq, chars_of, string_from_range};
use crate::strs::{has_prefix, starts_with};
use crate::urls::{ParsedUrl, parse_url, url_parsed, url_joined, url_path};
use crate::filter_base::FilterContext;
use crate::filter_trait::{Filter, FilterStack, stack_ran, stack_entries};
use crate::url_scraper::{copy_strings, copy_pairs, views};
use crate::error::{Error, Result};

verus! {

/// The root URL: the root path joined to the base, or the base itself when
/// the root path is empty or `/`; none without a base, or where the join fails.
pub open spec fn root_url_of(base: Option<Seq<char>>, root_path: Seq<char>) -> Option<Seq<char>> {
    match base {
        None => None,
        Some(b) => if root_path.len() > 0 && root_path != "/"@ {
            match url_joined(b, root_path) {
                Ok(j) => Some(j),
                Err(_) => None,
            }
        } else {
            Some(b)
        },
    }
}

/// The URL a path stands for: the root URL for none or `/`, otherwise the
/// path joined to the base; none without a base, or where the join fails.
pub open spec fn url_for_of(base: Option<Seq<char>>, root_path: Seq<char>, path: Seq<char>) -> Option<Seq<char>> {
    match base {
        None => None,
        Some(b) => if path.len() == 0 || path == "/"@ {
            root_url_of(base, root_path)
        } else {
            match url_joined(b, path) {
                Ok(j) => Some(j),
                Err(_) => None,
            }
        },
    }
}

/// The URLs of the first `n` paths, leaving out those that have none.
pub open spec fn path_urls(base: Option<Seq<char>>, root_path: Seq<char>, paths: Seq<Seq<char>>, n: int) -> Seq<Seq<char>>
    decreases n,
{
    if n <= 0 {
        Seq::empty()
    } else {
        path_urls(base, root_path, paths, n - 1) + match url_for_of(base, root_path, paths[n - 1]) {
            Some(u) => seq![u],
            None => Seq::empty(),
        }
    }
}

/// Where a crawl starts: the root URL, then the URL of each initial path.
pub open spec fn initial_urls_of(base: Option<Seq<char>>, root_path: Seq<char>, paths: Seq<Seq<char>>) -> Seq<Seq<char>> {
    (match root_url_of(base, root_path) {
        Some(r) => seq![r],
        None => Seq::empty(),
    }) + path_urls(base, root_path, paths, paths.len() as int)
}

/// The path of a page under the base: the page URL's path after the base
/// URL's path; empty without a base, where the URL does not parse, or where
/// its path is not under the base's.
pub open spec fn page_path_of(base: Option<Seq<char>>, url: Seq<char>) -> Seq<char> {
    match base {
        None => Seq::empty(),
        Some(b) => match url_parsed(url) {
            Ok(u) => if has_prefix(url_path(u), url_path(b)) {
                url_path(u).skip(url_path(b).len() as int)
            } else {
                Seq::empty()
            },
            Err(_) => Seq::empty(),
        },
    }
}

/// The base URL of a scraper, as text.
pub open spec fn base_view(base: Option<ParsedUrl>) -> Option<Seq<char>> {
    match base {
        Some(u) => Some(u@),
        None => None,
    }
}

/// A documentation set's scraper.
pub struct Scraper<F> {
    pub name: String,
    pub doc_type: String,
    pub version: String,
    pub release: String,
    pub base_url: Option<ParsedUrl>,
    pub root_path: String,
    pub initial_paths: Vec<String>,
    pub links: Vec<(String, String)>,
    pub html_filters: FilterStack<F>,
    pub text_filters: FilterStack<F>,
    pub options: Vec<(String, String)>,
    pub stubs: Vec<(String, String)>,
}

impl<F: Filter> Scraper<F> {
    /// No link, option or stub is stored twice.
    pub open spec fn wf(&self) -> bool {
        &&& distinct_keyed(self.links@)
        &&& distinct_keyed(self.options@)
        &&& distinct_keyed(self.stubs@)
    }

    /// The links, by name.
    pub open spec fn links_map(&self) -> Map<Seq<char>, Seq<char>> {
        keyed_map(self.links@).map_values(|v: String| v@)
    }

    /// The options, by name.
    pub open spec fn options_map(&self) -> Map<Seq<char>, Seq<char>> {
        keyed_map(self.options@).map_values(|v: String| v@)
    }

    /// The pages stored in advance, by path.
    pub open spec fn stubs_map(&self) -> Map<Seq<char>, Seq<char>> {
        keyed_map(self.stubs@).map_values(|v: String| v@)
    }

    /// The base URL, as text.
    pub open spec fn base_text(&self) -> Option<Seq<char>> {
        base_view(self.base_url)
    }

    /// A scraper with a name and a type, and nothing else set.
    pub fn new(name: &str, doc_type: &str) -> (res: Self)
        ensures
            res.wf(),
            res.name@ == name@,
            res.doc_type@ == doc_type@,
            res.version@.len() == 0,
            res.release@.len() == 0,
            res.base_url is None,
            res.root_path@.len() == 0,
            res.initial_paths@.len() == 0,
            res.links@.len() == 0,
            res.html_filters.filters_view().len() == 0,
            res.text_filters.filters_view().len() == 0,
            res.options@.len() == 0,
            res.stubs@.len() == 0,
    {
        Scraper {
            name: copy_str(name),
            doc_type: copy_str(doc_type),
            version: String::new(),
            release: String::new(),
            base_url: None,
            root_path: String::new(),
            initial_paths: Vec::new(),
            links: Vec::new(),
            html_filters: FilterStack::new(),
            text_filters: FilterStack::new(),
            options: Vec::new(),
            stubs: Vec::new(),
        }
    }

    /// Sets the version.
    pub fn set_version(&mut self, version: &str)
        ensures
            final(self).version@ == version@,
            final(self).name == old(self).name,
            final(self).wf() == old(self).wf(),
    {
        self.version = copy_str(version);
    }

    /// Sets the release.
    pub fn set_release(&mut self, release: &str)
        ensures
            final(self).release@ == release@,
            final(self).version == old(self).version,
            final(self).wf() == old(self).wf(),
    {
        self.release = copy_str(release);
    }

    /// Sets the base URL; an error, and the base left as it was, where the
    /// text does not parse.
    pub fn set_base_url(&mut self, url: &str) -> (res: Result<()>)
        ensures
            final(self).wf() == old(self).wf(),
            final(self).root_path == old(self).root_path,
            final(self).initial_paths == old(self).initial_paths,
            match url_parsed(url@) {
                Ok(u) => res is Ok && final(self).base_text() == Some(u),
                Err(m) => (res matches Err(Error::Message(e)) && e@ == "无效的 URL: "@ + m)
                    && final(self).base_text() == old(self).base_text(),
            },
    {
        match parse_url(url) {
            Ok(u) => {
                self.base_url = Some(u);
                Ok(())
            },
            Err(m) => {
                let mut e = "无效的 URL: ".to_string();
                push_str(&mut e, m.as_str());
                Err(Error::Message(e))
            },
        }
    }

    /// Sets the root path.
    pub fn set_root_path(&mut self, path: &str)
        ensures
            final(self).root_path@ == path@,
            final(self).base_url == old(self).base_url,
            final(self).initial_paths == old(self).initial_paths,
            final(self).wf() == old(self).wf(),
    {
        self.root_path = copy_str(path);
    }

    /// Adds an initial path after the others.
    pub fn add_initial_path(&mut self, path: &str)
        ensures
            views(final(self).initial_paths@) == views(old(self).initial_paths@).push(path@),
            final(self).base_url == old(self).base_url,
            final(self).root_path == old(self).root_path,
            final(self).wf() == old(self).wf(),
    {
        let ghost before = views(self.initial_paths@);
        self.initial_paths.push(copy_str(path));
        assert(views(self.initial_paths@) =~= before.push(path@));
    }

    /// Sets the link under a name.
    pub fn add_link(&mut self, key: &str, url: &str)
        requires
            old(self).wf(),
        ensures
            final(self).wf(),
            final(self).links_map() == old(self).links_map().insert(key@, url@),
    {
        put_keyed(&mut self.links, copy_str(key), copy_str(url));
        assert(self.links_map() =~= old(self).links_map().insert(key@, url@));
    }

    /// Sets the option under a name.
    pub fn set_option(&mut self, key: &str, value: &str)
        requires
            old(self).wf(),
        ensures
            final(self).wf(),
            final(self).options_map() == old(self).options_map().insert(key@, value@),
    {
        put_keyed(&mut self.options, copy_str(key), copy_str(value));
        assert(self.options_map() =~= old(self).options_map().insert(key@, value@));
    }

    /// The option under a name.
    pub fn get_option(&self, key: &str) -> (res: Option<&String>)
        requires
            self.wf(),
        ensures
            match res {
                Some(v) => self.options_map().contains_key(key@) && v@ == self.options_map()[key@],
                None => !self.options_map().contains_key(key@),
            },
    {
        get_keyed(&self.options, key)
    }

    /// Stores the content of the page at a path in advance.
    pub fn add_stub(&mut self, path: &str, content: &str)
        requires
            old(self).wf(),
        ensures
            final(self).wf(),
            final(self).stubs_map() == old(self).stubs_map().insert(path@, content@),
    {
        put_keyed(&mut self.stubs, copy_str(path), copy_str(content));
        assert(self.stubs_map() =~= old(self).stubs_map().insert(path@, content@));
    }

    /// Adds a filter after the HTML filters.
    pub fn add_html_filter(&mut self, filter: F)
        ensures
            final(self).html_filters.filters_view() == old(self).html_filters.filters_view().push(filter),
            final(self).text_filters == old(self).text_filters,
    {
        self.html_filters.push(filter);
    }

    /// Adds a filter after the text filters.
    pub fn add_text_filter(&mut self, filter: F)
        ensures
            final(self).text_filters.filters_view() == old(self).text_filters.filters_view().push(filter),
            final(self).html_filters == old(self).html_filters,
    {
        self.text_filters.push(filter);
    }

    /// The base URL.
    pub fn base_url(&self) -> (res: Option<&ParsedUrl>)
        ensures
            base_view(match res { Some(u) => Some(*u), None => None }) == self.base_text(),
    {
        match &self.base_url {
            Some(u) => Some(u),
            None => None,
        }
    }

    /// The root URL.
    pub fn root_url(&self) -> (res: Option<ParsedUrl>)
        ensures
            base_view(res) == root_url_of(self.base_text(), self.root_path@),
    {
        match &self.base_url {
            Some(b) => {
                if !self.root_path.as_str().is_empty() && !str_eq(self.root_path.as_str(), "/") {
                    match b.join(self.root_path.as_str()) {
                        Ok(j) => Some(j),
                        Err(_) => None,
                    }
                } else {
                    Some(b.clone_url())
                }
            },
            None => None,
        }
    }

    /// The URL a path stands for.
    pub fn url_for(&self, path: &str) -> (res: Option<String>)
        ensures
            match res {
                Some(u) => url_for_of(self.base_text(), self.root_path@, path@) == Some(u@),
                None => url_for_of(self.base_text(), self.root_path@, path@) is None,
            },
    {
        match &self.base_url {
            Some(b) => {
                if path.is_empty() || str_eq(path, "/") {
                    match self.root_url() {
                        Some(r) => Some(r.to_string()),
                        None => None,
                    }
                } else {
                    match b.join(path) {
                        Ok(j) => Some(j.to_string()),
                        Err(_) => None,
                    }
                }
            },
            None => None,
        }
    }

    /// Where a crawl starts: the root URL, then the URL of each initial path
    /// that has one.
    pub fn initial_urls(&self) -> (res: Vec<String>)
        ensures
            views(res@) == initial_urls_of(self.base_text(), self.root_path@, views(self.initial_paths@)),
    {
        let mut urls: Vec<String> = Vec::new();
        match self.root_url() {
            Some(r) => urls.push(r.to_string()),
            None => {},
        }
        let ghost head = views(urls@);
        assert(head =~= match root_url_of(self.base_text(), self.root_path@) {
            Some(r) => seq![r],
            None => Seq::<Seq<char>>::empty(),
        });
        let ghost pv = views(self.initial_paths@);
        let mut i: usize = 0;
        while i < self.initial_paths.len()
            invariant
                0 <= i <= self.initial_paths.len(),
                pv == views(self.initial_paths@),
                views(urls@) == head + path_urls(self.base_text(), self.root_path@, pv, i as int),
            decreases self.initial_paths.len() - i,
        {
            let ghost before = views(urls@);
            match self.url_for(self.initial_paths[i].as_str()) {
                Some(u) => {
                    urls.push(u);
                    assert(views(urls@) =~= before.push(u@));
                },
                None => {},
            }
            proof {
                assert(pv[i as int] == self.initial_paths@[i as int]@);
                assert(views(urls@) =~= head + path_urls(self.base_text(), self.root_path@, pv, i + 1));
            }
            i = i + 1;
        }
        urls
    }

    /// What the filters are told of a page: the base and root URLs (or
    /// nothing), the page URL and its path under the base, the root path,
    /// the initial paths, the version and release when set, and the links.
    pub open spec fn page_context(&self, url: Seq<char>, c: FilterContext) -> bool {
        &&& c.wf()
        &&& c.base_url@ == match self.base_text() { Some(b) => b, None => Seq::<char>::empty() }
        &&& c.root_url@ == match root_url_of(self.base_text(), self.root_path@) {
            Some(r) => r,
            None => Seq::<char>::empty(),
        }
        &&& c.current_url@ == url
        &&& c.current_path@ == page_path_of(self.base_text(), url)
        &&& c.root_path@ == self.root_path@
        &&& views(c.initial_paths@) == views(self.initial_paths@)
        &&& (c.version matches Some(v) <==> self.version@.len() > 0)
        &&& (c.version matches Some(v) ==> v@ == self.version@)
        &&& (c.release matches Some(r) <==> self.release@.len() > 0)
        &&& (c.release matches Some(r) ==> r@ == self.release@)
        &&& c.links@.len() == self.links@.len()
        &&& forall|k: int| #![trigger c.links@[k]] 0 <= k < self.links@.len() ==> c.links@[k].0@ == self.links@[k].0@
            && c.links@[k].1@ == self.links@[k].1@
        &&& c.options@.len() == 0
    }

    /// The context made for the page at `url`.
    pub fn create_context(&self, url: &str) -> (res: FilterContext)
        ensures
            self.page_context(url@, res),
    {
        let mut context = FilterContext::new();
        match &self.base_url {
            Some(b) => context.base_url = b.to_string(),
            None => {},
        }
        match self.root_url() {
            Some(r) => context.root_url = r.to_string(),
            None => {},
        }
        context.current_url = copy_str(url);
        context.root_path = copy_str(self.root_path.as_str());
        context.initial_paths = copy_strings(&self.initial_paths);
        if !self.version.as_str().is_empty() {
            context.version = Some(copy_str(self.version.as_str()));
        }
        if !self.release.as_str().is_empty() {
            context.release = Some(copy_str(self.release.as_str()));
        }
        let pairs = copy_pairs(&self.links);
        assert forall|k: int| #![trigger pairs@[k]] 0 <= k < self.links@.len() implies pairs@[k].0@ == self.links@[k].0@
            && pairs@[k].1@ == self.links@[k].1@ by {
            assert(pairs@[k].0@ == self.links@[k].0@);
        }
        context.links = pairs;
        match &self.base_url {
            Some(b) => {
                match parse_url(url) {
                    Ok(u) => {
                        let up = u.path();
                        let bp = b.path();
                        if starts_with(up.as_str(), bp.as_str()) {
                            let v = chars_of(up.as_str());
                            let n = chars_of(bp.as_str()).len();
                            context.current_path = string_from_range(&v, n, v.len());
                            assert(context.current_path@ =~= up@.skip(bp@.len() as int));
                        }
                    },
                    Err(_) => {},
                }
            },
            None => {},
        }
        assert(views(context.initial_paths@) =~= views(self.initial_paths@));
        assert(context.current_path@ =~= page_path_of(self.base_text(), url@));
        assert(context.root_path@ =~= self.root_path@);
        assert(context.current_url@ =~= url@);
        assert(context.base_url@ =~= match self.base_text() { Some(b) => b, None => Seq::<char>::empty() });
        assert(context.root_url@ =~= match root_url_of(self.base_text(), self.root_path@) {
            Some(r) => r,
            None => Seq::<char>::empty(),
        });
        context
    }

    /// One way the processing of a page can go: the HTML filters run from
    /// the page's context `c0` to `c1` and give `mid`; after them, the text
    /// filters run from `c1` to `c2` on the page they gave; the entries are
    /// what the HTML filters find in the final page with the context `c2`.
    /// A failing filter stops it with its error.
    pub open spec fn processing_steps(&self, html: Seq<char>, url: Seq<char>,
        res: Result<(String, Vec<(String, String, String)>)>, c0: FilterContext, c1: FilterContext,
        c2: FilterContext, mid: Result<String>) -> bool
    {
        &&& self.page_context(url, c0)
        &&& stack_ran(self.html_filters.filters_view(), html, c0, c1, mid)
        &&& match mid {
            Err(e) => res matches Err(e2) && e2 == e,
            Ok(m) => match res {
                Ok((h, es)) => stack_ran(self.text_filters.filters_view(), m@, c1, c2, Ok::<String, Error>(h))
                    && stack_entries(self.html_filters.filters_view(), h@, c2, es@),
                Err(e) => stack_ran(self.text_filters.filters_view(), m@, c1, c2, Err::<String, Error>(e)),
            },
        }
    }

    /// How the processing of a page went, in one of the ways it can.
    pub open spec fn page_processed(&self, html: Seq<char>, url: Seq<char>,
        res: Result<(String, Vec<(String, String, String)>)>) -> bool
    {
        exists|c0: FilterContext, c1: FilterContext, c2: FilterContext, mid: Result<String>|
            #[trigger] self.processing_steps(html, url, res, c0, c1, c2, mid)
    }

    /// A page through the HTML filters, then the text filters, with the
    /// entries the HTML filters find in the result; the first failing filter
    /// stops it. Without filters, the page as it is and no entries.
    pub fn process_html(&self, html: &str, url: &str) -> (res: Result<(String, Vec<(String, String, String)>)>)
        ensures
            self.html_filters.filters_view().len() == 0 && self.text_filters.filters_view().len() == 0
                ==> (res matches Ok((h, e)) && h@ == html@ && e@.len() == 0),
            self.page_processed(html@, url@, res),
    {
        let mut context = self.create_context(url);
        let ghost c0 = context;
        let r1 = self.html_filters.apply(html, &mut context);
        let ghost c1 = context;
        let ghost g1 = r1;
        let processed = match r1 {
            Ok(p) => p,
            Err(e) => {
                assert(self.processing_steps(html@, url@, Err(e), c0, c1, c1, g1));
                return Err(e);
            },
        };
        let r2 = self.text_filters.apply(processed.as_str(), &mut context);
        let ghost c2 = context;
        let text = match r2 {
            Ok(t) => t,
            Err(e) => {
                assert(self.processing_steps(html@, url@, Err(e), c0, c1, c2, g1));
                return Err(e);
            },
        };
        let entries = self.html_filters.get_all_entries(text.as_str(), &context);
        let res = Ok((text, entries));
        assert(self.processing_steps(html@, url@, res, c0, c1, c2, g1));
        res
    }

    /// A page built from the content stored for its path: the error for a
    /// path without URL, the processed stored page, or the error that pages
    /// are not fetched here.
    pub fn build_page(&self, path: &str) -> (res: Result<(String, Vec<(String, String, String)>)>)
        requires
            self.wf(),
        ensures
            url_for_of(self.base_text(), self.root_path@, path@) is None
                ==> (res matches Err(Error::Message(m)) && m@ == "无法构建 URL: "@ + path@),
            url_for_of(self.base_text(), self.root_path@, path@) matches Some(u)
                ==> (!self.stubs_map().contains_key(path@)
                    ==> (res matches Err(Error::Message(m)) && m@ == "未实现的 HTTP 请求: "@ + u)),
            url_for_of(self.base_text(), self.root_path@, path@) is Some && self.stubs_map().contains_key(path@)
                && self.html_filters.filters_view().len() == 0 && self.text_filters.filters_view().len() == 0
                ==> (res matches Ok((h, e)) && h@ == self.stubs_map()[path@] && e@.len() == 0),
            url_for_of(self.base_text(), self.root_path@, path@) matches Some(u)
                ==> (self.stubs_map().contains_key(path@) ==> self.page_processed(self.stubs_map()[path@], u, res)),
    {
        let url = match self.url_for(path) {
            Some(u) => u,
            None => {
                let mut m = "无法构建 URL: ".to_string();
                push_str(&mut m, path);
                return Err(Error::Message(m));
            },
        };
        assert(self.stubs_map().dom() =~= keyed_map(self.stubs@).dom());
        match get_keyed(&self.stubs, path) {
            Some(content) => self.process_html(content.as_str(), url.as_str()),
            None => {
                let mut m = "未实现的 HTTP 请求: ".to_string();
                push_str(&mut m, url.as_str());
                Err(Error::Message(m))
            },
        }
    }

    /// The crawl from the initial URLs: pages are not fetched here, so it
    /// stops at the first URL to visit (the last initial one) with that
    /// error, and succeeds only when there is none.
    pub fn build_pages(&self) -> (res: Result<()>)
        ensures
            ({
                let q = initial_urls_of(self.base_text(), self.root_path@, views(self.initial_paths@));
                &&& q.len() == 0 ==> res is Ok
                &&& q.len() > 0 ==> (res matches Err(Error::Message(m)) && m@ == "未实现的 HTTP 请求: "@ + q.last())
            }),
    {
        let mut queue = self.initial_urls();
        match queue.pop() {
            Some(url) => {
                let mut m = "未实现的 HTTP 请求: ".to_string();
                push_str(&mut m, url.as_str());
                Err(Error::Message(m))
            },
            None => Ok(()),
        }
    }
}

/// A scraper of pages fetched from URLs.
pub struct UrlScraper<F> {
    pub scraper: Scraper<F>,
}

impl<F: Filter> UrlScraper<F> {
    /// A URL scraper with a name and a type.
    pub fn new(name: &str, doc_type: &str) -> (res: Self)
        ensures
            res.scraper.wf(),
            res.scraper.name@ == name@,
            res.scraper.doc_type@ == doc_type@,
            res.scraper.base_url is None,
            res.scraper.initial_paths@.len() == 0,
    {
        UrlScraper { scraper: Scraper::new(name, doc_type) }
    }
}

/// A scraper of pages read from files.
pub struct FileScraper<F> {
    pub scraper: Scraper<F>,
    pub input_path: String,
}

impl<F: Filter> FileScraper<F> {
    /// A file scraper with a name, a type and the directory it reads.
    pub fn new(name: &str, doc_type: &str, input_path: &str) -> (res: Self)
        ensures
            res.scraper.wf(),
            res.scraper.name@ == name@,
            res.scraper.doc_type@ == doc_type@,
            res.scraper.base_url is None,
            res.input_path@ == input_path@,
    {
        FileScraper { scraper: Scraper::new(name, doc_type), input_path: copy_str(input_path) }
    }
}

/// A runnable scraper. Implemented by each documentation set; nothing is
/// assumed of what it does.
pub trait ScraperTrait<F> {
    /// Runs the scraper.
    fn run(&self) -> Result<()>;

    /// The scraper's name.
    fn name(&self) -> &str;

    /// The version scraped.
    fn version(&self) -> &str;

    /// The underlying scraper.
    fn scraper(&self) -> &Scraper<F>;

    /// The underlying scraper, to change it.
    fn scraper_mut(&mut self) -> &mut Scraper<F>;
}

} // verus!
