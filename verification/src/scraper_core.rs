//! The plain scraper: a base URL, a root path, initial paths, options and
//! pages stored in advance.

use vstd::prelude::*;
use crate::keyed::{keyed_map, distinct_keyed, put_keyed, get_keyed};
use crate::text::{copy_str, str_eq};
use crate::urls::{ParsedUrl, parse_url, url_parsed};
use crate::scraper_base::{root_url_of, url_for_of, path_urls, initial_urls_of, base_view};
use crate::url_scraper::views;

verus! {

/// The root path as text: empty when there is none.
pub open spec fn root_text(root_path: Option<String>) -> Seq<char> {
    match root_path {
        Some(r) => r@,
        None => Seq::empty(),
    }
}

/// A scraper's settings.
pub struct Scraper {
    pub base_url: Option<ParsedUrl>,
    pub root_path: Option<String>,
    pub initial_paths: Vec<String>,
    pub options: Vec<(String, String)>,
    pub stubs: Vec<(String, String)>,
}

impl Scraper {
    /// No option or stub is stored twice.
    pub open spec fn wf(&self) -> bool {
        distinct_keyed(self.options@) && distinct_keyed(self.stubs@)
    }

    /// The options, by name.
    pub open spec fn options_map(&self) -> Map<Seq<char>, Seq<char>> {
        keyed_map(self.options@).map_values(|v: String| v@)
    }

    /// The pages stored in advance, by path.
    pub open spec fn stubs_map(&self) -> Map<Seq<char>, Seq<char>> {
        keyed_map(self.stubs@).map_values(|v: String| v@)
    }

    /// A scraper with nothing set.
    pub fn new() -> (res: Self)
        ensures
            res.wf(),
            res.base_url is None,
            res.root_path is None,
            res.initial_paths@.len() == 0,
            res.options@.len() == 0,
            res.stubs@.len() == 0,
    {
        Scraper { base_url: None, root_path: None, initial_paths: Vec::new(), options: Vec::new(), stubs: Vec::new() }
    }

    /// Sets the base URL, which must parse.
    pub fn set_base_url(&mut self, url: &str)
        requires
            url_parsed(url@) is Ok,
        ensures
            Ok::<Seq<char>, Seq<char>>(base_view(final(self).base_url).unwrap()) == url_parsed(url@),
            final(self).base_url is Some,
            final(self).root_path == old(self).root_path,
            final(self).initial_paths == old(self).initial_paths,
            final(self).options == old(self).options,
            final(self).stubs == old(self).stubs,
    {
        match parse_url(url) {
            Ok(u) => {
                self.base_url = Some(u);
            },
            Err(_) => {},
        }
    }

    /// Sets the base URL where the text parses; otherwise leaves the
    /// scraper as it is and says so.
    pub fn try_set_base_url(&mut self, url: &str) -> (set: bool)
        ensures
            set == (url_parsed(url@) is Ok),
            set ==> Ok::<Seq<char>, Seq<char>>(base_view(final(self).base_url).unwrap()) == url_parsed(url@),
            !set ==> final(self).base_url == old(self).base_url,
            final(self).root_path == old(self).root_path,
            final(self).initial_paths == old(self).initial_paths,
            final(self).options == old(self).options,
            final(self).stubs == old(self).stubs,
    {
        match parse_url(url) {
            Ok(_) => {
                self.set_base_url(url);
                true
            },
            Err(_) => false,
        }
    }

    /// Sets the root path.
    pub fn set_root_path(&mut self, path: String)
        ensures
            final(self).root_path == Some(path),
            final(self).base_url == old(self).base_url,
            final(self).initial_paths == old(self).initial_paths,
            final(self).options == old(self).options,
            final(self).stubs == old(self).stubs,
    {
        self.root_path = Some(path);
    }

    /// Adds an initial path after the others.
    pub fn add_initial_path(&mut self, path: String)
        ensures
            final(self).initial_paths@ == old(self).initial_paths@.push(path),
            final(self).base_url == old(self).base_url,
            final(self).root_path == old(self).root_path,
            final(self).options == old(self).options,
            final(self).stubs == old(self).stubs,
    {
        self.initial_paths.push(path);
    }

    /// Sets the option under a name.
    pub fn set_option(&mut self, key: String, value: String)
        requires
            old(self).wf(),
        ensures
            final(self).wf(),
            final(self).options_map() == old(self).options_map().insert(key@, value@),
            final(self).stubs == old(self).stubs,
    {
        let ghost kv = key@;
        let ghost vv = value@;
        put_keyed(&mut self.options, key, value);
        assert(self.options_map() =~= old(self).options_map().insert(kv, vv));
    }

    /// The option under a name.
    pub fn get_option(&self, key: &str) -> (res: Option<&String>)
        requires
            self.wf(),
        ensures
            match res {
                Some(v) => self.options_map().contains_key(key@) && v@ == self.options_map()[key@],
                None => !self.options_map().contains_key(key@),
            },
    {
        get_keyed(&self.options, key)
    }

    /// Stores the content of the page at a path in advance.
    pub fn stub(&mut self, path: String, content: String)
        requires
            old(self).wf(),
        ensures
            final(self).wf(),
            final(self).stubs_map() == old(self).stubs_map().insert(path@, content@),
            final(self).options == old(self).options,
    {
        let ghost pv = path@;
        let ghost cv = content@;
        put_keyed(&mut self.stubs, path, content);
        assert(self.stubs_map() =~= old(self).stubs_map().insert(pv, cv));
    }

    /// The base URL.
    pub fn base_url(&self) -> (res: Option<&ParsedUrl>)
        ensures
            base_view(match res { Some(u) => Some(*u), None => None }) == base_view(self.base_url),
    {
        match &self.base_url {
            Some(u) => Some(u),
            None => None,
        }
    }

    /// The root URL: the root path joined to the base, or the base itself.
    pub fn root_url(&self) -> (res: Option<ParsedUrl>)
        ensures
            base_view(res) == root_url_of(base_view(self.base_url), root_text(self.root_path)),
    {
        match &self.base_url {
            Some(b) => {
                match &self.root_path {
                    Some(r) => {
                        if !r.as_str().is_empty() && !str_eq(r.as_str(), "/") {
                            match b.join(r.as_str()) {
                                Ok(j) => Some(j),
                                Err(_) => None,
                            }
                        } else {
                            Some(b.clone_url())
                        }
                    },
                    None => Some(b.clone_url()),
                }
            },
            None => None,
        }
    }

    /// The URL a path stands for.
    pub fn url_for(&self, path: &str) -> (res: Option<String>)
        ensures
            match res {
                Some(u) => url_for_of(base_view(self.base_url), root_text(self.root_path), path@) == Some(u@),
                None => url_for_of(base_view(self.base_url), root_text(self.root_path), path@) is None,
            },
    {
        match &self.base_url {
            Some(b) => {
                if path.is_empty() || str_eq(path, "/") {
                    match self.root_url() {
                        Some(r) => Some(r.to_string()),
                        None => None,
                    }
                } else {
                    match b.join(path) {
                        Ok(j) => Some(j.to_string()),
                        Err(_) => None,
                    }
                }
            },
            None => None,
        }
    }

    /// Where a crawl starts: the root URL, then the URL of each initial path
    /// that has one.
    pub fn initial_urls(&self) -> (res: Vec<String>)
        ensures
            views(res@) == initial_urls_of(base_view(self.base_url), root_text(self.root_path), views(self.initial_paths@)),
    {
        let ghost base = base_view(self.base_url);
        let ghost root = root_text(self.root_path);
        let mut urls: Vec<String> = Vec::new();
        match self.root_url() {
            Some(r) => urls.push(r.to_string()),
            None => {},
        }
        let ghost head = views(urls@);
        assert(head =~= match root_url_of(base, root) {
            Some(r) => seq![r],
            None => Seq::<Seq<char>>::empty(),
        });
        let ghost pv = views(self.initial_paths@);
        let mut i: usize = 0;
        while i < self.initial_paths.len()
            invariant
                0 <= i <= self.initial_paths.len(),
                base == base_view(self.base_url),
                root == root_text(self.root_path),
                pv == views(self.initial_paths@),
                views(urls@) == head + path_urls(base, root, pv, i as int),
            decreases self.initial_paths.len() - i,
        {
            let ghost before = views(urls@);
            match self.url_for(self.initial_paths[i].as_str()) {
                Some(u) => {
                    urls.push(u);
                    assert(views(urls@) =~= before.push(u@));
                },
                None => {},
            }
            proof {
                assert(pv[i as int] == self.initial_paths@[i as int]@);
                assert(views(urls@) =~= head + path_urls(base, root, pv, i + 1));
            }
            i = i + 1;
        }
        urls
    }
}

impl Default for Scraper {
    /// A scraper with nothing set.
    fn default() -> (res: Self)
        ensures
            res.wf(),
            res.base_url is None,
            res.root_path is None,
            res.initial_paths@.len() == 0,
    {
        Scraper::new()
    }
}

} // verus!
