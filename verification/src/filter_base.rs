//! What a filter knows of the page it works on.

use vstd::prelude::*;
use crate::keyed::{keyed_map, distinct_keyed, put_keyed, get_keyed};
use crate::text::{copy_str, str_eq};
use crate::strs::{strip_leading, strip_trailing, trim_start_char, trim_end_str};

verus! {

/// The page a filter works on, and the settings of the documentation set.
#[derive(Debug, Clone)]
pub struct FilterContext {
    pub current_path: String,
    pub current_url: String,
    pub base_url: String,
    pub root_url: String,
    pub root_path: String,
    pub links: Vec<(String, String)>,
    pub version: Option<String>,
    pub release: Option<String>,
    pub initial_paths: Vec<String>,
    pub options: Vec<(String, String)>,
}

/// The path of a page: its path with no leading slash and no `.html` ending.
pub open spec fn page_slug(path: Seq<char>) -> Seq<char> {
    strip_trailing(strip_leading(path, '/'), ".html"@)
}

impl FilterContext {
    /// No option is stored twice.
    pub open spec fn wf(&self) -> bool {
        distinct_keyed(self.options@)
    }

    /// The options, by name.
    pub open spec fn options_map(&self) -> Map<Seq<char>, Seq<char>> {
        keyed_map(self.options@).map_values(|v: String| v@)
    }

    /// Whether this is the root page: no path, `/`, or the root path.
    pub open spec fn spec_is_root_page(&self) -> bool {
        self.current_path@.len() == 0 || self.current_path@ == "/"@ || self.current_path@ == self.root_path@
    }

    /// A context with every field empty.
    pub fn new() -> (res: Self)
        ensures
            res.wf(),
            res.current_path@.len() == 0,
            res.current_url@.len() == 0,
            res.base_url@.len() == 0,
            res.root_url@.len() == 0,
            res.root_path@.len() == 0,
            res.links@.len() == 0,
            res.version is None,
            res.release is None,
            res.initial_paths@.len() == 0,
            res.options@.len() == 0,
    {
        FilterContext {
            current_path: String::new(),
            current_url: String::new(),
            base_url: String::new(),
            root_url: String::new(),
            root_path: String::new(),
            links: Vec::new(),
            version: None,
            release: None,
            initial_paths: Vec::new(),
            options: Vec::new(),
        }
    }

    /// The path of the current page.
    pub fn subpath(&self) -> (res: &str)
        ensures
            res@ == self.current_path@,
    {
        self.current_path.as_str()
    }

    /// Whether this is the root page: no path, `/`, or the root path.
    pub fn is_root_page(&self) -> (r: bool)
        ensures
            r == self.spec_is_root_page(),
    {
        self.current_path.as_str().is_empty() || str_eq(self.current_path.as_str(), "/")
            || str_eq(self.current_path.as_str(), self.root_path.as_str())
    }

    /// Whether this is the root page or one of the initial paths.
    pub fn is_initial_page(&self) -> (r: bool)
        ensures
            r == (self.spec_is_root_page()
                || exists|i: int| 0 <= i < self.initial_paths@.len() && self.initial_paths@[i]@ == self.current_path@),
    {
        if self.is_root_page() {
            return true;
        }
        let mut i: usize = 0;
        while i < self.initial_paths.len()
            invariant
                0 <= i <= self.initial_paths.len(),
                forall|j: int| 0 <= j < i ==> self.initial_paths@[j]@ != self.current_path@,
            decreases self.initial_paths.len() - i,
        {
            if str_eq(self.initial_paths[i].as_str(), self.current_path.as_str()) {
                return true;
            }
            i = i + 1;
        }
        false
    }

    /// The path of the current page with no leading slash and no `.html` ending.
    pub fn slug(&self) -> (res: String)
        ensures
            res@ == page_slug(self.current_path@),
    {
        let s = trim_start_char(self.current_path.as_str(), '/');
        trim_end_str(s.as_str(), ".html")
    }

    /// The option stored under `key`.
    pub fn get_data(&self, key: &str) -> (res: Option<&String>)
        requires
            self.wf(),
        ensures
            match res {
                Some(v) => self.options_map().contains_key(key@) && v@ == self.options_map()[key@],
                None => !self.options_map().contains_key(key@),
            },
    {
        get_keyed(&self.options, key)
    }

    /// Stores an option, replacing any earlier one of that name.
    pub fn set_data(&mut self, key: &str, value: &str)
        requires
            old(self).wf(),
        ensures
            final(self).wf(),
            final(self).options_map() == old(self).options_map().insert(key@, value@),
            final(self).current_path == old(self).current_path,
            final(self).root_path == old(self).root_path,
            final(self).base_url == old(self).base_url,
    {
        let ghost m0 = keyed_map(self.options@);
        put_keyed(&mut self.options, copy_str(key), copy_str(value));
        assert(self.options_map() =~= old(self).options_map().insert(key@, value@));
    }
}

impl Default for FilterContext {
    fn default() -> (res: Self)
        ensures
            res.wf(),
            res.current_path@.len() == 0,
            res.root_path@.len() == 0,
            res.options@.len() == 0,
    {
        FilterContext::new()
    }
}

} // verus!
