//! A filter's view of the page it works on: the page, the URLs around it,
//! and the tests on link text that filters share.

use vstd::prelude::*;
use crate::text::{copy_str, chars_of, push_char, to_lowercase, lowercase, str_eq, string_from_range, contains_seq};
use crate::strs::{has_prefix, starts_with, contains_str, strip_leading,
    strip_trailing, trim_start_char, trim_end_str, starts_with_char};
use crate::urls::{ParsedUrl, url_scheme, url_domain, url_port, url_path};
use crate::url_scraper::views;

verus! {

/// What a filter knows of the documentation set and the page.
pub struct FilterContext {
    pub base_url: Option<ParsedUrl>,
    pub links: Option<Vec<String>>,
    pub url: Option<ParsedUrl>,
    pub root_url: Option<ParsedUrl>,
    pub root_path: Option<String>,
    pub version: Option<String>,
    pub release: Option<String>,
    pub initial_paths: Vec<String>,
}

impl Default for FilterContext {
    /// A context with nothing set.
    fn default() -> (res: Self)
        ensures
            res.base_url is None,
            res.url is None,
            res.root_path is None,
            res.initial_paths@.len() == 0,
    {
        FilterContext {
            base_url: None,
            links: None,
            url: None,
            root_url: None,
            root_path: None,
            version: None,
            release: None,
            initial_paths: Vec::new(),
        }
    }
}

/// A directory path: the path itself when it ends with `/`, else with one.
pub open spec fn dir_form(p: Seq<char>) -> Seq<char> {
    if p.len() > 0 && p.last() == '/' { p } else { p.push('/') }
}

/// The path of `url` under `base`, ignoring case: empty for the base
/// itself, the rest of the path for a URL in the base's directory, and
/// nothing (empty) for a URL of another origin or outside the directory, or
/// where the base's path is the longer one.
pub open spec fn subpath_between(base: Seq<char>, url: Seq<char>) -> Seq<char> {
    if url_scheme(url) == url_scheme(base) && url_domain(url) == url_domain(base) && url_port(url) == url_port(base) {
        let b = lowercase(url_path(base));
        let d = lowercase(url_path(url));
        if b == d {
            Seq::empty()
        } else if has_prefix(d, dir_form(b)) && url_path(base).len() <= url_path(url).len() {
            url_path(url).skip(url_path(base).len() as int)
        } else {
            Seq::empty()
        }
    } else {
        Seq::empty()
    }
}

/// A path with `!`, `;` and `:` as `-` and `+` as `_`.
pub open spec fn cleaned_path(p: Seq<char>) -> Seq<char> {
    p.map_values(|c: char| if c == '!' || c == ';' || c == ':' { '-' } else if c == '+' { '_' } else { c })
}

/// A link that is only a fragment.
pub open spec fn is_fragment(s: Seq<char>) -> bool {
    s.len() > 0 && s[0] == '#'
}

/// A `data:` link.
pub open spec fn is_data(s: Seq<char>) -> bool {
    has_prefix(s, "data:"@)
}

/// An absolute link: one with `://` in it, or one starting with `//`.
pub open spec fn is_absolute(s: Seq<char>) -> bool {
    contains_seq(s, "://"@) || has_prefix(s, "//"@)
}

/// The page's URL text, as the view of an optional parsed URL.
pub open spec fn url_text(u: Option<ParsedUrl>) -> Option<Seq<char>> {
    match u {
        Some(x) => Some(x@),
        None => None,
    }
}

/// A filter working on one page.
pub struct Filter {
    pub doc: String,
    pub context: FilterContext,
}

impl Filter {
    /// The path of the current page under the base URL, or nothing.
    pub open spec fn spec_subpath(&self) -> Seq<char> {
        match (url_text(self.context.base_url), url_text(self.context.url)) {
            (Some(b), Some(u)) => subpath_between(b, u),
            _ => Seq::empty(),
        }
    }

    /// The current page is the root: no path, `/`, or the root path.
    pub open spec fn spec_is_root_page(&self) -> bool {
        let s = self.spec_subpath();
        s.len() == 0 || s == "/"@ || (self.context.root_path matches Some(r) && r@ == s)
    }

    /// A filter on the page with the context.
    pub fn new(html: &str, context: FilterContext) -> (res: Self)
        ensures
            res.doc@ == html@,
            res.context == context,
    {
        Filter { doc: copy_str(html), context }
    }

    /// The base URL.
    pub fn base_url(&self) -> (res: Option<&ParsedUrl>)
        ensures
            url_text(match res { Some(u) => Some(*u), None => None }) == url_text(self.context.base_url),
    {
        match &self.context.base_url {
            Some(u) => Some(u),
            None => None,
        }
    }

    /// The links.
    pub fn links(&self) -> (res: Option<&Vec<String>>)
        ensures
            match res { Some(l) => self.context.links == Some(*l), None => self.context.links is None },
    {
        match &self.context.links {
            Some(l) => Some(l),
            None => None,
        }
    }

    /// The URL of the current page.
    pub fn current_url(&self) -> (res: Option<&ParsedUrl>)
        ensures
            url_text(match res { Some(u) => Some(*u), None => None }) == url_text(self.context.url),
    {
        match &self.context.url {
            Some(u) => Some(u),
            None => None,
        }
    }

    /// The root URL.
    pub fn root_url(&self) -> (res: Option<&ParsedUrl>)
        ensures
            url_text(match res { Some(u) => Some(*u), None => None }) == url_text(self.context.root_url),
    {
        match &self.context.root_url {
            Some(u) => Some(u),
            None => None,
        }
    }

    /// The root path.
    pub fn root_path(&self) -> (res: Option<&String>)
        ensures
            match res { Some(r) => self.context.root_path == Some(*r), None => self.context.root_path is None },
    {
        match &self.context.root_path {
            Some(r) => Some(r),
            None => None,
        }
    }

    /// The version.
    pub fn version(&self) -> (res: Option<&String>)
        ensures
            match res { Some(v) => self.context.version == Some(*v), None => self.context.version is None },
    {
        match &self.context.version {
            Some(v) => Some(v),
            None => None,
        }
    }

    /// The release.
    pub fn release(&self) -> (res: Option<&String>)
        ensures
            match res { Some(v) => self.context.release == Some(*v), None => self.context.release is None },
    {
        match &self.context.release {
            Some(v) => Some(v),
            None => None,
        }
    }

    /// The path of the current page under the base URL, or nothing.
    pub fn subpath(&self) -> (res: String)
        ensures
            res@ == self.spec_subpath(),
    {
        match &self.context.url {
            Some(u) => self.subpath_to(u),
            None => String::new(),
        }
    }

    /// The path of a URL under the base URL, ignoring case; nothing without
    /// a base, or for a URL that is not under it.
    pub fn subpath_to(&self, url: &ParsedUrl) -> (res: String)
        ensures
            res@ == match url_text(self.context.base_url) {
                Some(b) => subpath_between(b, url@),
                None => Seq::<char>::empty(),
            },
    {
        let base = match &self.context.base_url {
            Some(b) => b,
            None => {
                return String::new();
            },
        };
        let same_domain = match (url.domain(), base.domain()) {
            (Some(a), Some(b)) => str_eq(a.as_str(), b.as_str()),
            (None, None) => true,
            _ => false,
        };
        let s1 = url.scheme();
        let s2 = base.scheme();
        if !(same_domain && url.port_or_known_default() == base.port_or_known_default()
            && str_eq(s1.as_str(), s2.as_str())) {
            return String::new();
        }
        let base_path = base.path();
        let dest_path = url.path();
        let b = to_lowercase(base_path.as_str());
        let d = to_lowercase(dest_path.as_str());
        if str_eq(b.as_str(), d.as_str()) {
            return String::new();
        }
        let mut dir = copy_str(b.as_str());
        if !crate::strs::ends_with_char(b.as_str(), '/') {
            push_char(&mut dir, '/');
        }
        assert(dir@ == dir_form(b@));
        if starts_with(d.as_str(), dir.as_str()) {
            let v = chars_of(dest_path.as_str());
            let n = chars_of(base_path.as_str()).len();
            if n <= v.len() {
                let r = string_from_range(&v, n, v.len());
                assert(r@ =~= dest_path@.skip(base_path@.len() as int));
                r
            } else {
                String::new()
            }
        } else {
            String::new()
        }
    }

    /// The slug of the current page: its path without leading slashes and
    /// without a `.html` ending.
    pub fn slug(&self) -> (res: String)
        ensures
            res@ == strip_trailing(strip_leading(self.spec_subpath(), '/'), ".html"@),
    {
        let sub = self.subpath();
        let t = trim_start_char(sub.as_str(), '/');
        trim_end_str(t.as_str(), ".html")
    }

    /// Whether the current page is the root page.
    pub fn is_root_page(&self) -> (r: bool)
        ensures
            r == self.spec_is_root_page(),
    {
        let sub = self.subpath();
        sub.as_str().is_empty() || str_eq(sub.as_str(), "/") || match &self.context.root_path {
            Some(r) => str_eq(r.as_str(), sub.as_str()),
            None => false,
        }
    }

    /// Whether the current page is the root page or one of the initial paths.
    pub fn is_initial_page(&self) -> (r: bool)
        ensures
            r == (self.spec_is_root_page() || views(self.context.initial_paths@).contains(self.spec_subpath())),
    {
        if self.is_root_page() {
            return true;
        }
        let sub = self.subpath();
        let mut i: usize = 0;
        while i < self.context.initial_paths.len()
            invariant
                0 <= i <= self.context.initial_paths.len(),
                sub@ == self.spec_subpath(),
                forall|j: int| 0 <= j < i ==> self.context.initial_paths@[j]@ != sub@,
            decreases self.context.initial_paths.len() - i,
        {
            if str_eq(self.context.initial_paths[i].as_str(), sub.as_str()) {
                assert(views(self.context.initial_paths@)[i as int] == sub@);
                return true;
            }
            i = i + 1;
        }
        proof {
            if views(self.context.initial_paths@).contains(sub@) {
                let j = choose|j: int| 0 <= j < views(self.context.initial_paths@).len()
                    && views(self.context.initial_paths@)[j] == sub@;
                assert(self.context.initial_paths@[j]@ == sub@);
            }
        }
        false
    }

    /// Whether the link is only a fragment.
    pub fn is_fragment_url_string(&self, s: &str) -> (r: bool)
        ensures
            r == is_fragment(s@),
    {
        starts_with_char(s, '#')
    }

    /// Whether the link is a `data:` URL.
    pub fn is_data_url_string(&self, s: &str) -> (r: bool)
        ensures
            r == is_data(s@),
    {
        starts_with(s, "data:")
    }

    /// Whether the link is relative: not absolute, not a fragment, not data.
    pub fn is_relative_url_string(&self, s: &str) -> (r: bool)
        ensures
            r == (!is_absolute(s@) && !is_fragment(s@) && !is_data(s@)),
    {
        !self.is_absolute_url_string(s) && !self.is_fragment_url_string(s) && !self.is_data_url_string(s)
    }

    /// Whether the link is absolute.
    pub fn is_absolute_url_string(&self, s: &str) -> (r: bool)
        ensures
            r == is_absolute(s@),
    {
        contains_str(s, "://") || starts_with(s, "//")
    }

    /// A path with `!`, `;` and `:` as `-` and `+` as `_`.
    pub fn clean_path(&self, path: &str) -> (res: String)
        ensures
            res@ == cleaned_path(path@),
    {
        let v = chars_of(path);
        let mut out = String::new();
        let mut i: usize = 0;
        while i < v.len()
            invariant
                0 <= i <= v.len(),
                v@ == path@,
                out@ == cleaned_path(path@).take(i as int),
            decreases v.len() - i,
        {
            let c = v[i];
            let k = if c == '!' || c == ';' || c == ':' { '-' } else if c == '+' { '_' } else { c };
            push_char(&mut out, k);
            assert(cleaned_path(path@).take(i + 1) =~= cleaned_path(path@).take(i as int).push(k));
            i = i + 1;
        }
        assert(cleaned_path(path@).take(v.len() as int) =~= cleaned_path(path@));
        out
    }
}

} // verus!
