//! An HTTP GET request: a parsed URL and the options to send it with. The
//! request is sent by the caller.

use vstd::prelude::*;
use crate::keyed::{keyed_map, distinct_keyed, put_keyed, get_keyed};
use crate::text::copy_str;
use crate::urls::{ParsedUrl, parse_url, url_parsed};
use crate::error::{Error, Result};

verus! {

/// The `User-Agent` sent by default.
pub const DEFAULT_USER_AGENT: &'static str = "DevDocs Rust";

/// The connect timeout, in seconds, used by default.
pub const DEFAULT_CONNECT_TIMEOUT: u64 = 15;

/// How a request is sent.
#[derive(Debug, Clone)]
pub struct RequestOptions {
    pub follow_redirects: bool,
    pub headers: Vec<(String, String)>,
    pub connect_timeout: u64,
    pub timeout: Option<u64>,
}

impl RequestOptions {
    /// No header is stored twice.
    pub open spec fn wf(&self) -> bool {
        distinct_keyed(self.headers@)
    }

    /// The headers, by name.
    pub open spec fn headers_map(&self) -> Map<Seq<char>, Seq<char>> {
        keyed_map(self.headers@).map_values(|v: String| v@)
    }

    /// The header stored under `name`.
    pub fn get_header(&self, name: &str) -> (res: Option<&String>)
        requires
            self.wf(),
        ensures
            match res {
                Some(v) => self.headers_map().contains_key(name@) && v@ == self.headers_map()[name@],
                None => !self.headers_map().contains_key(name@),
            },
    {
        get_keyed(&self.headers, name)
    }

    /// Stores a header, replacing any earlier one of that name.
    pub fn set_header(&mut self, name: &str, value: &str)
        requires
            old(self).wf(),
        ensures
            final(self).wf(),
            final(self).headers_map() == old(self).headers_map().insert(name@, value@),
            final(self).follow_redirects == old(self).follow_redirects,
            final(self).connect_timeout == old(self).connect_timeout,
            final(self).timeout == old(self).timeout,
    {
        put_keyed(&mut self.headers, copy_str(name), copy_str(value));
        assert(self.headers_map() =~= old(self).headers_map().insert(name@, value@));
    }
}

impl Default for RequestOptions {
    /// Redirects followed, the default `User-Agent`, the default connect
    /// timeout and no overall timeout.
    fn default() -> (res: Self)
        ensures
            res.wf(),
            res.follow_redirects,
            res.headers_map() == Map::<Seq<char>, Seq<char>>::empty().insert("User-Agent"@, DEFAULT_USER_AGENT@),
            res.connect_timeout == DEFAULT_CONNECT_TIMEOUT,
            res.timeout is None,
    {
        let mut res = RequestOptions {
            follow_redirects: true,
            headers: Vec::new(),
            connect_timeout: DEFAULT_CONNECT_TIMEOUT,
            timeout: None,
        };
        assert(res.headers_map() =~= Map::<Seq<char>, Seq<char>>::empty());
        res.set_header("User-Agent", DEFAULT_USER_AGENT);
        res
    }
}

/// A GET request for a parsed URL.
#[derive(Debug)]
pub struct Request {
    url: ParsedUrl,
    options: RequestOptions,
}

impl Request {
    /// The URL, parsed.
    pub closed spec fn url_view(&self) -> Seq<char> {
        self.url@
    }

    /// The options.
    pub closed spec fn options_view(&self) -> RequestOptions {
        self.options
    }

    /// A request for `url`, with the given options or the default ones;
    /// an error where the URL does not parse.
    pub fn new(url: &str, options: Option<RequestOptions>) -> (res: Result<Self>)
        ensures
            match res {
                Ok(r) => url_parsed(url@) == Ok::<Seq<char>, Seq<char>>(r.url_view())
                    && match options {
                        Some(o) => r.options_view() == o,
                        None => r.options_view().wf() && r.options_view().follow_redirects
                            && r.options_view().headers_map()
                                == Map::<Seq<char>, Seq<char>>::empty().insert("User-Agent"@, DEFAULT_USER_AGENT@)
                            && r.options_view().connect_timeout == DEFAULT_CONNECT_TIMEOUT
                            && r.options_view().timeout is None,
                    },
                Err(e) => (e matches Error::UrlParse(m)
                    && url_parsed(url@) == Err::<Seq<char>, Seq<char>>(m@)),
            },
    {
        let parsed = match parse_url(url) {
            Ok(u) => u,
            Err(m) => {
                return Err(Error::UrlParse(m));
            },
        };
        let options = match options {
            Some(o) => o,
            None => RequestOptions::default(),
        };
        Ok(Request { url: parsed, options })
    }

    /// The options.
    pub fn get_options(&self) -> (res: &RequestOptions)
        ensures
            *res == self.options_view(),
    {
        &self.options
    }

    /// The URL, parsed.
    pub fn get_url(&self) -> (res: &ParsedUrl)
        ensures
            res@ == self.url_view(),
    {
        &self.url
    }
}

} // verus!
