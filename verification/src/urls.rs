//! URLs, parsed and resolved by the `url` crate.
//!
//! A parsed URL is known to the proofs by its serialisation. What the `url`
//! crate computes is named here and not restated: each name is a function
//! of its arguments, and every part of a URL is a function of its
//! serialisation.

use vstd::prelude::*;
use url::Url;

verus! {

#[verifier::external_type_specification]
#[verifier::external_body]
pub struct ExUrl(Url);

/// `Url::parse`: the serialisation of the URL, or the text of the error.
pub uninterp spec fn url_parsed(s: Seq<char>) -> Result<Seq<char>, Seq<char>>;

/// `Url::join` on the URL with serialisation `base`: the serialisation of
/// the result, or the text of the error.
pub uninterp spec fn url_joined(base: Seq<char>, input: Seq<char>) -> Result<Seq<char>, Seq<char>>;

/// `Url::scheme` of the URL with serialisation `ser`.
pub uninterp spec fn url_scheme(ser: Seq<char>) -> Seq<char>;

/// `Url::domain` of the URL with serialisation `ser`.
pub uninterp spec fn url_domain(ser: Seq<char>) -> Option<Seq<char>>;

/// `Url::port_or_known_default` of the URL with serialisation `ser`.
pub uninterp spec fn url_port(ser: Seq<char>) -> Option<u16>;

/// `Url::path` of the URL with serialisation `ser`.
pub uninterp spec fn url_path(ser: Seq<char>) -> Seq<char>;

/// The serialisation after `Url::set_fragment(None)` on the URL with
/// serialisation `ser`.
pub uninterp spec fn url_without_fragment(ser: Seq<char>) -> Seq<char>;

/// A URL that the `url` crate parsed, with its serialisation.
#[derive(Debug)]
pub struct ParsedUrl {
    url: Url,
    text: String,
}

impl View for ParsedUrl {
    type V = Seq<char>;

    closed spec fn view(&self) -> Seq<char> {
        self.text@
    }
}

/// `Url::parse`; the error is given as its text.
#[verifier::external_body]
pub(crate) fn parse_url(s: &str) -> (res: Result<ParsedUrl, String>)
    ensures
        match res {
            Ok(u) => url_parsed(s@) == Ok::<Seq<char>, Seq<char>>(u@),
            Err(m) => url_parsed(s@) == Err::<Seq<char>, Seq<char>>(m@),
        },
{
    match Url::parse(s) {
        Ok(url) => {
            let text = url.as_str().to_string();
            Ok(ParsedUrl { url, text })
        },
        Err(e) => Err(e.to_string()),
    }
}

/// `Url::clone`; the copy is opaque here, and its serialisation is kept
/// beside it by the caller.
#[verifier::external_body]
fn copy_url(u: &Url) -> (res: Url) {
    u.clone()
}

impl ParsedUrl {
    /// The URL the text stands for, or the parser's message.
    pub fn parse(s: &str) -> (res: Result<ParsedUrl, String>)
        ensures
            match res {
                Ok(u) => url_parsed(s@) == Ok::<Seq<char>, Seq<char>>(u@),
                Err(m) => url_parsed(s@) == Err::<Seq<char>, Seq<char>>(m@),
            },
    {
        parse_url(s)
    }

    /// A copy of the URL.
    pub fn clone_url(&self) -> (res: ParsedUrl)
        ensures
            res@ == self@,
    {
        ParsedUrl { url: copy_url(&self.url), text: crate::text::copy_str(self.text.as_str()) }
    }

    /// The serialisation.
    pub fn as_str(&self) -> (res: &str)
        ensures
            res@ == self@,
    {
        self.text.as_str()
    }

    /// The serialisation, as a new string.
    pub fn to_string(&self) -> (res: String)
        ensures
            res@ == self@,
    {
        self.text.clone()
    }

    /// `Url::join`; the error is given as its text.
    #[verifier::external_body]
    pub(crate) fn join(&self, input: &str) -> (res: Result<ParsedUrl, String>)
        ensures
            match res {
                Ok(u) => url_joined(self@, input@) == Ok::<Seq<char>, Seq<char>>(u@),
                Err(m) => url_joined(self@, input@) == Err::<Seq<char>, Seq<char>>(m@),
            },
    {
        match self.url.join(input) {
            Ok(url) => {
                let text = url.as_str().to_string();
                Ok(ParsedUrl { url, text })
            },
            Err(e) => Err(e.to_string()),
        }
    }

    /// `Url::scheme`.
    #[verifier::external_body]
    pub(crate) fn scheme(&self) -> (res: String)
        ensures
            res@ == url_scheme(self@),
    {
        self.url.scheme().to_string()
    }

    /// `Url::domain`.
    #[verifier::external_body]
    pub(crate) fn domain(&self) -> (res: Option<String>)
        ensures
            res matches Some(d) ==> url_domain(self@) == Some(d@),
            res is None ==> url_domain(self@) is None,
    {
        self.url.domain().map(|d| d.to_string())
    }

    /// `Url::port_or_known_default`.
    #[verifier::external_body]
    pub(crate) fn port_or_known_default(&self) -> (res: Option<u16>)
        ensures
            res == url_port(self@),
    {
        self.url.port_or_known_default()
    }

    /// `Url::path`.
    #[verifier::external_body]
    pub(crate) fn path(&self) -> (res: String)
        ensures
            res@ == url_path(self@),
    {
        self.url.path().to_string()
    }

    /// `Url::set_fragment(None)`.
    #[verifier::external_body]
    pub(crate) fn without_fragment(self) -> (res: ParsedUrl)
        ensures
            res@ == url_without_fragment(self@),
    {
        let mut url = self.url;
        url.set_fragment(None);
        let text = url.as_str().to_string();
        ParsedUrl { url, text }
    }
}

} // verus!
