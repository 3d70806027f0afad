//! The filters every documentation set shares: path and URL normalisation,
//! Cloudflare e-mail decoding, internal URLs, the content container.
//!
//! Each works out what a page's links and addresses become; the page text
//! itself is handed on unchanged, except by the container filter, which
//! keeps its container.

use vstd::prelude::*;
use vstd::utf8::{valid_utf8, decode_utf8, is_char_boundary};
use vstd::string::StringSliceAdditionalSpecFns;
use crate::error::Result;
use crate::filter_base::FilterContext;
use crate::text::{copy_str, push_str, push_char, chars_of, string_from_range, find_from, find_from_exec,
    contains_seq, lemma_find_from_zero, lemma_find_from_found_pub};
use crate::strs::{replace_all, replace_str, contains_str, starts_with, starts_with_char, has_prefix,
    contains_char_str, strip_trailing_char, trim_end_char, strip_leading, trim_start_char,
    lemma_replace_shrinks};
use crate::html::{css_valid, selected_htmls, select_htmls};

verus! {

/// `p` replaced by the shorter `r` again and again, until it no longer occurs.
pub open spec fn replace_until_gone(s: Seq<char>, p: Seq<char>, r: Seq<char>) -> Seq<char>
    decreases s.len(),
{
    if r.len() < p.len() && contains_seq(s, p) {
        proof {
            lemma_replace_shrinks(s, p, r);
        }
        replace_until_gone(replace_all(s, p, r), p, r)
    } else {
        s
    }
}

/// A normalised path: an absolute URL as it is, `/` for nothing; otherwise
/// each `./` made `/` and each `//` made `/` until none is left, with a
/// leading `/`.
pub open spec fn normalized_path(path: Seq<char>) -> Seq<char> {
    if contains_seq(path, "://"@) {
        path
    } else if path.len() == 0 {
        "/"@
    } else {
        let a = replace_until_gone(path, "./"@, "/"@);
        let b = replace_until_gone(a, "//"@, "/"@);
        if b.len() > 0 && b[0] == '/' {
            b
        } else {
            "/"@ + b
        }
    }
}

/// Replaces `p` by the shorter `r` until it no longer occurs.
fn replace_repeatedly(s: &str, p: &str, r: &str) -> (res: String)
    requires
        r@.len() < p@.len(),
    ensures
        res@ == replace_until_gone(s@, p@, r@),
{
    let mut cur = copy_str(s);
    while contains_str(cur.as_str(), p)
        invariant
            r@.len() < p@.len(),
            replace_until_gone(cur@, p@, r@) == replace_until_gone(s@, p@, r@),
        decreases cur@.len(),
    {
        proof {
            lemma_replace_shrinks(cur@, p@, r@);
        }
        cur = replace_str(cur.as_str(), p, r);
    }
    cur
}

/// Normalises the paths of a page.
#[derive(Debug, Clone)]
pub struct NormalizePathsFilter;

impl NormalizePathsFilter {
    /// A normalised path: an absolute URL as it is, `/` for nothing;
    /// otherwise each `./` made `/` and each `//` made `/` until none is
    /// left, with a leading `/`.
    pub fn normalize_path(&self, path: &str) -> (res: String)
        ensures
            res@ == normalized_path(path@),
    {
        if contains_str(path, "://") {
            return copy_str(path);
        }
        if path.is_empty() {
            return "/".to_string();
        }
        proof {
            reveal_strlit("./");
            reveal_strlit("/");
            reveal_strlit("//");
        }
        let a = replace_repeatedly(path, "./", "/");
        let b = replace_repeatedly(a.as_str(), "//", "/");
        if starts_with_char(b.as_str(), '/') {
            b
        } else {
            let mut out = "/".to_string();
            push_str(&mut out, b.as_str());
            out
        }
    }

    /// The page, handed on unchanged.
    pub fn call(&self, html: &str, _context: &mut FilterContext) -> (res: Result<String>)
        ensures
            *final(_context) == *old(_context),
            res matches Ok(h) && h@ == html@,
    {
        Ok(copy_str(html))
    }
}

/// The value of an ASCII hexadecimal digit.
pub open spec fn hex_value(b: u8) -> Option<u8> {
    if 48 <= b <= 57 {
        Some((b - 48) as u8)
    } else if 97 <= b <= 102 {
        Some((b - 87) as u8)
    } else if 65 <= b <= 70 {
        Some((b - 55) as u8)
    } else {
        None
    }
}

/// A two-byte text read as a base-16 `u8` (`u8::from_str_radix`): two
/// digits, or `+` and one digit.
pub open spec fn hex_pair(b0: u8, b1: u8) -> Option<u8> {
    if b0 == 43 {
        hex_value(b1)
    } else {
        match (hex_value(b0), hex_value(b1)) {
            (Some(h), Some(l)) => Some((h * 16 + l) as u8),
            _ => None,
        }
    }
}

/// The bytes read from the pairs of `b` at even positions from `i` on;
/// a pair that does not read, and a lone last byte, give none.
pub open spec fn hex_bytes_from(b: Seq<u8>, i: int) -> Seq<u8>
    decreases b.len() - i,
{
    if i < 0 || i + 2 > b.len() {
        Seq::empty()
    } else {
        match hex_pair(b[i], b[i + 1]) {
            Some(x) => seq![x] + hex_bytes_from(b, i + 2),
            None => hex_bytes_from(b, i + 2),
        }
    }
}

/// Each byte after the first, XOR the first.
pub open spec fn unmasked(bytes: Seq<u8>) -> Seq<u8> {
    bytes.drop_first().map_values(|x: u8| x ^ bytes[0])
}

/// A Cloudflare-protected address decoded: the hex pairs read as bytes, the
/// first of them the key; the rest, XOR the key, read as UTF-8.
pub open spec fn decoded_cf_email(encoded: Seq<u8>) -> Option<Seq<char>> {
    let bytes = hex_bytes_from(encoded, 0);
    if bytes.len() == 0 {
        None
    } else if valid_utf8(unmasked(bytes)) {
        Some(decode_utf8(unmasked(bytes)))
    } else {
        None
    }
}

/// Each pair of the encoded text at an even position starts and ends on a
/// character boundary, so that it can be cut out.
pub open spec fn pairs_on_boundaries(b: Seq<u8>) -> bool {
    forall|i: int| 0 <= i && i + 2 <= b.len() && i % 2 == 0 ==>
        is_char_boundary(b, i) && #[trigger] is_char_boundary(b, i + 2)
}

/// `String::from_utf8`, the error dropped.
#[verifier::external_body]
fn utf8_string(bytes: Vec<u8>) -> (res: Option<String>)
    ensures
        match res {
            Some(s) => valid_utf8(bytes@) && s@ == decode_utf8(bytes@),
            None => !valid_utf8(bytes@),
        },
{
    String::from_utf8(bytes).ok()
}

/// The value of an ASCII hexadecimal digit.
fn hex_digit(b: u8) -> (r: Option<u8>)
    ensures
        r == hex_value(b),
{
    if 48 <= b && b <= 57 {
        Some(b - 48)
    } else if 97 <= b && b <= 102 {
        Some(b - 87)
    } else if 65 <= b && b <= 70 {
        Some(b - 55)
    } else {
        None
    }
}

/// A two-byte text read as a base-16 `u8`.
fn read_hex_pair(b0: u8, b1: u8) -> (r: Option<u8>)
    ensures
        r == hex_pair(b0, b1),
{
    if b0 == 43 {
        return hex_digit(b1);
    }
    match (hex_digit(b0), hex_digit(b1)) {
        (Some(h), Some(l)) => {
            assert(h * 16 + l <= 255) by (nonlinear_arith)
                requires h < 16, l < 16;
            Some(h * 16 + l)
        },
        _ => None,
    }
}

/// Decodes Cloudflare-protected e-mail addresses.
#[derive(Debug, Clone)]
pub struct ParseCfEmailFilter;

impl ParseCfEmailFilter {
    /// A Cloudflare-protected address decoded, or `None` where no byte can
    /// be read or the result is not UTF-8.
    pub fn decode_cf_email(&self, encoded: &str) -> (res: Option<String>)
        requires
            pairs_on_boundaries(encoded.spec_bytes()),
        ensures
            match res {
                Some(s) => decoded_cf_email(encoded.spec_bytes()) == Some(s@),
                None => decoded_cf_email(encoded.spec_bytes()) is None,
            },
    {
        let b = encoded.as_bytes();
        let ghost bs = encoded.spec_bytes();
        let mut bytes: Vec<u8> = Vec::new();
        let mut i: usize = 0;
        while b.len() - i >= 2
            invariant
                b@ == bs,
                i <= b.len(),
                bytes@ + hex_bytes_from(bs, i as int) == hex_bytes_from(bs, 0),
            decreases b.len() - i,
        {
            match read_hex_pair(b[i], b[i + 1]) {
                Some(x) => {
                    let ghost before = bytes@;
                    bytes.push(x);
                    assert(before + (seq![x] + hex_bytes_from(bs, i + 2)) =~= bytes@ + hex_bytes_from(bs, i + 2));
                },
                None => {},
            }
            i = i + 2;
        }
        assert(hex_bytes_from(bs, i as int) =~= Seq::<u8>::empty());
        assert(bytes@ =~= hex_bytes_from(bs, 0));
        if bytes.len() == 0 {
            return None;
        }
        let key = bytes[0];
        let mut decoded: Vec<u8> = Vec::new();
        let mut k: usize = 1;
        while k < bytes.len()
            invariant
                1 <= k <= bytes.len(),
                key == bytes@[0],
                decoded@ =~= unmasked(bytes@).take(k - 1),
            decreases bytes.len() - k,
        {
            decoded.push(bytes[k] ^ key);
            k = k + 1;
        }
        assert(decoded@ =~= unmasked(bytes@));
        utf8_string(decoded)
    }

    /// The page, handed on unchanged.
    pub fn call(&self, html: &str, _context: &mut FilterContext) -> (res: Result<String>)
        ensures
            *final(_context) == *old(_context),
            res matches Ok(h) && h@ == html@,
    {
        Ok(copy_str(html))
    }
}

/// The last position of `c` in `s`, or `-1`.
pub open spec fn last_index_of(s: Seq<char>, c: char) -> int
    decreases s.len(),
{
    if s.len() == 0 {
        -1
    } else if s.last() == c {
        s.len() - 1
    } else {
        last_index_of(s.drop_last(), c)
    }
}

/// Where the scheme and host of `base` end: at the first `/` after `://`,
/// or at its end.
pub open spec fn domain_end(base: Seq<char>) -> int {
    let i = find_from(base, "://"@, 0);
    if i < 0 {
        base.len() as int
    } else {
        let j = find_from(base, "/"@, i + 3);
        if j < 0 { base.len() as int } else { j }
    }
}

/// A URL against a base: `#` for nothing; fragments, `javascript:` and
/// `data:` URLs and absolute URLs as they are; a path from the root after
/// the scheme and host of the base; anything else after the base's
/// directory.
pub open spec fn normalized_url(url: Seq<char>, base: Seq<char>) -> Seq<char> {
    if url.len() == 0 {
        "#"@
    } else if url[0] == '#' || has_prefix(url, "javascript:"@) || has_prefix(url, "data:"@)
        || contains_seq(url, "://"@) {
        url
    } else if url[0] == '/' {
        base.take(domain_end(base)) + url
    } else {
        let d = last_index_of(base, '/');
        base.take(if d < 0 { base.len() as int } else { d }) + "/"@ + url
    }
}

/// The last position of `c` in `v`.
fn rfind_char(v: &Vec<char>, c: char) -> (r: Option<usize>)
    ensures
        match r {
            Some(i) => last_index_of(v@, c) == i,
            None => last_index_of(v@, c) == -1,
        },
{
    let mut j: usize = v.len();
    assert(v@.take(j as int) =~= v@);
    while j > 0
        invariant
            j <= v.len(),
            last_index_of(v@, c) == last_index_of(v@.take(j as int), c),
        decreases j,
    {
        assert(v@.take(j as int).drop_last() =~= v@.take(j - 1));
        if v[j - 1] == c {
            return Some(j - 1);
        }
        j = j - 1;
    }
    None
}

/// Makes the URLs of a page absolute.
#[derive(Debug, Clone)]
pub struct NormalizeUrlsFilter;

impl NormalizeUrlsFilter {
    /// A URL against a base: `#` for nothing; fragments, `javascript:` and
    /// `data:` URLs and absolute URLs as they are; a path from the root
    /// after the scheme and host of the base; anything else after the
    /// base's directory.
    pub fn normalize_url(&self, url: &str, base_url: &str) -> (res: String)
        ensures
            res@ == normalized_url(url@, base_url@),
    {
        if url.is_empty() {
            return "#".to_string();
        }
        if starts_with_char(url, '#') || starts_with(url, "javascript:") || starts_with(url, "data:")
            || contains_str(url, "://") {
            return copy_str(url);
        }
        let b = chars_of(base_url);
        let blen = b.len();
        if starts_with_char(url, '/') {
            let sep = chars_of("://");
            let slash = chars_of("/");
            proof {
                reveal_strlit("://");
                lemma_find_from_zero(base_url@, "://"@);
            }
            let end = match find_from_exec(&b, &sep, 0) {
                Some(i) => {
                    proof {
                        lemma_find_from_found_pub(base_url@, "://"@, 0);
                        assert(sep@.len() == 3);
                        assert(i + 3 <= blen);
                    }
                    match find_from_exec(&b, &slash, i + 3) {
                        Some(j) => {
                            proof {
                                reveal_strlit("/");
                                lemma_find_from_found_pub(base_url@, "/"@, i + 3);
                                assert(j + 1 <= blen);
                            }
                            j
                        },
                        None => b.len(),
                    }
                },
                None => b.len(),
            };
            let mut out = string_from_range(&b, 0, end);
            push_str(&mut out, url);
            assert(out@ =~= base_url@.take(domain_end(base_url@)) + url@);
            out
        } else {
            proof {
                lemma_last_index_bound(base_url@, '/');
            }
            let end = match rfind_char(&b, '/') {
                Some(d) => d,
                None => b.len(),
            };
            let mut out = string_from_range(&b, 0, end);
            push_str(&mut out, "/");
            push_str(&mut out, url);
            assert(out@ =~= base_url@.take(end as int) + "/"@ + url@);
            out
        }
    }

    /// The page, handed on unchanged.
    pub fn call(&self, html: &str, _context: &mut FilterContext) -> (res: Result<String>)
        ensures
            *final(_context) == *old(_context),
            res matches Ok(h) && h@ == html@,
    {
        Ok(copy_str(html))
    }
}

/// The last position of a character lies inside the text.
pub proof fn lemma_last_index_bound(s: Seq<char>, c: char)
    ensures
        -1 <= last_index_of(s, c) < s.len(),
        last_index_of(s, c) >= 0 ==> s[last_index_of(s, c)] == c,
    decreases s.len(),
{
    if s.len() > 0 && s.last() != c {
        lemma_last_index_bound(s.drop_last(), c);
    }
}

/// A URL is relative when it has no `:` and is neither a fragment nor a
/// `data:` URL.
pub open spec fn is_relative(url: Seq<char>) -> bool {
    !url.contains(':') && !(url.len() > 0 && url[0] == '#') && !has_prefix(url, "data:"@)
}

/// Where an internal link points: a relative one under the base URL, a
/// `javascript:`-free one already under it as it is; others are not internal.
pub open spec fn internal_url_of(href: Seq<char>, base: Seq<char>) -> Option<Seq<char>> {
    if is_relative(href) {
        let root = strip_trailing_char(base, '/');
        if href.len() > 0 && href[0] == '/' {
            Some(root + href)
        } else {
            Some(root + "/"@ + href)
        }
    } else if has_prefix(href, base) && !has_prefix(href, "javascript:"@) {
        Some(href)
    } else {
        None
    }
}

/// Whether a URL is relative.
pub fn is_relative_url(url: &str) -> (r: bool)
    ensures
        r == is_relative(url@),
{
    !contains_char_str(url, ':') && !starts_with_char(url, '#') && !starts_with(url, "data:")
}

/// Finds the internal URLs of a page.
#[derive(Debug, Clone)]
pub struct InternalUrlsFilter;

impl InternalUrlsFilter {
    /// Where a link points when it is internal.
    pub fn internal_url(&self, href: &str, base_url: &str) -> (res: Option<String>)
        ensures
            match res {
                Some(u) => internal_url_of(href@, base_url@) == Some(u@),
                None => internal_url_of(href@, base_url@) is None,
            },
    {
        if is_relative_url(href) {
            let mut out = trim_end_char(base_url, '/');
            if !starts_with_char(href, '/') {
                push_str(&mut out, "/");
            }
            push_str(&mut out, href);
            Some(out)
        } else if starts_with(href, base_url) && !starts_with(href, "javascript:") {
            Some(copy_str(href))
        } else {
            None
        }
    }

    /// The page, handed on unchanged.
    pub fn call(&self, html: &str, _context: &mut FilterContext) -> (res: Result<String>)
        ensures
            *final(_context) == *old(_context),
            res matches Ok(h) && h@ == html@,
    {
        Ok(copy_str(html))
    }
}

/// Makes the relative URLs of a page absolute against the base URL.
#[derive(Debug, Clone)]
pub struct ApplyBaseUrlFilter;

/// A relative URL put under a base: the base without trailing slashes, a
/// slash, and the URL without leading slashes.
pub open spec fn under_base(url: Seq<char>, base: Seq<char>) -> Seq<char> {
    strip_trailing_char(base, '/') + "/"@ + strip_leading(url, '/')
}

impl ApplyBaseUrlFilter {
    /// A relative URL put under the base; others as they are.
    pub fn absolute_url(&self, url: &str, base_url: &str) -> (res: String)
        ensures
            res@ == if is_relative(url@) { under_base(url@, base_url@) } else { url@ },
    {
        if is_relative_url(url) {
            let mut out = trim_end_char(base_url, '/');
            push_str(&mut out, "/");
            let rest = trim_start_char(url, '/');
            push_str(&mut out, rest.as_str());
            out
        } else {
            copy_str(url)
        }
    }

    /// The page, handed on unchanged.
    pub fn call(&self, html: &str, _context: &mut FilterContext) -> (res: Result<String>)
        ensures
            *final(_context) == *old(_context),
            res matches Ok(h) && h@ == html@,
    {
        Ok(copy_str(html))
    }
}

/// Keeps the part of a page that its container selector matches.
#[derive(Debug, Clone)]
pub struct ContainerFilter {
    selector: String,
}

impl ContainerFilter {
    /// The selector of the container.
    pub closed spec fn selector_view(&self) -> Seq<char> {
        self.selector@
    }

    /// A filter for the given container selector.
    pub fn new(selector: &str) -> (res: Self)
        ensures
            res.selector_view() == selector@,
    {
        ContainerFilter { selector: copy_str(selector) }
    }

    /// The HTML of the first element that the selector matches; the page
    /// itself where nothing matches or the selector does not parse.
    pub fn call(&self, html: &str, _context: &mut FilterContext) -> (res: Result<String>)
        ensures
            *final(_context) == *old(_context),
            res matches Ok(h) && h@ == if css_valid(self.selector_view())
                && selected_htmls(html@, self.selector_view()).len() > 0 {
                selected_htmls(html@, self.selector_view())[0]
            } else {
                html@
            },
    {
        match select_htmls(html, self.selector.as_str()) {
            Some(found) => {
                if found.len() > 0 {
                    assert(found@.map_values(|s: String| s@)[0] == found@[0]@);
                    Ok(copy_str(found[0].as_str()))
                } else {
                    Ok(copy_str(html))
                }
            },
            None => Ok(copy_str(html)),
        }
    }
}

impl Default for ContainerFilter {
    /// The `body` container.
    fn default() -> (res: Self)
        ensures
            res.selector_view() == "body"@,
    {
        ContainerFilter::new("body")
    }
}

/// Hands a page on as it is.
#[derive(Debug, Clone)]
pub struct CleanHtmlFilter;

impl CleanHtmlFilter {
    /// The page, handed on unchanged.
    pub fn call(&self, html: &str, _context: &mut FilterContext) -> (res: Result<String>)
        ensures
            *final(_context) == *old(_context),
            res matches Ok(h) && h@ == html@,
    {
        Ok(copy_str(html))
    }
}

/// The page the container filter keeps: the HTML of the first element that
/// the selector matches, or the page itself.
pub open spec fn container_kept(html: Seq<char>, selector: Seq<char>) -> Seq<char> {
    if css_valid(selector) && selected_htmls(html, selector).len() > 0 {
        selected_htmls(html, selector)[0]
    } else {
        html
    }
}

/// The shared filters, as one type: the kinds a filter factory holds.
#[derive(Debug, Clone)]
pub enum CoreFilter {
    ApplyBaseUrl(ApplyBaseUrlFilter),
    CleanHtml(CleanHtmlFilter),
    Container(ContainerFilter),
    InternalUrls(InternalUrlsFilter),
    NormalizePaths(NormalizePathsFilter),
    NormalizeUrls(NormalizeUrlsFilter),
    ParseCfEmail(ParseCfEmailFilter),
}

impl crate::filter_trait::Filter for CoreFilter {
    /// The filter's `call`: the container filter keeps its container, the
    /// others hand the page on as it is; the context is left as it was.
    fn apply(&self, html: &str, context: &mut FilterContext) -> (res: Result<String>)
        ensures
            *final(context) == *old(context),
            match self {
                CoreFilter::Container(f) => res matches Ok(h) && h@ == container_kept(html@, f.selector_view()),
                _ => res matches Ok(h) && h@ == html@,
            },
    {
        match self {
            CoreFilter::ApplyBaseUrl(f) => f.call(html, context),
            CoreFilter::CleanHtml(f) => f.call(html, context),
            CoreFilter::Container(f) => f.call(html, context),
            CoreFilter::InternalUrls(f) => f.call(html, context),
            CoreFilter::NormalizePaths(f) => f.call(html, context),
            CoreFilter::NormalizeUrls(f) => f.call(html, context),
            CoreFilter::ParseCfEmail(f) => f.call(html, context),
        }
    }

    /// The shared filters find no entries.
    fn get_entries(&self, _html: &str, _context: &FilterContext) -> (res: Vec<(String, String, String)>)
        ensures
            res@.len() == 0,
    {
        Vec::new()
    }
}

/// A factory holding the shared filters under their names: `apply_base_url`,
/// `clean_html`, `container` (of `body`), `internal_urls`, `normalize_paths`,
/// `normalize_urls` and `parse_cf_email`.
pub fn core_filter_factory() -> (res: crate::filter_factory::FilterFactory<CoreFilter>)
    ensures
        res.wf(),
        res.filters_view().dom() == set!["apply_base_url"@, "clean_html"@, "container"@, "internal_urls"@,
            "normalize_paths"@, "normalize_urls"@, "parse_cf_email"@],
{
    let mut factory = crate::filter_factory::FilterFactory::new();
    factory.register("apply_base_url", CoreFilter::ApplyBaseUrl(ApplyBaseUrlFilter));
    factory.register("clean_html", CoreFilter::CleanHtml(CleanHtmlFilter));
    factory.register("container", CoreFilter::Container(ContainerFilter::default()));
    factory.register("internal_urls", CoreFilter::InternalUrls(InternalUrlsFilter));
    factory.register("normalize_paths", CoreFilter::NormalizePaths(NormalizePathsFilter));
    factory.register("normalize_urls", CoreFilter::NormalizeUrls(NormalizeUrlsFilter));
    factory.register("parse_cf_email", CoreFilter::ParseCfEmail(ParseCfEmailFilter));
    assert(factory.filters_view().dom() =~= set!["apply_base_url"@, "clean_html"@, "container"@, "internal_urls"@,
        "normalize_paths"@, "normalize_urls"@, "parse_cf_email"@]);
    factory
}

} // verus!
