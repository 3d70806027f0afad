//! The HTML filters of a page: cleaning, keeping the content container,
//! making URLs absolute, and normalising links.

use vstd::prelude::*;
use crate::error::{Error, Result};
use crate::filter_base::FilterContext;
use crate::scraper_filter::FilterContext as ScraperContext;
use crate::parser::{HtmlParser, cleaned_html};
use crate::html::{css_valid, selected_htmls, selected_attrs, html_serialized, html_without,
    html_with_attr_values, selector_is_valid, select_htmls, select_attrs, remove_matching, set_attr_each, serialize_html};
use crate::models::entry::opt_view;
use crate::urls::{ParsedUrl, parse_url, url_parsed, url_joined, url_scheme};
use crate::text::{copy_str, push_str};
use crate::strs::{has_prefix, starts_with, starts_with_char, strip_leading, strip_leading_str,
    trim_start_char, trim_start_str};
use crate::core_filters::{is_relative, is_relative_url};

verus! {

/// Removes scripts, styles, comments and the `class`, `id` and `style`
/// attributes.
#[derive(Debug, Clone, Default)]
pub struct CleanHtmlFilter;

impl CleanHtmlFilter {
    /// The filter.
    pub fn new() -> (res: Self) {
        CleanHtmlFilter
    }

    /// The page without scripts, styles, comments and the `class`, `id` and
    /// `style` attributes, serialised.
    pub fn apply(&self, html: &str, _context: &mut FilterContext) -> (res: Result<String>)
        ensures
            res is Ok,
            (css_valid("script, style"@) && css_valid("[class]"@) && css_valid("[id]"@) && css_valid("[style]"@))
                ==> (res matches Ok(h) && h@ == html_serialized(cleaned_html(html@))),
    {
        let mut parser = HtmlParser::new(html);
        parser.clean();
        Ok(parser.html())
    }
}

/// The selector tried when neither the filter nor the context names one.
pub const DEFAULT_CONTAINER_SELECTOR: &'static str =
    "main, .main, #main, .content, #content, .container, #container, article, .documentation, .doc-content";

/// The container selector used: the filter's, else the context's
/// `container_selector` option, else the default.
pub open spec fn chosen_selector(own: Option<Seq<char>>, from_context: Option<Seq<char>>) -> Seq<char> {
    match own {
        Some(s) => s,
        None => match from_context {
            Some(s) => s,
            None => DEFAULT_CONTAINER_SELECTOR@,
        },
    }
}

/// Keeps the first element that the container selector matches.
#[derive(Debug, Clone, Default)]
pub struct ContainerFilter {
    container_selector: Option<String>,
}

impl ContainerFilter {
    /// The selector set on the filter, if any.
    pub closed spec fn selector_view(&self) -> Option<Seq<char>> {
        opt_view(self.container_selector)
    }

    /// A filter with no selector of its own.
    pub fn new() -> (res: Self)
        ensures
            res.selector_view() is None,
    {
        ContainerFilter { container_selector: None }
    }

    /// The filter with its own selector.
    pub fn with_selector(self, selector: &str) -> (res: Self)
        ensures
            res.selector_view() == Some(selector@),
    {
        ContainerFilter { container_selector: Some(copy_str(selector)) }
    }

    /// The selector the filter uses in a context.
    pub open spec fn selector_in(&self, context: FilterContext) -> Seq<char> {
        chosen_selector(self.selector_view(),
            if context.options_map().contains_key("container_selector"@) {
                Some(context.options_map()["container_selector"@])
            } else {
                None
            })
    }

    /// The HTML of the first element that the chosen selector matches, or
    /// the page itself where nothing matches. The selector must parse.
    pub fn apply(&self, html: &str, context: &mut FilterContext) -> (res: Result<String>)
        requires
            old(context).wf(),
            css_valid(self.selector_in(*old(context))),
        ensures
            *final(context) == *old(context),
            res matches Ok(h) && h@ == if selected_htmls(html@, self.selector_in(*old(context))).len() > 0 {
                selected_htmls(html@, self.selector_in(*old(context)))[0]
            } else {
                html@
            },
    {
        let selector: &str = match &self.container_selector {
            Some(s) => s.as_str(),
            None => match context.get_data("container_selector") {
                Some(s) => s.as_str(),
                None => DEFAULT_CONTAINER_SELECTOR,
            },
        };
        let found = select_htmls(html, selector).unwrap();
        if found.len() > 0 {
            assert(found@.map_values(|s: String| s@)[0] == found@[0]@);
            Ok(copy_str(found[0].as_str()))
        } else {
            Ok(copy_str(html))
        }
    }
}

impl ContainerFilter {
    /// `apply`, where the chosen selector parses; `None` where it does not.
    pub fn try_apply(&self, html: &str, context: &mut FilterContext) -> (res: Option<Result<String>>)
        requires
            old(context).wf(),
        ensures
            *final(context) == *old(context),
            res is None <==> !css_valid(self.selector_in(*old(context))),
            res matches Some(r) ==> (r matches Ok(h) && h@ == if selected_htmls(html@, self.selector_in(*old(context))).len() > 0 {
                selected_htmls(html@, self.selector_in(*old(context)))[0]
            } else {
                html@
            }),
    {
        let valid = match &self.container_selector {
            Some(s) => selector_is_valid(s.as_str()),
            None => match context.get_data("container_selector") {
                Some(s) => selector_is_valid(s.as_str()),
                None => selector_is_valid(DEFAULT_CONTAINER_SELECTOR),
            },
        };
        if valid { Some(self.apply(html, context)) } else { None }
    }
}

/// A URL made absolute against a base: a relative one joined to the parsed
/// base, others as they are; the message when the base or the join fails.
pub open spec fn absolute_of(url: Seq<char>, base: Seq<char>) -> std::result::Result<Seq<char>, Seq<char>> {
    if is_relative(url) {
        match url_parsed(base) {
            Ok(b) => match url_joined(b, url) {
                Ok(a) => Ok(a),
                Err(e) => Err("无法将 URL 转换为绝对 URL: "@ + e),
            },
            Err(e) => Err("无效的基础 URL: "@ + e),
        }
    } else {
        Ok(url)
    }
}

/// The new value of each attribute: made absolute where that succeeds.
pub open spec fn absolute_values(attrs: Seq<Option<Seq<char>>>, base: Seq<char>) -> Seq<Option<Seq<char>>> {
    attrs.map_values(|o: Option<Seq<char>>| match o {
        Some(v) => match absolute_of(v, base) {
            Ok(a) => Some(a),
            Err(_) => None,
        },
        None => None,
    })
}

/// One pass: the attribute of each element that a selector matches made
/// absolute against the base.
pub open spec fn absolute_pass(html: Seq<char>, sel: Seq<char>, attr: Seq<char>, base: Seq<char>) -> Seq<char> {
    html_with_attr_values(html, sel, attr, absolute_values(selected_attrs(html, sel, attr), base))
}

/// The four passes: `a[href]`, `img[src]`, `link[href]`, `script[src]`.
pub open spec fn with_absolute_urls(html: Seq<char>, base: Seq<char>) -> Seq<char> {
    let a = absolute_pass(html, "a[href]"@, "href"@, base);
    let b = absolute_pass(a, "img[src]"@, "src"@, base);
    let c = absolute_pass(b, "link[href]"@, "href"@, base);
    absolute_pass(c, "script[src]"@, "src"@, base)
}

/// Makes the URLs of links, images, style sheets and scripts absolute
/// against the base URL.
#[derive(Debug, Clone, Default)]
pub struct ApplyBaseUrlFilter;

impl ApplyBaseUrlFilter {
    /// The filter.
    pub fn new() -> (res: Self) {
        ApplyBaseUrlFilter
    }

    /// A URL is relative when it has no `:` and is neither a fragment nor a
    /// `data:` URL.
    pub fn is_relative_url(&self, url: &str) -> (r: bool)
        ensures
            r == is_relative(url@),
    {
        is_relative_url(url)
    }

    /// A URL made absolute against a base.
    pub fn to_absolute_url(&self, url: &str, base_url: &str) -> (res: Result<String>)
        ensures
            match res {
                Ok(a) => absolute_of(url@, base_url@) == Ok::<Seq<char>, Seq<char>>(a@),
                Err(e) => e matches Error::Message(m) && absolute_of(url@, base_url@) == Err::<Seq<char>, Seq<char>>(m@),
            },
    {
        if is_relative_url(url) {
            match parse_url(base_url) {
                Ok(base) => match base.join(url) {
                    Ok(absolute) => Ok(absolute.to_string()),
                    Err(e) => {
                        let mut m = "无法将 URL 转换为绝对 URL: ".to_string();
                        push_str(&mut m, e.as_str());
                        Err(Error::Message(m))
                    },
                },
                Err(e) => {
                    let mut m = "无效的基础 URL: ".to_string();
                    push_str(&mut m, e.as_str());
                    Err(Error::Message(m))
                },
            }
        } else {
            Ok(copy_str(url))
        }
    }

    /// One pass over the elements that a selector matches.
    fn pass(&self, html: &str, sel: &str, attr: &str, base_url: &str) -> (res: Option<String>)
        ensures
            match res {
                Some(h) => css_valid(sel@) && h@ == absolute_pass(html@, sel@, attr@, base_url@),
                None => !css_valid(sel@),
            },
    {
        let attrs = match select_attrs(html, sel, attr) {
            Some(a) => a,
            None => return None,
        };
        let ghost av = attrs@.map_values(|o: Option<String>| opt_view(o));
        let mut values: Vec<Option<String>> = Vec::new();
        let mut i: usize = 0;
        while i < attrs.len()
            invariant
                0 <= i <= attrs.len(),
                av == attrs@.map_values(|o: Option<String>| opt_view(o)),
                values@.map_values(|o: Option<String>| opt_view(o)) == absolute_values(av, base_url@).take(i as int),
            decreases attrs.len() - i,
        {
            assert(av[i as int] == opt_view(attrs@[i as int]));
            let v: Option<String> = match &attrs[i] {
                Some(a) => match self.to_absolute_url(a.as_str(), base_url) {
                    Ok(abs) => Some(abs),
                    Err(_) => None,
                },
                None => None,
            };
            let ghost before = values@.map_values(|o: Option<String>| opt_view(o));
            values.push(v);
            assert(values@.map_values(|o: Option<String>| opt_view(o)) =~= before.push(opt_view(v)));
            assert(absolute_values(av, base_url@).take(i + 1) =~= absolute_values(av, base_url@).take(i as int).push(absolute_values(av, base_url@)[i as int]));
            i = i + 1;
        }
        assert(absolute_values(av, base_url@).take(i as int) =~= absolute_values(av, base_url@));
        set_attr_each(html, sel, attr, &values)
    }

    /// The page with the URLs of links, images, style sheets and scripts
    /// made absolute against the context's base URL; an error where no base
    /// URL is set.
    pub fn apply(&self, html: &str, context: &mut FilterContext) -> (res: Result<String>)
        ensures
            *final(context) == *old(context),
            old(context).base_url@.len() == 0 ==> (res matches Err(Error::Message(m)) && m@ == "未设置基础 URL"@),
            old(context).base_url@.len() > 0 && css_valid("a[href]"@) && css_valid("img[src]"@)
                && css_valid("link[href]"@) && css_valid("script[src]"@)
                ==> (res matches Ok(h) && h@ == with_absolute_urls(html@, old(context).base_url@)),
    {
        if context.base_url.as_str().is_empty() {
            return Err(Error::Message("未设置基础 URL".to_string()));
        }
        let base: &str = context.base_url.as_str();
        let a = match self.pass(html, "a[href]", "href", base) {
            Some(h) => h,
            None => return Ok(copy_str(html)),
        };
        let b = match self.pass(a.as_str(), "img[src]", "src", base) {
            Some(h) => h,
            None => return Ok(a),
        };
        let c = match self.pass(b.as_str(), "link[href]", "href", base) {
            Some(h) => h,
            None => return Ok(b),
        };
        let d = match self.pass(c.as_str(), "script[src]", "src", base) {
            Some(h) => h,
            None => return Ok(c),
        };
        Ok(d)
    }
}

/// What a link's value becomes against the page's URL: a scheme-relative
/// one gets the page's scheme; a root-relative one, and a relative one that
/// is not `http…`, `#…` or `mailto:…`, is joined to the page's URL where
/// that succeeds; the rest stay.
pub open spec fn rewritten_href(base: Seq<char>, val: Seq<char>) -> Option<Seq<char>> {
    if has_prefix(val, "//"@) {
        Some(url_scheme(base) + ":"@ + val)
    } else if has_prefix(val, "/"@) || (!has_prefix(val, "http"@) && !has_prefix(val, "#"@)
        && !has_prefix(val, "mailto:"@) && val.len() > 0) {
        match url_joined(base, val) {
            Ok(j) => Some(j),
            Err(_) => None,
        }
    } else {
        None
    }
}

/// One pass of link rewriting over the elements that a selector matches.
pub open spec fn href_pass(html: Seq<char>, sel: Seq<char>, attr: Seq<char>, base: Seq<char>) -> Seq<char> {
    html_with_attr_values(html, sel, attr, selected_attrs(html, sel, attr).map_values(
        |o: Option<Seq<char>>| match o {
            Some(v) => rewritten_href(base, v),
            None => None,
        }))
}

/// The elements a page loses: scripts, styles, frames and embedded objects.
pub open spec fn stripped_tags(html: Seq<char>) -> Seq<char> {
    let a = html_without(html, "script"@);
    let b = html_without(a, "style"@);
    let c = html_without(b, "iframe"@);
    let d = html_without(c, "noscript"@);
    let e = html_without(d, "applet"@);
    let f = html_without(e, "embed"@);
    html_without(f, "object"@)
}

/// A link as a page keeps it: fragments, `mailto:`, `tel:` and
/// `javascript:` links as they are; one that joins to the page's URL and
/// falls under the root URL, made relative to the root; one that joins
/// elsewhere, absolute; and where nothing joins, without leading slashes.
pub open spec fn normalized_href(href: Seq<char>, current_url: Seq<char>, root_url: Seq<char>) -> Seq<char> {
    if has_prefix(href, "#"@) || has_prefix(href, "mailto:"@) || has_prefix(href, "tel:"@)
        || has_prefix(href, "javascript:"@) {
        href
    } else {
        match url_parsed(current_url) {
            Ok(b) => match url_joined(b, href) {
                Ok(p) => if has_prefix(p, root_url) {
                    strip_leading(strip_leading_str(p, root_url), '/')
                } else {
                    p
                },
                Err(_) => strip_leading(href, '/'),
            },
            Err(_) => strip_leading(href, '/'),
        }
    }
}

/// Removes scripts, styles, frames and embedded objects, and rewrites the
/// links of a page against its URL.
#[derive(Debug, Clone)]
pub struct DefaultCleanHtmlFilter;

impl DefaultCleanHtmlFilter {
    /// The filter's name.
    pub fn name(&self) -> (res: &str)
        ensures
            res@ == "default_clean_html"@,
    {
        "default_clean_html"
    }

    /// A link as a page keeps it.
    pub fn normalize_href(&self, href: &str, context: &ScraperContext) -> (res: String)
        ensures
            res@ == normalized_href(href@, context.current_url@, context.root_url@),
    {
        if starts_with(href, "#") || starts_with(href, "mailto:") || starts_with(href, "tel:")
            || starts_with(href, "javascript:") {
            return copy_str(href);
        }
        match parse_url(context.current_url.as_str()) {
            Ok(base) => match base.join(href) {
                Ok(p) => {
                    if starts_with(p.as_str(), context.root_url.as_str()) {
                        let rel = trim_start_str(p.as_str(), context.root_url.as_str());
                        return trim_start_char(rel.as_str(), '/');
                    }
                    return p.to_string();
                },
                Err(_) => {},
            },
            Err(_) => {},
        }
        trim_start_char(href, '/')
    }

    /// The new value of one link.
    fn rewrite_href(&self, base: &ParsedUrl, val: &str) -> (res: Option<String>)
        ensures
            opt_view(res) == rewritten_href(base@, val@),
    {
        if starts_with(val, "//") {
            let mut s = base.scheme();
            push_str(&mut s, ":");
            push_str(&mut s, val);
            Some(s)
        } else if starts_with(val, "/") || (!starts_with(val, "http") && !starts_with(val, "#")
            && !starts_with(val, "mailto:") && !val.is_empty()) {
            match base.join(val) {
                Ok(j) => Some(j.to_string()),
                Err(_) => None,
            }
        } else {
            None
        }
    }

    /// One pass of link rewriting.
    fn normalize_hrefs(&self, html: &str, base: &ParsedUrl, sel: &str, attr: &str) -> (res: Option<String>)
        ensures
            match res {
                Some(h) => css_valid(sel@) && h@ == href_pass(html@, sel@, attr@, base@),
                None => !css_valid(sel@),
            },
    {
        let attrs = match select_attrs(html, sel, attr) {
            Some(a) => a,
            None => return None,
        };
        let ghost av = attrs@.map_values(|o: Option<String>| opt_view(o));
        let ghost target = av.map_values(|o: Option<Seq<char>>| match o {
            Some(v) => rewritten_href(base@, v),
            None => None,
        });
        let mut values: Vec<Option<String>> = Vec::new();
        let mut i: usize = 0;
        while i < attrs.len()
            invariant
                0 <= i <= attrs.len(),
                av == attrs@.map_values(|o: Option<String>| opt_view(o)),
                target == av.map_values(|o: Option<Seq<char>>| match o {
                    Some(v) => rewritten_href(base@, v),
                    None => None,
                }),
                values@.map_values(|o: Option<String>| opt_view(o)) == target.take(i as int),
            decreases attrs.len() - i,
        {
            assert(av[i as int] == opt_view(attrs@[i as int]));
            let v: Option<String> = match &attrs[i] {
                Some(a) => self.rewrite_href(base, a.as_str()),
                None => None,
            };
            let ghost before = values@.map_values(|o: Option<String>| opt_view(o));
            values.push(v);
            assert(values@.map_values(|o: Option<String>| opt_view(o)) =~= before.push(opt_view(v)));
            assert(target.take(i + 1) =~= target.take(i as int).push(target[i as int]));
            i = i + 1;
        }
        assert(target.take(i as int) =~= target);
        set_attr_each(html, sel, attr, &values)
    }

    /// The page without scripts, styles, frames and embedded objects, with
    /// the links of `a` elements and of canonical `link` elements rewritten
    /// against the page's URL when it parses, serialised.
    pub fn apply(&self, html: &str, context: &mut ScraperContext) -> (res: Result<String>)
        ensures
            *final(context) == *old(context),
            res is Ok,
            (css_valid("script"@) && css_valid("style"@) && css_valid("iframe"@) && css_valid("noscript"@)
                && css_valid("applet"@) && css_valid("embed"@) && css_valid("object"@) && css_valid("a"@)
                && css_valid("link[rel=canonical]"@))
                ==> (res matches Ok(h) && h@ == html_serialized(default_cleaned(html@, old(context).current_url@))),
    {
        let a = remove_or_keep(html, "script");
        let b = remove_or_keep(a.as_str(), "style");
        let c = remove_or_keep(b.as_str(), "iframe");
        let d = remove_or_keep(c.as_str(), "noscript");
        let e = remove_or_keep(d.as_str(), "applet");
        let f = remove_or_keep(e.as_str(), "embed");
        let mut cur = remove_or_keep(f.as_str(), "object");
        match parse_url(context.current_url.as_str()) {
            Ok(base) => {
                match self.normalize_hrefs(cur.as_str(), &base, "a", "href") {
                    Some(h) => {
                        cur = h;
                    },
                    None => {},
                }
                match self.normalize_hrefs(cur.as_str(), &base, "link[rel=canonical]", "href") {
                    Some(h) => {
                        cur = h;
                    },
                    None => {},
                }
            },
            Err(_) => {},
        }
        Ok(serialize_html(cur.as_str()))
    }
}

/// The page with the elements a selector matches removed; as it is where
/// the selector does not parse.
fn remove_or_keep(html: &str, sel: &str) -> (res: String)
    ensures
        css_valid(sel@) ==> res@ == html_without(html@, sel@),
        !css_valid(sel@) ==> res@ == html@,
{
    match remove_matching(html, sel) {
        Some(h) => h,
        None => copy_str(html),
    }
}

/// What the default cleaning leaves of a page, before serialisation.
pub open spec fn default_cleaned(html: Seq<char>, current_url: Seq<char>) -> Seq<char> {
    let s = stripped_tags(html);
    match url_parsed(current_url) {
        Ok(b) => href_pass(href_pass(s, "a"@, "href"@, b), "link[rel=canonical]"@, "href"@, b),
        Err(_) => s,
    }
}

} // verus!
