//! The scraper of the Babel documentation.
//!
//! The caller fetches the pages and writes the files; here are decided the
//! URLs, which links are kept, where each page is stored, when fetching
//! gives up, and what the index says.

use vstd::prelude::*;
use crate::text::{copy_str, push_str, trim, trim_seq, str_eq, contains_seq, join};
use crate::strs::{has_prefix, has_suffix, replace_all, replace_str, starts_with_char, ends_with_char,
    contains_str, strip_leading, trim_start_char};
use crate::html::{css_valid, selected_texts, selected_attrs, selected_htmls, select_texts, select_attrs, select_htmls};
use crate::models::entry::opt_view;

verus! {

/// Fetching a page is tried this many times.
pub const MAX_RETRIES: u32 = 3;

/// At most this many linked pages are fetched.
pub const MAX_PAGES: usize = 5;

/// The character views of a list of strings.
pub open spec fn views(s: Seq<String>) -> Seq<Seq<char>> {
    s.map_values(|x: String| x@)
}

/// Some pattern occurs in the link.
pub open spec fn skipped_by(patterns: Seq<Seq<char>>, href: Seq<char>) -> bool {
    exists|i: int| 0 <= i < patterns.len() && contains_seq(href, #[trigger] patterns[i])
}

/// The text with each `"` escaped.
pub open spec fn quoted(text: Seq<char>) -> Seq<char> {
    replace_all(text, "\""@, "\\\""@)
}

/// The index record of one linked page.
pub open spec fn entry_record(href: Seq<char>, text: Seq<char>) -> Seq<char> {
    "{\n  \"path\": \""@ + href + "\",\n  \"title\": \""@ + quoted(text) + "\",\n  \"type\": \"doc\"  \n}"@
}

/// The links of the home page that are kept, with their index records, for
/// the first `n` anchors: those whose `href` starts with `/`, contains no
/// skip pattern, and whose trimmed text is not empty.
pub open spec fn kept_links(hrefs: Seq<Option<Seq<char>>>, texts: Seq<Seq<char>>, patterns: Seq<Seq<char>>, n: int)
    -> (Seq<Seq<char>>, Seq<Seq<char>>)
    decreases n,
{
    if n <= 0 {
        (Seq::empty(), Seq::empty())
    } else {
        let (links, entries) = kept_links(hrefs, texts, patterns, n - 1);
        match hrefs[n - 1] {
            Some(h) => {
                let t = trim_seq(texts[n - 1]);
                if !skipped_by(patterns, h) && h.len() > 0 && h[0] == '/' && t.len() > 0 {
                    (links.push(h), entries.push(entry_record(h, t)))
                } else {
                    (links, entries)
                }
            },
            None => (links, entries),
        }
    }
}

/// The Babel documentation scraper.
#[derive(Debug, Clone)]
pub struct BabelScraper {
    name: String,
    version: String,
    base_url: String,
    output_path: String,
    doc_type: Option<String>,
    release: Option<String>,
    skip_patterns: Vec<String>,
}

/// The documentation URL for a version: the base itself for `latest`,
/// otherwise the version after the base and a slash.
pub open spec fn docs_url_for(base: Seq<char>, version: Seq<char>) -> Seq<char> {
    if version == "latest"@ {
        base
    } else if base.len() > 0 && base.last() == '/' {
        base + version
    } else {
        base + "/"@ + version
    }
}

/// The URL of a linked page: the link after the base, with one slash between.
pub open spec fn page_url_for(base: Seq<char>, link: Seq<char>) -> Seq<char> {
    if base.len() > 0 && base.last() == '/' {
        base + strip_leading(link, '/')
    } else {
        base + link
    }
}

/// The file a linked page is stored in: `index.html` in its directory for
/// a directory link, otherwise the link with `.html`.
pub open spec fn page_file_for(link: Seq<char>) -> Seq<char> {
    let p = strip_leading(link, '/');
    if p.len() == 0 || p.last() == '/' {
        p + "/index.html"@
    } else {
        p + ".html"@
    }
}

/// The records joined for the index.
pub open spec fn index_text(name: Seq<char>, version: Seq<char>, release: Seq<char>, doc_type: Seq<char>,
    base: Seq<char>, entries: Seq<Seq<char>>) -> Seq<char>
{
    "{\n  \"name\": \""@ + name + "\",\n  \"version\": \""@ + version + "\",\n  \"release\": \""@ + release
        + "\",\n  \"type\": \""@ + doc_type + "\",\n  \"links\": {\n    \"home\": \""@ + base
        + "\",\n    \"code\": \""@ + base + "\"\n  },\n  \"entries\": [\n    "@
        + join(entries, ",\n    "@) + "\n  ]\n}"@
}

/// The text with each `"` escaped.
fn quote(text: &str) -> (res: String)
    ensures
        res@ == quoted(text@),
{
    proof {
        reveal_strlit("\"");
    }
    replace_str(text, "\"", "\\\"")
}

/// The strings joined with `sep` between each two.
fn join_strings(parts: &Vec<String>, sep: &str) -> (res: String)
    ensures
        res@ == join(views(parts@), sep@),
{
    let mut res = String::new();
    let mut i: usize = 0;
    let ghost pv = views(parts@);
    while i < parts.len()
        invariant
            0 <= i <= parts.len(),
            pv == views(parts@),
            res@ == join(pv.take(i as int), sep@),
        decreases parts.len() - i,
    {
        proof {
            assert(pv.take(i + 1).drop_last() =~= pv.take(i as int));
            assert(pv[i as int] == parts@[i as int]@);
        }
        if i > 0 {
            push_str(&mut res, sep);
        } else {
            assert(res@ =~= Seq::<char>::empty());
        }
        push_str(&mut res, parts[i].as_str());
        proof {
            if i == 0 {
                assert(pv.take(1) =~= seq![pv[0]]);
            }
            assert(res@ =~= join(pv.take(i + 1), sep@));
        }
        i = i + 1;
    }
    proof { assert(pv.take(pv.len() as int) =~= pv); }
    res
}

impl BabelScraper {
    /// The name.
    pub closed spec fn name_view(&self) -> Seq<char> { self.name@ }
    /// The version asked for.
    pub closed spec fn version_view(&self) -> Seq<char> { self.version@ }
    /// The base URL.
    pub closed spec fn base_view(&self) -> Seq<char> { self.base_url@ }
    /// The output directory.
    pub closed spec fn output_view(&self) -> Seq<char> { self.output_path@ }
    /// The documentation type.
    pub closed spec fn doc_type_view(&self) -> Option<Seq<char>> { opt_view(self.doc_type) }
    /// The release.
    pub closed spec fn release_view(&self) -> Option<Seq<char>> { opt_view(self.release) }
    /// The skip patterns.
    pub closed spec fn patterns_view(&self) -> Seq<Seq<char>> { views(self.skip_patterns@) }

    /// The Babel scraper for a version: `https://babeljs.io/docs`, written
    /// to `output`, type `simple`, release 7.21.4, and the sections that are
    /// not followed.
    pub fn new(version: &str) -> (res: Self)
        ensures
            res.name_view() == "Babel"@,
            res.version_view() == version@,
            res.base_view() == "https://babeljs.io/docs"@,
            res.output_view() == "output"@,
            res.doc_type_view() == Some("simple"@),
            res.release_view() == Some("7.21.4"@),
            res.patterns_view() == seq!["/usage/"@, "/configuration/"@, "/learn/"@, "/v7-migration/"@,
                "/v7-migration-api/"@, "/editors/"@, "/presets/"@, "/caveats/"@, "/faq/"@, "/roadmap/"@],
    {
        let mut skip_patterns: Vec<String> = Vec::new();
        skip_patterns.push("/usage/".to_string());
        skip_patterns.push("/configuration/".to_string());
        skip_patterns.push("/learn/".to_string());
        skip_patterns.push("/v7-migration/".to_string());
        skip_patterns.push("/v7-migration-api/".to_string());
        skip_patterns.push("/editors/".to_string());
        skip_patterns.push("/presets/".to_string());
        skip_patterns.push("/caveats/".to_string());
        skip_patterns.push("/faq/".to_string());
        skip_patterns.push("/roadmap/".to_string());
        let res = BabelScraper {
            name: "Babel".to_string(),
            version: copy_str(version),
            base_url: "https://babeljs.io/docs".to_string(),
            output_path: "output".to_string(),
            doc_type: Some("simple".to_string()),
            release: Some("7.21.4".to_string()),
            skip_patterns,
        };
        assert(res.patterns_view() =~= seq!["/usage/"@, "/configuration/"@, "/learn/"@, "/v7-migration/"@,
            "/v7-migration-api/"@, "/editors/"@, "/presets/"@, "/caveats/"@, "/faq/"@, "/roadmap/"@]);
        res
    }

    /// The name.
    pub fn name(&self) -> (res: &str)
        ensures res@ == self.name_view(),
    {
        self.name.as_str()
    }

    /// The version asked for.
    pub fn version(&self) -> (res: Option<&str>)
        ensures res matches Some(v) && v@ == self.version_view(),
    {
        Some(self.version.as_str())
    }

    /// The base URL.
    pub fn base_url(&self) -> (res: &str)
        ensures res@ == self.base_view(),
    {
        self.base_url.as_str()
    }

    /// The output directory.
    pub fn output_path(&self) -> (res: &str)
        ensures res@ == self.output_view(),
    {
        self.output_path.as_str()
    }

    /// The documentation type.
    pub fn doc_type(&self) -> (res: Option<&str>)
        ensures
            match res { Some(t) => self.doc_type_view() == Some(t@), None => self.doc_type_view() is None },
    {
        match &self.doc_type {
            Some(t) => Some(t.as_str()),
            None => None,
        }
    }

    /// The release.
    pub fn release(&self) -> (res: Option<&str>)
        ensures
            match res { Some(t) => self.release_view() == Some(t@), None => self.release_view() is None },
    {
        match &self.release {
            Some(t) => Some(t.as_str()),
            None => None,
        }
    }

    /// The latest version: 7.21.4.
    pub fn get_latest_version(&self) -> (res: Result<String, String>)
        ensures
            res matches Ok(v) && v@ == "7.21.4"@,
    {
        Ok("7.21.4".to_string())
    }

    /// The URL of the documentation home page for the version.
    pub fn docs_url(&self) -> (res: String)
        ensures
            res@ == docs_url_for(self.base_view(), self.version_view()),
    {
        if str_eq(self.version.as_str(), "latest") {
            copy_str(self.base_url.as_str())
        } else if ends_with_char(self.base_url.as_str(), '/') {
            let mut s = copy_str(self.base_url.as_str());
            push_str(&mut s, self.version.as_str());
            s
        } else {
            let mut s = copy_str(self.base_url.as_str());
            push_str(&mut s, "/");
            push_str(&mut s, self.version.as_str());
            s
        }
    }

    /// Whether some skip pattern occurs in the link.
    fn is_skipped(&self, href: &str) -> (r: bool)
        ensures
            r == skipped_by(self.patterns_view(), href@),
    {
        let mut i: usize = 0;
        while i < self.skip_patterns.len()
            invariant
                0 <= i <= self.skip_patterns.len(),
                forall|j: int| 0 <= j < i ==> !contains_seq(href@, #[trigger] views(self.skip_patterns@)[j]),
            decreases self.skip_patterns.len() - i,
        {
            assert(views(self.skip_patterns@)[i as int] == self.skip_patterns@[i as int]@);
            if contains_str(href, self.skip_patterns[i].as_str()) {
                return true;
            }
            i = i + 1;
        }
        false
    }

    /// The kept links of the home page and their index records, in page
    /// order; none where the selector does not parse.
    pub fn collect_links(&self, html: &str) -> (res: (Vec<String>, Vec<String>))
        ensures
            css_valid("a[href]"@) ==> (views(res.0@), views(res.1@)) == kept_links(
                selected_attrs(html@, "a[href]"@, "href"@), selected_texts(html@, "a[href]"@),
                self.patterns_view(), selected_attrs(html@, "a[href]"@, "href"@).len() as int),
            !css_valid("a[href]"@) ==> res.0@.len() == 0 && res.1@.len() == 0,
    {
        let mut links: Vec<String> = Vec::new();
        let mut entries: Vec<String> = Vec::new();
        let hrefs = match select_attrs(html, "a[href]", "href") {
            Some(h) => h,
            None => return (links, entries),
        };
        let texts = match select_texts(html, "a[href]") {
            Some(t) => t,
            None => return (links, entries),
        };
        let ghost hv = hrefs@.map_values(|o: Option<String>| opt_view(o));
        let ghost tv = texts@.map_values(|s: String| s@);
        let mut i: usize = 0;
        while i < hrefs.len()
            invariant
                0 <= i <= hrefs.len(),
                hrefs.len() == texts.len(),
                hv == hrefs@.map_values(|o: Option<String>| opt_view(o)),
                tv == texts@.map_values(|s: String| s@),
                (views(links@), views(entries@)) == kept_links(hv, tv, self.patterns_view(), i as int),
            decreases hrefs.len() - i,
        {
            assert(hv[i as int] == opt_view(hrefs@[i as int]));
            assert(tv[i as int] == texts@[i as int]@);
            match &hrefs[i] {
                Some(href) => {
                    let text = trim(texts[i].as_str());
                    if !self.is_skipped(href.as_str()) && starts_with_char(href.as_str(), '/') && !text.as_str().is_empty() {
                        let ghost l0 = views(links@);
                        let ghost e0 = views(entries@);
                        links.push(copy_str(href.as_str()));
                        let mut entry = "{\n  \"path\": \"".to_string();
                        push_str(&mut entry, href.as_str());
                        push_str(&mut entry, "\",\n  \"title\": \"");
                        let q = quote(text.as_str());
                        push_str(&mut entry, q.as_str());
                        push_str(&mut entry, "\",\n  \"type\": \"doc\"  \n}");
                        entries.push(entry);
                        proof {
                            assert(views(links@) =~= l0.push(href@));
                            assert(entry@ =~= entry_record(href@, text@));
                            assert(views(entries@) =~= e0.push(entry_record(href@, text@)));
                        }
                    }
                },
                None => {},
            }
            i = i + 1;
        }
        (links, entries)
    }

    /// The text of a page's `title` elements, one after the other; nothing
    /// where the selector does not parse.
    pub fn page_title(&self, html: &str) -> (res: String)
        ensures
            res@ == if css_valid("title"@) { selected_texts(html@, "title"@).flatten() } else { Seq::<char>::empty() },
    {
        let mut out = String::new();
        let texts = match select_texts(html, "title") {
            Some(t) => t,
            None => {
                return out;
            },
        };
        let ghost tv = texts@.map_values(|s: String| s@);
        let mut i: usize = 0;
        assert(tv.take(0) =~= Seq::<Seq<char>>::empty());
        while i < texts.len()
            invariant
                0 <= i <= texts.len(),
                tv == texts@.map_values(|s: String| s@),
                out@ == tv.take(i as int).flatten(),
            decreases texts.len() - i,
        {
            push_str(&mut out, texts[i].as_str());
            proof {
                assert(tv.take(i + 1) =~= tv.take(i as int).push(tv[i as int]));
                tv.take(i as int).lemma_flatten_push(tv[i as int]);
            }
            i = i + 1;
        }
        assert(tv.take(texts@.len() as int) =~= tv);
        out
    }

    /// The URL of a linked page.
    pub fn page_url(&self, link: &str) -> (res: String)
        ensures
            res@ == page_url_for(self.base_view(), link@),
    {
        let mut s = copy_str(self.base_url.as_str());
        if ends_with_char(self.base_url.as_str(), '/') {
            let t = trim_start_char(link, '/');
            push_str(&mut s, t.as_str());
        } else {
            push_str(&mut s, link);
        }
        s
    }

    /// The file a linked page is stored in, under the output directory.
    pub fn page_file(&self, link: &str) -> (res: String)
        ensures
            res@ == page_file_for(link@),
    {
        let mut p = trim_start_char(link, '/');
        if p.as_str().is_empty() || ends_with_char(p.as_str(), '/') {
            push_str(&mut p, "/index.html");
        } else {
            push_str(&mut p, ".html");
        }
        p
    }

    /// The content kept of a linked page: the HTML of its first `main`
    /// element, or nothing.
    pub fn page_content(&self, page_html: &str) -> (res: String)
        ensures
            res@ == if css_valid("main"@) && selected_htmls(page_html@, "main"@).len() > 0 {
                selected_htmls(page_html@, "main"@)[0]
            } else {
                Seq::<char>::empty()
            },
    {
        match select_htmls(page_html, "main") {
            Some(found) => {
                if found.len() > 0 {
                    assert(found@.map_values(|s: String| s@)[0] == found@[0]@);
                    copy_str(found[0].as_str())
                } else {
                    String::new()
                }
            },
            None => String::new(),
        }
    }

    /// The text of the index file: name, version, release (or nothing),
    /// type (or `simple`), the base URL as home and code link, and the
    /// entry records.
    pub fn index_json(&self, entries: &Vec<String>) -> (res: String)
        ensures
            res@ == index_text(self.name_view(), self.version_view(),
                match self.release_view() { Some(r) => r, None => Seq::<char>::empty() },
                match self.doc_type_view() { Some(t) => t, None => "simple"@ },
                self.base_view(), views(entries@)),
    {
        let mut s = "{\n  \"name\": \"".to_string();
        push_str(&mut s, self.name.as_str());
        push_str(&mut s, "\",\n  \"version\": \"");
        push_str(&mut s, self.version.as_str());
        push_str(&mut s, "\",\n  \"release\": \"");
        match &self.release {
            Some(r) => push_str(&mut s, r.as_str()),
            None => {},
        }
        push_str(&mut s, "\",\n  \"type\": \"");
        match &self.doc_type {
            Some(t) => push_str(&mut s, t.as_str()),
            None => push_str(&mut s, "simple"),
        }
        push_str(&mut s, "\",\n  \"links\": {\n    \"home\": \"");
        push_str(&mut s, self.base_url.as_str());
        push_str(&mut s, "\",\n    \"code\": \"");
        push_str(&mut s, self.base_url.as_str());
        push_str(&mut s, "\"\n  },\n  \"entries\": [\n    ");
        let joined = join_strings(entries, ",\n    ");
        push_str(&mut s, joined.as_str());
        push_str(&mut s, "\n  ]\n}");
        proof {
            let rel = match self.release_view() { Some(r) => r, None => Seq::<char>::empty() };
            let ty = match self.doc_type_view() { Some(t) => t, None => "simple"@ };
            assert(s@ =~= index_text(self.name_view(), self.version_view(), rel, ty, self.base_view(), views(entries@)));
        }
        s
    }

    /// After a failed fetch: the new count of failures, and whether fetching
    /// gives up.
    pub fn after_failed_fetch(&self, retry_count: u32) -> (res: (u32, bool))
        requires
            retry_count < MAX_RETRIES,
        ensures
            res.0 == retry_count + 1,
            res.1 == (retry_count + 1 >= MAX_RETRIES),
    {
        let n = retry_count + 1;
        (n, n >= MAX_RETRIES)
    }

    /// Whether enough linked pages were stored.
    pub fn page_limit_reached(&self, processed: usize) -> (r: bool)
        ensures
            r == (processed >= MAX_PAGES),
    {
        processed >= MAX_PAGES
    }
}

} // verus!
