//! Images of a page inlined as `data:` URLs. The images are downloaded by
//! the caller; here are decided which are fetched, from where, how their
//! bytes are encoded, and how the page is changed.

use vstd::prelude::*;
use crate::text::{copy_str, push_str, decimal, decimal_string};
use crate::strs::{has_prefix, strip_trailing_char, strip_leading, starts_with,
    trim_end_char, trim_start_char};
use crate::html::{css_valid, html_with_attr, set_attr_matching, selector_is_valid, select_attrs, selected_attrs,
    html_serialized, html_with_attr_by_selectors, set_attr_by_selectors};
use crate::models::entry::opt_view;
use crate::error::{Error, Result};

verus! {

/// Images larger than this many bytes are not inlined.
pub const MAX_IMAGE_SIZE: u64 = 2 * 1024 * 1024;

/// The digit of a 6-bit value in the standard base64 alphabet.
pub open spec fn base64_digit(v: int) -> char {
    if v < 26 {
        ('A' as int + v) as char
    } else if v < 52 {
        ('a' as int + (v - 26)) as char
    } else if v < 62 {
        ('0' as int + (v - 52)) as char
    } else if v == 62 {
        '+'
    } else {
        '/'
    }
}

/// Standard base64 with padding: each three bytes make four digits, and a
/// last one or two bytes make two or three digits padded with `=` to four.
pub open spec fn base64_text(bytes: Seq<u8>) -> Seq<char>
    decreases bytes.len(),
{
    if bytes.len() == 0 {
        Seq::empty()
    } else if bytes.len() == 1 {
        let b0 = bytes[0] as int;
        seq![base64_digit(b0 / 4), base64_digit((b0 % 4) * 16), '=', '=']
    } else if bytes.len() == 2 {
        let (b0, b1) = (bytes[0] as int, bytes[1] as int);
        seq![base64_digit(b0 / 4), base64_digit((b0 % 4) * 16 + b1 / 16), base64_digit((b1 % 16) * 4), '=']
    } else {
        let (b0, b1, b2) = (bytes[0] as int, bytes[1] as int, bytes[2] as int);
        seq![base64_digit(b0 / 4), base64_digit((b0 % 4) * 16 + b1 / 16), base64_digit((b1 % 16) * 4 + b2 / 64),
            base64_digit(b2 % 64)] + base64_text(bytes.skip(3))
    }
}

/// The MIME type that `mime_guess` gives for a path, `application/octet-stream`
/// when it knows none.
pub uninterp spec fn guessed_mime(path: Seq<char>) -> Seq<char>;

/// `base64::encode`, which encodes with the standard alphabet and padding:
/// the text is claimed to be `base64_text` of the bytes.
#[verifier::external_body]
fn base64_encode(bytes: &[u8]) -> (res: String)
    ensures
        res@ == base64_text(bytes@),
{
    base64::encode(bytes)
}

/// `mime_guess::from_path`, its first guess or `application/octet-stream`,
/// without parameters.
#[verifier::external_body]
fn guess_mime(path: &str) -> (res: String)
    ensures
        res@ == guessed_mime(path@),
{
    mime_guess::from_path(path).first_or_octet_stream().essence_str().to_string()
}

/// A URL is taken as relative unless it starts with `http://`, `https://` or `//`.
pub open spec fn is_relative_image_url(url: Seq<char>) -> bool {
    !has_prefix(url, "http://"@) && !has_prefix(url, "https://"@) && !has_prefix(url, "//"@)
}

/// Where an image is fetched from: nowhere for an empty or `data:` source;
/// a relative one without its leading slashes, after the base without its
/// trailing slashes and one slash; an absolute one as it is.
pub open spec fn image_source_url(src: Seq<char>, base: Seq<char>) -> Option<Seq<char>> {
    if has_prefix(src, "data:"@) || src.len() == 0 {
        None
    } else if is_relative_image_url(src) {
        Some(strip_trailing_char(base, '/') + "/"@ + strip_leading(src, '/'))
    } else {
        Some(src)
    }
}

/// The `data:` URL of an image's bytes.
pub open spec fn data_url_of(img_url: Seq<char>, bytes: Seq<u8>) -> Seq<char> {
    "data:"@ + guessed_mime(img_url) + ";base64,"@ + base64_text(bytes)
}

/// The selector of the images whose source is `src`.
pub open spec fn source_selector(src: Seq<char>) -> Seq<char> {
    "img[src='"@ + src + "']"@
}

/// The images of a page that are fetched, among the first `n` matches of
/// `img`: each source with the URL it is fetched from, in page order.
pub open spec fn fetch_list(srcs: Seq<Option<Seq<char>>>, base: Seq<char>, n: int) -> Seq<(Seq<char>, Seq<char>)>
    decreases n,
{
    if n <= 0 {
        Seq::empty()
    } else {
        fetch_list(srcs, base, n - 1) + match srcs[n - 1] {
            Some(src) => match image_source_url(src, base) {
                Some(u) => seq![(src, u)],
                None => Seq::empty(),
            },
            None => Seq::empty(),
        }
    }
}

/// The (selector, new source) of each of the first `n` updates whose
/// selector for the old source parses, in order.
pub open spec fn selector_updates(updates: Seq<(Seq<char>, Seq<char>)>, n: int) -> Seq<(Seq<char>, Seq<char>)>
    decreases n,
{
    if n <= 0 {
        Seq::empty()
    } else {
        let before = selector_updates(updates, n - 1);
        let (old_src, new_src) = updates[n - 1];
        if css_valid(source_selector(old_src)) {
            before.push((source_selector(old_src), new_src))
        } else {
            before
        }
    }
}

/// The views of a list of string pairs.
pub open spec fn pair_views(v: Seq<(String, String)>) -> Seq<(Seq<char>, Seq<char>)> {
    v.map_values(|p: (String, String)| (p.0@, p.1@))
}

/// Inlines the images of a page.
#[derive(Debug, Clone, Default)]
pub struct ImagesFilter;

impl ImagesFilter {
    /// The filter.
    pub fn new() -> (res: Self) {
        ImagesFilter
    }

    /// Whether a URL is taken as relative.
    pub fn relative_url_string(&self, url: &str) -> (r: bool)
        ensures
            r == is_relative_image_url(url@),
    {
        !starts_with(url, "http://") && !starts_with(url, "https://") && !starts_with(url, "//")
    }

    /// Where an image is fetched from, if at all.
    pub fn image_url(&self, src: &str, base_url: &str) -> (res: Option<String>)
        ensures
            match res {
                Some(u) => image_source_url(src@, base_url@) == Some(u@),
                None => image_source_url(src@, base_url@) is None,
            },
    {
        if starts_with(src, "data:") || src.is_empty() {
            return None;
        }
        if self.relative_url_string(src) {
            let mut full = trim_end_char(base_url, '/');
            push_str(&mut full, "/");
            let rest = trim_start_char(src, '/');
            push_str(&mut full, rest.as_str());
            Some(full)
        } else {
            Some(copy_str(src))
        }
    }

    /// The `data:` URL of an image's bytes; an error for an image over
    /// the size limit.
    pub fn data_url(&self, img_url: &str, bytes: &[u8]) -> (res: Result<String>)
        ensures
            bytes@.len() > MAX_IMAGE_SIZE ==> (res matches Err(Error::Message(m))
                && m@ == "Image "@ + img_url@ + " exceeds maximum size of "@ + decimal(MAX_IMAGE_SIZE as nat)),
            bytes@.len() <= MAX_IMAGE_SIZE ==> (res matches Ok(d) && d@ == data_url_of(img_url@, bytes@)),
    {
        if bytes.len() as u64 > MAX_IMAGE_SIZE {
            let mut m = "Image ".to_string();
            push_str(&mut m, img_url);
            push_str(&mut m, " exceeds maximum size of ");
            let d = decimal_string(MAX_IMAGE_SIZE);
            push_str(&mut m, d.as_str());
            return Err(Error::Message(m));
        }
        let mut s = "data:".to_string();
        let mime = guess_mime(img_url);
        push_str(&mut s, mime.as_str());
        push_str(&mut s, ";base64,");
        let b = base64_encode(bytes);
        push_str(&mut s, b.as_str());
        Ok(s)
    }

    /// The selector of the images whose source is `src`.
    pub fn source_selector(&self, src: &str) -> (res: String)
        ensures
            res@ == source_selector(src@),
    {
        let mut s = "img[src='".to_string();
        push_str(&mut s, src);
        push_str(&mut s, "']");
        s
    }

    /// The page with the images whose source is `old_src` pointing at
    /// `new_src`. The selector for `old_src` must parse.
    pub fn update_image(&self, html: &str, old_src: &str, new_src: &str) -> (res: String)
        requires
            css_valid(source_selector(old_src@)),
        ensures
            res@ == html_with_attr(html@, source_selector(old_src@), "src"@, new_src@),
    {
        let sel = self.source_selector(old_src);
        set_attr_matching(html, sel.as_str(), "src", new_src).unwrap()
    }

    /// `update_image`, where the selector for `old_src` parses; `None`
    /// where it does not.
    pub fn try_update_image(&self, html: &str, old_src: &str, new_src: &str) -> (res: Option<String>)
        ensures
            res is None <==> !css_valid(source_selector(old_src@)),
            res matches Some(h) ==> h@ == html_with_attr(html@, source_selector(old_src@), "src"@, new_src@),
    {
        let sel = self.source_selector(old_src);
        if selector_is_valid(sel.as_str()) {
            Some(self.update_image(html, old_src, new_src))
        } else {
            None
        }
    }
}

impl ImagesFilter {
    /// The images of a page to fetch: each `img` source, in page order, with
    /// the URL it is fetched from; empty and `data:` sources are left out.
    pub fn image_sources(&self, html: &str, base_url: &str) -> (res: Vec<(String, String)>)
        ensures
            css_valid("img"@) ==> pair_views(res@) == fetch_list(selected_attrs(html@, "img"@, "src"@), base_url@,
                selected_attrs(html@, "img"@, "src"@).len() as int),
            !css_valid("img"@) ==> res@.len() == 0,
    {
        let mut out: Vec<(String, String)> = Vec::new();
        let srcs = match select_attrs(html, "img", "src") {
            Some(v) => v,
            None => {
                return out;
            },
        };
        let ghost sv = srcs@.map_values(|o: Option<String>| opt_view(o));
        let mut i: usize = 0;
        while i < srcs.len()
            invariant
                0 <= i <= srcs.len(),
                sv == srcs@.map_values(|o: Option<String>| opt_view(o)),
                pair_views(out@) == fetch_list(sv, base_url@, i as int),
            decreases srcs.len() - i,
        {
            let ghost before = pair_views(out@);
            match &srcs[i] {
                Some(src) => {
                    assert(sv[i as int] == Some(src@));
                    match self.image_url(src.as_str(), base_url) {
                        Some(u) => {
                            out.push((copy_str(src.as_str()), u));
                            assert(pair_views(out@) =~= fetch_list(sv, base_url@, i + 1));
                        },
                        None => {
                            assert(pair_views(out@) =~= fetch_list(sv, base_url@, i + 1));
                        },
                    }
                },
                None => {
                    assert(sv[i as int] is None);
                    assert(pair_views(out@) =~= fetch_list(sv, base_url@, i + 1));
                },
            }
            i = i + 1;
        }
        out
    }

    /// The page serialised, with the images of each old source pointing at
    /// its new source, the updates made one after the other on one parsed
    /// document; an update whose selector does not parse is passed over.
    pub fn inline_images(&self, html: &str, updates: &Vec<(String, String)>) -> (res: String)
        ensures
            res@ == html_with_attr_by_selectors(html@, "src"@,
                selector_updates(pair_views(updates@), updates@.len() as int)),
            selector_updates(pair_views(updates@), updates@.len() as int).len() == 0 ==> res@ == html_serialized(html@),
    {
        let mut sels: Vec<(String, String)> = Vec::new();
        let ghost uv = pair_views(updates@);
        let mut i: usize = 0;
        while i < updates.len()
            invariant
                0 <= i <= updates.len(),
                uv == pair_views(updates@),
                pair_views(sels@) == selector_updates(uv, i as int),
                forall|k: int| 0 <= k < sels@.len() ==> css_valid(#[trigger] sels@[k].0@),
            decreases updates.len() - i,
        {
            assert(uv[i as int] == (updates@[i as int].0@, updates@[i as int].1@));
            let sel = self.source_selector(updates[i].0.as_str());
            if selector_is_valid(sel.as_str()) {
                let ghost before = pair_views(sels@);
                sels.push((sel, copy_str(updates[i].1.as_str())));
                assert(pair_views(sels@) =~= before.push(pair_views(sels@).last()));
            }
            i = i + 1;
        }
        set_attr_by_selectors(html, "src", &sels)
    }
}

} // verus!
