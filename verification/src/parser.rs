//! An HTML document with queries and edits by CSS selector.

use vstd::prelude::*;
use crate::error::{Error, Result};
use crate::html::{css_valid, selected_texts, selected_attrs, html_without, html_without_attr,
    html_with_attr, html_replaced, html_serialized, html_text,
    select_texts, select_attrs, selector_is_valid, remove_matching, remove_attr_matching, set_attr_matching,
    add_class_matching, remove_class_matching, replace_matching, serialize_html, document_text};
use crate::models::entry::opt_view;
use crate::text::{occurs_at, find_from, chars_of, occurs_at_exec, find_from_exec, push_char,
    push_str, copy_str};

verus! {

/// `<!--`.
pub open spec fn comment_open() -> Seq<char> {
    seq!['<', '!', '-', '-']
}

/// `-->`.
pub open spec fn comment_close() -> Seq<char> {
    seq!['-', '-', '>']
}

/// `s[i..]` without comments: each `<!--` up to and including the next
/// `-->` is dropped, and an unclosed one runs to the end.
pub open spec fn strip_comments_from(s: Seq<char>, i: int) -> Seq<char>
    decreases s.len() + 1 - i,
{
    if i < 0 || i >= s.len() {
        Seq::<char>::empty()
    } else if occurs_at(s, comment_open(), i) {
        let j = find_from(s, comment_close(), i + 4);
        if j >= 0 {
            proof {
                crate::text::lemma_find_from_found_pub(s, comment_close(), i + 4);
            }
            strip_comments_from(s, j + 3)
        } else {
            Seq::<char>::empty()
        }
    } else {
        seq![s[i]] + strip_comments_from(s, i + 1)
    }
}

/// The HTML without comments.
pub open spec fn strip_comments(s: Seq<char>) -> Seq<char> {
    strip_comments_from(s, 0)
}

/// The HTML after `clean`: scripts and styles removed, comments removed,
/// and the `class`, `id` and `style` attributes removed.
pub open spec fn cleaned_html(h: Seq<char>) -> Seq<char> {
    let a = strip_comments(html_without(h, "script, style"@));
    let b = html_without_attr(a, "[class]"@, "class"@);
    let c = html_without_attr(b, "[id]"@, "id"@);
    html_without_attr(c, "[style]"@, "style"@)
}

/// `s` without comments.
pub fn remove_comments(s: &str) -> (res: String)
    ensures
        res@ == strip_comments(s@),
{
    let v = chars_of(s);
    let open: Vec<char> = vec!['<', '!', '-', '-'];
    let close: Vec<char> = vec!['-', '-', '>'];
    assert(open@ =~= comment_open());
    assert(close@ =~= comment_close());
    let mut out = String::new();
    let mut i: usize = 0;
    while i < v.len()
        invariant
            0 <= i,
            v@ == s@,
            open@ == comment_open(),
            close@ == comment_close(),
            out@ + strip_comments_from(v@, i as int) == strip_comments(v@),
        decreases v.len() + 1 - i,
    {
        if occurs_at_exec(&v, &open, i) {
            match find_from_exec(&v, &close, i + 4) {
                Some(j) => {
                    proof { crate::text::lemma_find_from_found_pub(v@, comment_close(), i + 4); }
                    i = j + 3;
                },
                None => {
                    assert(strip_comments_from(v@, i as int) =~= Seq::<char>::empty());
                    assert(out@ + Seq::<char>::empty() =~= out@);
                    return out;
                },
            }
        } else {
            let ghost before = out@;
            push_char(&mut out, v[i]);
            assert(before + strip_comments_from(v@, i as int) =~= out@ + strip_comments_from(v@, i + 1));
            i = i + 1;
        }
    }
    assert(strip_comments_from(v@, i as int) =~= Seq::<char>::empty());
    assert(out@ + Seq::<char>::empty() =~= out@);
    out
}

/// An HTML document.
pub struct HtmlParser {
    html: String,
}

impl View for HtmlParser {
    type V = Seq<char>;

    closed spec fn view(&self) -> Seq<char> {
        self.html@
    }
}

impl HtmlParser {
    /// A document from its HTML.
    pub fn new(html: &str) -> (res: Self)
        ensures
            res@ == html@,
    {
        HtmlParser { html: copy_str(html) }
    }

    /// The HTML text the document was made from, after any edits.
    pub fn raw(&self) -> (res: &str)
        ensures
            res@ == self@,
    {
        self.html.as_str()
    }

    /// The document, serialised.
    pub fn html(&self) -> (res: String)
        ensures
            res@ == html_serialized(self@),
    {
        serialize_html(self.html.as_str())
    }

    /// The text content of the document.
    pub fn text(&self) -> (res: String)
        ensures
            res@ == html_text(self@),
    {
        document_text(self.html.as_str())
    }

    /// The text of the first `title` element.
    pub fn title(&self) -> (res: Result<String>)
        ensures
            match res {
                Ok(t) => css_valid("title"@) && selected_texts(self@, "title"@).len() > 0
                    && t@ == selected_texts(self@, "title"@)[0],
                Err(e) => e matches Error::Message(m) && m@ == "未找到标题"@
                    && !(css_valid("title"@) && selected_texts(self@, "title"@).len() > 0),
            },
    {
        match select_texts(self.html.as_str(), "title") {
            Some(texts) => {
                if texts.len() > 0 {
                    let t = texts[0].clone();
                    assert(texts@.map_values(|s: String| s@)[0] == texts@[0]@);
                    Ok(t)
                } else {
                    Err(Error::Message("未找到标题".to_string()))
                }
            },
            None => Err(Error::Message("未找到标题".to_string())),
        }
    }

    /// The text of the first element the selector matches.
    pub fn get_text(&self, selector: &str) -> (res: Result<String>)
        requires
            css_valid(selector@),
        ensures
            match res {
                Ok(t) => selected_texts(self@, selector@).len() > 0 && t@ == selected_texts(self@, selector@)[0],
                Err(e) => e matches Error::Message(m) && m@ == "未找到元素: "@ + selector@
                    && selected_texts(self@, selector@).len() == 0,
            },
    {
        let texts = select_texts(self.html.as_str(), selector).unwrap();
        if texts.len() > 0 {
            assert(texts@.map_values(|s: String| s@)[0] == texts@[0]@);
            Ok(texts[0].clone())
        } else {
            let mut m = "未找到元素: ".to_string();
            push_str(&mut m, selector);
            Err(Error::Message(m))
        }
    }

    /// An attribute of the first element the selector matches.
    pub fn get_attr(&self, selector: &str, attr: &str) -> (res: Result<String>)
        requires
            css_valid(selector@),
        ensures
            match res {
                Ok(v) => selected_attrs(self@, selector@, attr@).len() > 0
                    && selected_attrs(self@, selector@, attr@)[0] == Some(v@),
                Err(e) => e matches Error::Message(m) && (
                    if selected_attrs(self@, selector@, attr@).len() == 0 {
                        m@ == "未找到元素: "@ + selector@
                    } else {
                        selected_attrs(self@, selector@, attr@)[0] is None
                            && m@ == "元素没有属性 "@ + attr@ + ": "@ + selector@
                    }),
            },
    {
        let attrs = select_attrs(self.html.as_str(), selector, attr).unwrap();
        if attrs.len() == 0 {
            let mut m = "未找到元素: ".to_string();
            push_str(&mut m, selector);
            return Err(Error::Message(m));
        }
        assert(attrs@.map_values(|o: Option<String>| opt_view(o))[0] == opt_view(attrs@[0]));
        match &attrs[0] {
            Some(v) => Ok(v.clone()),
            None => {
                let mut m = "元素没有属性 ".to_string();
                push_str(&mut m, attr);
                push_str(&mut m, ": ");
                push_str(&mut m, selector);
                Err(Error::Message(m))
            },
        }
    }

    /// The text of every element the selector matches.
    pub fn get_all_text(&self, selector: &str) -> (res: Vec<String>)
        requires
            css_valid(selector@),
        ensures
            res@.map_values(|s: String| s@) == selected_texts(self@, selector@),
    {
        select_texts(self.html.as_str(), selector).unwrap()
    }

    /// The attribute values of the matched elements that have it.
    pub fn get_all_attr(&self, selector: &str, attr: &str) -> (res: Vec<String>)
        requires
            css_valid(selector@),
        ensures
            res@.map_values(|s: String| s@) == present_values(selected_attrs(self@, selector@, attr@)),
    {
        let attrs = select_attrs(self.html.as_str(), selector, attr).unwrap();
        let ghost av = attrs@.map_values(|o: Option<String>| opt_view(o));
        let mut out: Vec<String> = Vec::new();
        let mut i: usize = 0;
        while i < attrs.len()
            invariant
                0 <= i <= attrs.len(),
                av == attrs@.map_values(|o: Option<String>| opt_view(o)),
                out@.map_values(|s: String| s@) == present_values(av.take(i as int)),
            decreases attrs.len() - i,
        {
            proof {
                assert(av.take(i + 1).drop_last() =~= av.take(i as int));
                assert(av.take(i + 1).last() == opt_view(attrs@[i as int]));
            }
            match &attrs[i] {
                Some(v) => {
                    let ghost before = out@;
                    out.push(v.clone());
                    assert(out@.map_values(|s: String| s@) =~= before.map_values(|s: String| s@).push(v@));
                },
                None => {},
            }
            i = i + 1;
        }
        proof { assert(av.take(av.len() as int) =~= av); }
        out
    }

    /// Removes the matched elements.
    pub fn remove(&mut self, selector: &str)
        requires
            css_valid(selector@),
        ensures
            final(self)@ == html_without(old(self)@, selector@),
    {
        self.html = remove_matching(self.html.as_str(), selector).unwrap();
    }

    /// Replaces the matched elements by parsed HTML.
    pub fn replace(&mut self, selector: &str, html: &str)
        requires
            css_valid(selector@),
        ensures
            final(self)@ == html_replaced(old(self)@, selector@, html@),
    {
        self.html = replace_matching(self.html.as_str(), selector, html).unwrap();
    }

    /// Adds a class to the matched elements. The document after it is left
    /// unsaid: the order of the class names in each attribute varies.
    pub fn add_class(&mut self, selector: &str, class: &str)
        requires
            css_valid(selector@),
    {
        self.html = add_class_matching(self.html.as_str(), selector, class).unwrap();
    }

    /// Removes a class from the matched elements. The document after it is
    /// left unsaid: the order of the class names in each attribute varies.
    pub fn remove_class(&mut self, selector: &str, class: &str)
        requires
            css_valid(selector@),
    {
        self.html = remove_class_matching(self.html.as_str(), selector, class).unwrap();
    }

    /// Sets an attribute on the matched elements.
    pub fn set_attr(&mut self, selector: &str, attr: &str, value: &str)
        requires
            css_valid(selector@),
        ensures
            final(self)@ == html_with_attr(old(self)@, selector@, attr@, value@),
    {
        self.html = set_attr_matching(self.html.as_str(), selector, attr, value).unwrap();
    }

    /// Removes an attribute from the matched elements.
    pub fn remove_attr(&mut self, selector: &str, attr: &str)
        requires
            css_valid(selector@),
        ensures
            final(self)@ == html_without_attr(old(self)@, selector@, attr@),
    {
        self.html = remove_attr_matching(self.html.as_str(), selector, attr).unwrap();
    }

    /// `get_text`, where the selector parses; `None` where it does not.
    pub fn try_get_text(&self, selector: &str) -> (res: Option<Result<String>>)
        ensures
            res is None <==> !css_valid(selector@),
            res matches Some(Ok(t)) ==> selected_texts(self@, selector@).len() > 0
                && t@ == selected_texts(self@, selector@)[0],
            res matches Some(Err(e)) ==> (e matches Error::Message(m) && m@ == "未找到元素: "@ + selector@
                && selected_texts(self@, selector@).len() == 0),
    {
        if selector_is_valid(selector) { Some(self.get_text(selector)) } else { None }
    }

    /// `get_attr`, where the selector parses; `None` where it does not.
    pub fn try_get_attr(&self, selector: &str, attr: &str) -> (res: Option<Result<String>>)
        ensures
            res is None <==> !css_valid(selector@),
            res matches Some(Ok(v)) ==> selected_attrs(self@, selector@, attr@).len() > 0
                && selected_attrs(self@, selector@, attr@)[0] == Some(v@),
            res matches Some(Err(e)) ==> (e matches Error::Message(m) && (
                if selected_attrs(self@, selector@, attr@).len() == 0 {
                    m@ == "未找到元素: "@ + selector@
                } else {
                    selected_attrs(self@, selector@, attr@)[0] is None
                        && m@ == "元素没有属性 "@ + attr@ + ": "@ + selector@
                })),
    {
        if selector_is_valid(selector) { Some(self.get_attr(selector, attr)) } else { None }
    }

    /// `get_all_text`, where the selector parses; `None` where it does not.
    pub fn try_get_all_text(&self, selector: &str) -> (res: Option<Vec<String>>)
        ensures
            res is None <==> !css_valid(selector@),
            res matches Some(v) ==> v@.map_values(|s: String| s@) == selected_texts(self@, selector@),
    {
        if selector_is_valid(selector) { Some(self.get_all_text(selector)) } else { None }
    }

    /// `get_all_attr`, where the selector parses; `None` where it does not.
    pub fn try_get_all_attr(&self, selector: &str, attr: &str) -> (res: Option<Vec<String>>)
        ensures
            res is None <==> !css_valid(selector@),
            res matches Some(v) ==> v@.map_values(|s: String| s@) == present_values(selected_attrs(self@, selector@, attr@)),
    {
        if selector_is_valid(selector) { Some(self.get_all_attr(selector, attr)) } else { None }
    }

    /// `remove`, where the selector parses; whether it did.
    pub fn try_remove(&mut self, selector: &str) -> (done: bool)
        ensures
            done == css_valid(selector@),
            done ==> final(self)@ == html_without(old(self)@, selector@),
            !done ==> final(self)@ == old(self)@,
    {
        if selector_is_valid(selector) { self.remove(selector); true } else { false }
    }

    /// `replace`, where the selector parses; whether it did.
    pub fn try_replace(&mut self, selector: &str, html: &str) -> (done: bool)
        ensures
            done == css_valid(selector@),
            done ==> final(self)@ == html_replaced(old(self)@, selector@, html@),
            !done ==> final(self)@ == old(self)@,
    {
        if selector_is_valid(selector) { self.replace(selector, html); true } else { false }
    }

    /// `add_class`, where the selector parses; whether it did.
    pub fn try_add_class(&mut self, selector: &str, class: &str) -> (done: bool)
        ensures
            done == css_valid(selector@),
            !done ==> final(self)@ == old(self)@,
    {
        if selector_is_valid(selector) { self.add_class(selector, class); true } else { false }
    }

    /// `remove_class`, where the selector parses; whether it did.
    pub fn try_remove_class(&mut self, selector: &str, class: &str) -> (done: bool)
        ensures
            done == css_valid(selector@),
            !done ==> final(self)@ == old(self)@,
    {
        if selector_is_valid(selector) { self.remove_class(selector, class); true } else { false }
    }

    /// `set_attr`, where the selector parses; whether it did.
    pub fn try_set_attr(&mut self, selector: &str, attr: &str, value: &str) -> (done: bool)
        ensures
            done == css_valid(selector@),
            done ==> final(self)@ == html_with_attr(old(self)@, selector@, attr@, value@),
            !done ==> final(self)@ == old(self)@,
    {
        if selector_is_valid(selector) { self.set_attr(selector, attr, value); true } else { false }
    }

    /// `remove_attr`, where the selector parses; whether it did.
    pub fn try_remove_attr(&mut self, selector: &str, attr: &str) -> (done: bool)
        ensures
            done == css_valid(selector@),
            done ==> final(self)@ == html_without_attr(old(self)@, selector@, attr@),
            !done ==> final(self)@ == old(self)@,
    {
        if selector_is_valid(selector) { self.remove_attr(selector, attr); true } else { false }
    }

    /// Removes scripts, styles and comments, and the `class`, `id` and
    /// `style` attributes. Nothing changes where a selector would not parse.
    pub fn clean(&mut self)
        ensures
            (css_valid("script, style"@) && css_valid("[class]"@) && css_valid("[id]"@) && css_valid("[style]"@))
                ==> final(self)@ == cleaned_html(old(self)@),
    {
        let a = match remove_matching(self.html.as_str(), "script, style") {
            Some(h) => h,
            None => return,
        };
        let a = remove_comments(a.as_str());
        let b = match remove_attr_matching(a.as_str(), "[class]", "class") {
            Some(h) => h,
            None => return,
        };
        let c = match remove_attr_matching(b.as_str(), "[id]", "id") {
            Some(h) => h,
            None => return,
        };
        let d = match remove_attr_matching(c.as_str(), "[style]", "style") {
            Some(h) => h,
            None => return,
        };
        self.html = d;
    }
}

/// The present values, in order.
pub open spec fn present_values(s: Seq<Option<Seq<char>>>) -> Seq<Seq<char>>
    decreases s.len(),
{
    if s.len() == 0 {
        Seq::<Seq<char>>::empty()
    } else {
        let r = present_values(s.drop_last());
        match s.last() {
            Some(v) => r.push(v),
            None => r,
        }
    }
}

/// A document from its HTML.
pub fn parse_html(html: &str) -> (res: HtmlParser)
    ensures
        res@ == html@,
{
    HtmlParser::new(html)
}

} // verus!
