//! HTML queries and edits, done by the `nipper` crate.
//!
//! A document is held as its HTML text; each query parses it, and each edit
//! gives back the serialised result. What `nipper` computes is named here
//! and not restated: every name below is a function of its arguments. The
//! class edits get no name, as their result is not one.

use vstd::prelude::*;
use nipper::{Document, Matcher};

verus! {

/// `nipper::Matcher::new` accepts the CSS selector.
pub uninterp spec fn css_valid(sel: Seq<char>) -> bool;

/// The text of each element that the selector matches, in document order.
pub uninterp spec fn selected_texts(html: Seq<char>, sel: Seq<char>) -> Seq<Seq<char>>;

/// The value of an attribute on each element that the selector matches.
pub uninterp spec fn selected_attrs(html: Seq<char>, sel: Seq<char>, attr: Seq<char>) -> Seq<Option<Seq<char>>>;

/// The outer HTML of each element that the selector matches.
pub uninterp spec fn selected_htmls(html: Seq<char>, sel: Seq<char>) -> Seq<Seq<char>>;

/// The document, serialised after the matched elements are removed.
pub uninterp spec fn html_without(html: Seq<char>, sel: Seq<char>) -> Seq<char>;

/// The document, serialised after an attribute is removed from the matched elements.
pub uninterp spec fn html_without_attr(html: Seq<char>, sel: Seq<char>, attr: Seq<char>) -> Seq<char>;

/// The document, serialised after an attribute is set on the matched elements.
pub uninterp spec fn html_with_attr(html: Seq<char>, sel: Seq<char>, attr: Seq<char>, value: Seq<char>) -> Seq<char>;

/// The document, serialised after, for each `(selector, value)` in turn,
/// the attribute is set on the elements the selector matches.
pub uninterp spec fn html_with_attr_by_selectors(html: Seq<char>, attr: Seq<char>,
    updates: Seq<(Seq<char>, Seq<char>)>) -> Seq<char>;

/// The document, serialised after the matched elements are replaced by parsed HTML.
pub uninterp spec fn html_replaced(html: Seq<char>, sel: Seq<char>, new_html: Seq<char>) -> Seq<char>;

/// The document, serialised after, for each `(i, value)` in turn, the
/// attribute of the `i`-th matched element (in document order) is set to
/// the value.
pub uninterp spec fn html_with_attr_updates(html: Seq<char>, sel: Seq<char>, attr: Seq<char>,
    updates: Seq<(usize, Seq<char>)>) -> Seq<char>;

/// The positions, among the first `n`, that hold a value, each with it.
pub open spec fn value_updates(values: Seq<Option<Seq<char>>>, n: int) -> Seq<(usize, Seq<char>)>
    decreases n,
{
    if n <= 0 {
        Seq::empty()
    } else {
        value_updates(values, n - 1) + match values[n - 1] {
            Some(v) => seq![((n - 1) as usize, v)],
            None => Seq::empty(),
        }
    }
}

/// The document, serialised after the attribute of each matched element,
/// in document order, is set to its value; no value leaves an element as
/// it is.
pub open spec fn html_with_attr_values(html: Seq<char>, sel: Seq<char>, attr: Seq<char>, values: Seq<Option<Seq<char>>>) -> Seq<char> {
    html_with_attr_updates(html, sel, attr, value_updates(values, values.len() as int))
}

/// The parsed document, serialised.
pub uninterp spec fn html_serialized(html: Seq<char>) -> Seq<char>;

/// The text content of the parsed document.
pub uninterp spec fn html_text(html: Seq<char>) -> Seq<char>;

/// Whether `nipper::Matcher::new` accepts the selector.
#[verifier::external_body]
pub(crate) fn selector_is_valid(sel: &str) -> (r: bool)
    ensures
        r == css_valid(sel@),
{
    Matcher::new(sel).is_ok()
}

/// `Document::select_matcher`, then the text of each matched node;
/// `None` when the selector does not parse.
#[verifier::external_body]
pub(crate) fn select_texts(html: &str, sel: &str) -> (res: Option<Vec<String>>)
    ensures
        match res {
            Some(v) => css_valid(sel@) && v@.map_values(|s: String| s@) == selected_texts(html@, sel@),
            None => !css_valid(sel@),
        },
{
    match Matcher::new(sel) {
        Ok(m) => {
            let doc = Document::from(html);
            let found = doc.select_matcher(&m);
            Some(found.nodes().iter().map(|n| n.text().to_string()).collect())
        },
        Err(_) => None,
    }
}

/// `Document::select_matcher`, then `Node::attr` on each matched node;
/// `None` when the selector does not parse. There is one value per match.
#[verifier::external_body]
pub(crate) fn select_attrs(html: &str, sel: &str, attr: &str) -> (res: Option<Vec<Option<String>>>)
    ensures
        match res {
            Some(v) => css_valid(sel@) && v@.len() == selected_texts(html@, sel@).len()
                && v@.map_values(|o: Option<String>| crate::models::entry::opt_view(o)) == selected_attrs(html@, sel@, attr@),
            None => !css_valid(sel@),
        },
{
    match Matcher::new(sel) {
        Ok(m) => {
            let doc = Document::from(html);
            let found = doc.select_matcher(&m);
            Some(found.nodes().iter().map(|n| n.attr(attr).map(|a| a.to_string())).collect())
        },
        Err(_) => None,
    }
}

/// `Document::select_matcher`, then `Node::html` on each matched node;
/// `None` when the selector does not parse. There is one value per match.
#[verifier::external_body]
pub(crate) fn select_htmls(html: &str, sel: &str) -> (res: Option<Vec<String>>)
    ensures
        match res {
            Some(v) => css_valid(sel@) && v@.len() == selected_texts(html@, sel@).len()
                && v@.map_values(|s: String| s@) == selected_htmls(html@, sel@),
            None => !css_valid(sel@),
        },
{
    match Matcher::new(sel) {
        Ok(m) => {
            let doc = Document::from(html);
            let found = doc.select_matcher(&m);
            Some(found.nodes().iter().map(|n| n.html().to_string()).collect())
        },
        Err(_) => None,
    }
}

/// `Selection::remove` on the matched elements, then `Document::html`;
/// `None` when the selector does not parse.
#[verifier::external_body]
pub(crate) fn remove_matching(html: &str, sel: &str) -> (res: Option<String>)
    ensures
        match res {
            Some(s) => css_valid(sel@) && s@ == html_without(html@, sel@),
            None => !css_valid(sel@),
        },
{
    match Matcher::new(sel) {
        Ok(m) => {
            let doc = Document::from(html);
            doc.select_matcher(&m).remove();
            Some(doc.html().to_string())
        },
        Err(_) => None,
    }
}

/// `Selection::remove_attr` on the matched elements, then `Document::html`;
/// `None` when the selector does not parse.
#[verifier::external_body]
pub(crate) fn remove_attr_matching(html: &str, sel: &str, attr: &str) -> (res: Option<String>)
    ensures
        match res {
            Some(s) => css_valid(sel@) && s@ == html_without_attr(html@, sel@, attr@),
            None => !css_valid(sel@),
        },
{
    match Matcher::new(sel) {
        Ok(m) => {
            let doc = Document::from(html);
            doc.select_matcher(&m).remove_attr(attr);
            Some(doc.html().to_string())
        },
        Err(_) => None,
    }
}

/// `Selection::set_attr` on the matched elements, then `Document::html`;
/// `None` when the selector does not parse.
#[verifier::external_body]
pub(crate) fn set_attr_matching(html: &str, sel: &str, attr: &str, value: &str) -> (res: Option<String>)
    ensures
        match res {
            Some(s) => css_valid(sel@) && s@ == html_with_attr(html@, sel@, attr@, value@),
            None => !css_valid(sel@),
        },
{
    match Matcher::new(sel) {
        Ok(m) => {
            let doc = Document::from(html);
            doc.select_matcher(&m).set_attr(attr, value);
            Some(doc.html().to_string())
        },
        Err(_) => None,
    }
}

/// `Selection::add_class` on the matched elements, then `Document::html`;
/// `None` when the selector does not parse. The document it gives is left
/// unsaid: `add_class` rebuilds each class attribute from a `HashSet`, so
/// the order of the class names changes from one process to the next.
#[verifier::external_body]
pub(crate) fn add_class_matching(html: &str, sel: &str, class: &str) -> (res: Option<String>)
    ensures
        res is Some <==> css_valid(sel@),
{
    match Matcher::new(sel) {
        Ok(m) => {
            let doc = Document::from(html);
            doc.select_matcher(&m).add_class(class);
            Some(doc.html().to_string())
        },
        Err(_) => None,
    }
}

/// `Selection::remove_class` on the matched elements, then `Document::html`;
/// `None` when the selector does not parse. The document it gives is left
/// unsaid: `remove_class` rebuilds each class attribute from a `HashSet`,
/// so the order of the class names changes from one process to the next.
#[verifier::external_body]
pub(crate) fn remove_class_matching(html: &str, sel: &str, class: &str) -> (res: Option<String>)
    ensures
        res is Some <==> css_valid(sel@),
{
    match Matcher::new(sel) {
        Ok(m) => {
            let doc = Document::from(html);
            doc.select_matcher(&m).remove_class(class);
            Some(doc.html().to_string())
        },
        Err(_) => None,
    }
}

/// `Selection::replace_with_html` on the matched elements, then
/// `Document::html`; `None` when the selector does not parse.
#[verifier::external_body]
pub(crate) fn replace_matching(html: &str, sel: &str, new_html: &str) -> (res: Option<String>)
    ensures
        match res {
            Some(s) => css_valid(sel@) && s@ == html_replaced(html@, sel@, new_html@),
            None => !css_valid(sel@),
        },
{
    match Matcher::new(sel) {
        Ok(m) => {
            let doc = Document::from(html);
            doc.select_matcher(&m).replace_with_html(new_html);
            Some(doc.html().to_string())
        },
        Err(_) => None,
    }
}

/// `Document::select_matcher`, then `Node::set_attr` on the matched node
/// at each position given, in the order given, then `Document::html`;
/// `None` when the selector does not parse. Every position is below the
/// number of matches.
#[verifier::external_body]
fn set_attr_at(html: &str, sel: &str, attr: &str, updates: &Vec<(usize, String)>) -> (res: Option<String>)
    requires
        css_valid(sel@) ==> forall|k: int| 0 <= k < updates@.len()
            ==> (#[trigger] updates@[k]).0 < selected_texts(html@, sel@).len(),
    ensures
        match res {
            Some(s) => css_valid(sel@) && s@ == html_with_attr_updates(html@, sel@, attr@,
                updates@.map_values(|u: (usize, String)| (u.0, u.1@))),
            None => !css_valid(sel@),
        },
{
    match Matcher::new(sel) {
        Ok(m) => {
            let doc = Document::from(html);
            let selection = doc.select_matcher(&m);
            let nodes = selection.nodes();
            for (i, value) in updates.iter() {
                nodes[*i].set_attr(attr, value);
            }
            Some(doc.html().to_string())
        },
        Err(_) => None,
    }
}

/// The page with the attribute of each matched element set to its value,
/// serialised; no value leaves an element as it is. `None` when the
/// selector does not parse. There is one value per match.
pub(crate) fn set_attr_each(html: &str, sel: &str, attr: &str, values: &Vec<Option<String>>) -> (res: Option<String>)
    requires
        css_valid(sel@) ==> values@.len() == selected_texts(html@, sel@).len(),
    ensures
        match res {
            Some(s) => css_valid(sel@) && s@ == html_with_attr_values(html@, sel@, attr@,
                values@.map_values(|o: Option<String>| crate::models::entry::opt_view(o))),
            None => !css_valid(sel@),
        },
{
    let ghost vv = values@.map_values(|o: Option<String>| crate::models::entry::opt_view(o));
    let mut updates: Vec<(usize, String)> = Vec::new();
    let mut i: usize = 0;
    while i < values.len()
        invariant
            0 <= i <= values.len(),
            vv == values@.map_values(|o: Option<String>| crate::models::entry::opt_view(o)),
            updates@.map_values(|u: (usize, String)| (u.0, u.1@)) == value_updates(vv, i as int),
            forall|k: int| 0 <= k < updates@.len() ==> (#[trigger] updates@[k]).0 < i,
        decreases values.len() - i,
    {
        let ghost before = updates@.map_values(|u: (usize, String)| (u.0, u.1@));
        match &values[i] {
            Some(v) => {
                updates.push((i, crate::text::copy_str(v.as_str())));
                assert(updates@.map_values(|u: (usize, String)| (u.0, u.1@)) =~= before.push((i, v@)));
            },
            None => {},
        }
        assert(updates@.map_values(|u: (usize, String)| (u.0, u.1@)) =~= value_updates(vv, i + 1));
        i = i + 1;
    }
    set_attr_at(html, sel, attr, &updates)
}

/// `Document::select` then `Selection::set_attr` for each selector and
/// value in turn, all on one document, then `Document::html`. Every
/// selector parses (`select` panics on one that does not). Without
/// updates, the document serialised as it was parsed.
#[verifier::external_body]
pub(crate) fn set_attr_by_selectors(html: &str, attr: &str, updates: &Vec<(String, String)>) -> (res: String)
    requires
        forall|k: int| 0 <= k < updates@.len() ==> css_valid(#[trigger] updates@[k].0@),
    ensures
        res@ == html_with_attr_by_selectors(html@, attr@, updates@.map_values(|u: (String, String)| (u.0@, u.1@))),
        updates@.len() == 0 ==> res@ == html_serialized(html@),
{
    let doc = Document::from(html);
    for (sel, value) in updates.iter() {
        doc.select(sel).set_attr(attr, value);
    }
    doc.html().to_string()
}

/// `Document::from` then `Document::html`.
#[verifier::external_body]
pub(crate) fn serialize_html(html: &str) -> (res: String)
    ensures
        res@ == html_serialized(html@),
{
    Document::from(html).html().to_string()
}

/// `Document::from` then `Document::text`.
#[verifier::external_body]
pub(crate) fn document_text(html: &str) -> (res: String)
    ensures
        res@ == html_text(html@),
{
    Document::from(html).text().to_string()
}

} // verus!
