//! The content database of a documentation set: pages by path.

use vstd::prelude::*;
use crate::keyed::{keyed_map, distinct_keyed, put_keyed, get_keyed, lemma_keyed_len};
use crate::text::{copy_str, push_str};
use crate::parser::{HtmlParser, cleaned_html};
use crate::html::{css_valid, selected_htmls, select_htmls};
use crate::error::{Error, Result};

verus! {

/// A page: path, title and content.
#[derive(Debug, Clone)]
pub struct Page {
    pub path: String,
    pub title: String,
    pub content: String,
}

/// The abstract value of a page.
pub struct PageView {
    pub path: Seq<char>,
    pub title: Seq<char>,
    pub content: Seq<char>,
}

/// The abstract value of a page.
pub open spec fn page_view(p: Page) -> PageView {
    PageView { path: p.path@, title: p.title@, content: p.content@ }
}

/// The pages of a documentation set, by path.
#[derive(Debug, Clone)]
pub struct Database {
    pages: Vec<(String, Page)>,
}

impl View for Database {
    type V = Map<Seq<char>, PageView>;

    closed spec fn view(&self) -> Map<Seq<char>, PageView> {
        keyed_map(self.pages@).map_values(|p: Page| page_view(p))
    }
}

impl Database {
    /// No path is stored twice.
    pub closed spec fn wf(&self) -> bool {
        distinct_keyed(self.pages@)
    }

    /// An empty database.
    pub fn new() -> (res: Self)
        ensures
            res.wf(),
            res@ == Map::<Seq<char>, PageView>::empty(),
    {
        let res = Database { pages: Vec::new() };
        assert(res@ =~= Map::<Seq<char>, PageView>::empty());
        res
    }

    /// Stores a page under its path, replacing any earlier one.
    pub fn add_page(&mut self, path: &str, title: &str, content: &str)
        requires
            old(self).wf(),
        ensures
            final(self).wf(),
            final(self)@ == old(self)@.insert(path@, PageView { path: path@, title: title@, content: content@ }),
            final(self)@.dom().finite(),
    {
        let page = Page { path: copy_str(path), title: copy_str(title), content: copy_str(content) };
        let ghost pv = page_view(page);
        let ghost m0 = keyed_map(self.pages@);
        put_keyed(&mut self.pages, copy_str(path), page);
        assert(self@ =~= old(self)@.insert(path@, pv));
        proof {
            lemma_keyed_len(self.pages@);
            assert(self@.dom() =~= keyed_map(self.pages@).dom());
        }
    }

    /// The page stored under `path`.
    pub fn get_page(&self, path: &str) -> (res: Option<&Page>)
        requires
            self.wf(),
        ensures
            match res {
                Some(p) => self@.contains_key(path@) && page_view(*p) == self@[path@],
                None => !self@.contains_key(path@),
            },
    {
        get_keyed(&self.pages, path)
    }

    /// The pages with their paths, each path once.
    pub fn pages(&self) -> (res: &Vec<(String, Page)>)
        requires
            self.wf(),
        ensures
            distinct_keyed(res@),
            keyed_map(res@).map_values(|p: Page| page_view(p)) == self@,
    {
        &self.pages
    }

    /// The number of pages.
    pub fn len(&self) -> (r: usize)
        requires
            self.wf(),
        ensures
            r == self@.dom().len(),
            self@.dom().finite(),
    {
        proof {
            lemma_keyed_len(self.pages@);
            assert(self@.dom() =~= keyed_map(self.pages@).dom());
        }
        self.pages.len()
    }

    /// No pages.
    pub fn is_empty(&self) -> (r: bool)
        requires
            self.wf(),
        ensures
            r == (self@.dom().len() == 0),
    {
        self.len() == 0
    }
}

/// `parent/name`, or `name` at the top.
pub open spec fn child_path(parent: Seq<char>, name: Seq<char>) -> Seq<char> {
    if parent.len() == 0 { name } else { parent + "/"@ + name }
}

/// `parent/name`, or `name` at the top.
pub fn join_child(parent: &str, name: &str) -> (res: String)
    ensures
        res@ == child_path(parent@, name@),
{
    if parent.is_empty() {
        copy_str(name)
    } else {
        let mut s = copy_str(parent);
        push_str(&mut s, "/");
        push_str(&mut s, name);
        s
    }
}

/// Builds the content database of a directory of HTML files. The files are
/// walked and read by the caller, which hands each one to `process_html`.
pub struct DatabaseManager {
    pub doc_dir: String,
    pub output_dir: String,
    pub db: Database,
}

impl DatabaseManager {
    /// A manager with an empty database.
    pub fn new(doc_dir: &str, output_dir: &str) -> (res: Self)
        ensures
            res.doc_dir@ == doc_dir@,
            res.output_dir@ == output_dir@,
            res.db.wf(),
            res.db@ == Map::<Seq<char>, PageView>::empty(),
    {
        DatabaseManager { doc_dir: copy_str(doc_dir), output_dir: copy_str(output_dir), db: Database::new() }
    }

    /// The cleaned HTML of the first `body` element.
    pub fn extract_content(&self, parser: &HtmlParser) -> (res: Result<String>)
        ensures
            match res {
                Ok(c) => css_valid("body"@) && selected_htmls(parser@, "body"@).len() > 0
                    && ((css_valid("script, style"@) && css_valid("[class]"@) && css_valid("[id]"@) && css_valid("[style]"@))
                        ==> c@ == crate::html::html_serialized(cleaned_html(selected_htmls(parser@, "body"@)[0]))),
                Err(e) => e matches Error::Message(m) && m@ == "未找到内容"@
                    && !(css_valid("body"@) && selected_htmls(parser@, "body"@).len() > 0),
            },
    {
        match select_htmls(parser.raw(), "body") {
            Some(bodies) => {
                if bodies.len() > 0 {
                    assert(bodies@.map_values(|s: String| s@)[0] == bodies@[0]@);
                    let mut content_parser = HtmlParser::new(bodies[0].as_str());
                    content_parser.clean();
                    Ok(content_parser.html())
                } else {
                    Err(Error::Message("未找到内容".to_string()))
                }
            },
            None => Err(Error::Message("未找到内容".to_string())),
        }
    }

    /// Adds one HTML file, found under `parent_path` as `file_name`: its
    /// title (the file name when it has none) and its cleaned body.
    pub fn process_html(&mut self, file_name: &str, parent_path: &str, html: &str) -> (res: Result<()>)
        requires
            old(self).db.wf(),
        ensures
            final(self).db.wf(),
            final(self).doc_dir == old(self).doc_dir,
            final(self).output_dir == old(self).output_dir,
            res is Ok <==> (css_valid("body"@) && selected_htmls(html@, "body"@).len() > 0),
            res is Ok ==> exists|c: Seq<char>| #[trigger] final(self).db@ == old(self).db@.insert(child_path(parent_path@, file_name@),
                PageView { path: child_path(parent_path@, file_name@), title: page_title(html@, file_name@), content: c })
                && ((css_valid("script, style"@) && css_valid("[class]"@) && css_valid("[id]"@) && css_valid("[style]"@))
                    ==> c == crate::html::html_serialized(cleaned_html(selected_htmls(html@, "body"@)[0]))),
            res is Err ==> final(self).db@ == old(self).db@ && (res matches Err(Error::Message(m)) && m@ == "未找到内容"@),
    {
        let parser = HtmlParser::new(html);
        let file_path = join_child(parent_path, file_name);
        let title = match parser.title() {
            Ok(t) => t,
            Err(_) => copy_str(file_name),
        };
        let content = self.extract_content(&parser)?;
        self.db.add_page(file_path.as_str(), title.as_str(), content.as_str());
        assert(self.db@ == old(self).db@.insert(child_path(parent_path@, file_name@),
            PageView { path: child_path(parent_path@, file_name@), title: page_title(html@, file_name@), content: content@ }));
        Ok(())
    }
}

/// A page read back after it was added: `get_page` finds, under the path
/// added, the page added, and under every other path what it found before.
pub proof fn lemma_get_page_after_add(before: Database, after: Database, path: Seq<char>, page: PageView)
    requires
        after@ == before@.insert(path, page),
    ensures
        after@.contains_key(path),
        after@[path] == page,
        forall|p: Seq<char>| p != path ==> (#[trigger] after@.contains_key(p) <==> before@.contains_key(p)),
        forall|p: Seq<char>| p != path && before@.contains_key(p) ==> #[trigger] after@[p] == before@[p],
{
}

/// The title of a page: the text of its first `title` element, or else the file name.
pub open spec fn page_title(html: Seq<char>, file_name: Seq<char>) -> Seq<char> {
    if css_valid("title"@) && crate::html::selected_texts(html, "title"@).len() > 0 {
        crate::html::selected_texts(html, "title"@)[0]
    } else {
        file_name
    }
}

} // verus!
