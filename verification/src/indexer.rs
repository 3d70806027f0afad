//! The index of a directory of HTML files: its directories, its pages and
//! the headings of each page. The files are walked and read by the caller,
//! which hands each directory to `add_directory` and each page to
//! `process_html`.

use vstd::prelude::*;
use crate::text::{copy_str, push_str, push_char, trim, trim_seq, to_lowercase, lowercase, str_eq, chars_of};
use crate::html::{css_valid, selected_texts, selected_attrs, select_texts, select_attrs};
use crate::models::entry::opt_view;
use crate::parser::HtmlParser;
use crate::db::page_title;
use crate::strs::{has_suffix, ends_with};

verus! {

/// A file name whose extension is `html` or `htm`: what follows its last
/// `.`, with something before that `.`.
pub open spec fn html_name(name: Seq<char>) -> bool {
    (has_suffix(name, ".html"@) && name.len() > 5) || (has_suffix(name, ".htm"@) && name.len() > 4)
}

/// Whether a file is indexed as a page, by its name.
pub fn is_html_name(name: &str) -> (r: bool)
    ensures
        r == html_name(name@),
{
    proof {
        reveal_strlit(".html");
        reveal_strlit(".htm");
    }
    let n = chars_of(name).len();
    (ends_with(name, ".html") && n > 5) || (ends_with(name, ".htm") && n > 4)
}

/// One indexed item.
#[derive(Debug, Clone)]
pub struct Entry {
    pub name: String,
    pub path: String,
    pub type_str: String,
    pub parent: Option<String>,
}

/// The abstract value of an indexed item.
pub struct EntryView {
    pub name: Seq<char>,
    pub path: Seq<char>,
    pub type_str: Seq<char>,
    pub parent: Option<Seq<char>>,
}

impl View for Entry {
    type V = EntryView;

    open spec fn view(&self) -> EntryView {
        EntryView { name: self.name@, path: self.path@, type_str: self.type_str@, parent: opt_view(self.parent) }
    }
}

/// The item last added under `path`, if any.
pub open spec fn latest_entry(s: Seq<EntryView>, path: Seq<char>) -> Option<EntryView>
    decreases s.len(),
{
    if s.len() == 0 {
        None
    } else if s.last().path == path {
        Some(s.last())
    } else {
        latest_entry(s.drop_last(), path)
    }
}

/// The items of a documentation set, in the order they were added.
#[derive(Debug, Clone)]
pub struct Index {
    pub entries: Vec<Entry>,
}

impl View for Index {
    type V = Seq<EntryView>;

    open spec fn view(&self) -> Seq<EntryView> {
        self.entries@.map_values(|e: Entry| e@)
    }
}

/// A copy of an optional string slice.
fn owned_opt(o: Option<&str>) -> (res: Option<String>)
    ensures
        opt_view(res) == match o { Some(s) => Some(s@), None => None::<Seq<char>> },
{
    match o {
        Some(s) => Some(copy_str(s)),
        None => None,
    }
}

impl Index {
    /// An empty index.
    pub fn new() -> (res: Self)
        ensures
            res@ == Seq::<EntryView>::empty(),
    {
        let res = Index { entries: Vec::new() };
        assert(res@ =~= Seq::<EntryView>::empty());
        res
    }

    /// Appends an item.
    pub fn add_entry(&mut self, name: &str, path: &str, type_str: &str, parent: Option<&str>)
        ensures
            final(self)@ == old(self)@.push(EntryView {
                name: name@,
                path: path@,
                type_str: type_str@,
                parent: match parent { Some(p) => Some(p@), None => None },
            }),
    {
        let entry = Entry {
            name: copy_str(name),
            path: copy_str(path),
            type_str: copy_str(type_str),
            parent: owned_opt(parent),
        };
        self.entries.push(entry);
        assert(self@ =~= old(self)@.push(entry@));
    }

    /// The item last added under `path`.
    pub fn get_entry(&self, path: &str) -> (res: Option<&Entry>)
        ensures
            match res {
                Some(e) => latest_entry(self@, path@) == Some(e@),
                None => latest_entry(self@, path@) is None,
            },
    {
        let ghost s = self@;
        let mut j: usize = self.entries.len();
        assert(s.take(j as int) =~= s);
        while j > 0
            invariant
                j <= self.entries.len(),
                s == self@,
                latest_entry(s, path@) == latest_entry(s.take(j as int), path@),
            decreases j,
        {
            let ghost t = s.take(j as int);
            assert(t.drop_last() =~= s.take(j - 1));
            assert(t.last() == self.entries@[j - 1]@);
            if str_eq(self.entries[j - 1].path.as_str(), path) {
                return Some(&self.entries[j - 1]);
            }
            j = j - 1;
        }
        None
    }

    /// The number of items.
    pub fn len(&self) -> (r: usize)
        ensures
            r == self@.len(),
    {
        self.entries.len()
    }

    /// No items.
    pub fn is_empty(&self) -> (r: bool)
        ensures
            r == (self@.len() == 0),
    {
        self.entries.len() == 0
    }
}

/// An item added last is what a read under its path gives back.
pub proof fn lemma_latest_after_push(s: Seq<EntryView>, e: EntryView)
    ensures
        latest_entry(s.push(e), e.path) == Some(e),
{
    assert(s.push(e).last() == e);
}

/// Adding an item leaves what is read under any other path unchanged.
pub proof fn lemma_latest_other_path(s: Seq<EntryView>, e: EntryView, path: Seq<char>)
    requires
        e.path != path,
    ensures
        latest_entry(s.push(e), path) == latest_entry(s, path),
{
    assert(s.push(e).drop_last() =~= s);
}

/// `parent/name`, or `name` at the top.
pub open spec fn sub_path(parent: Option<Seq<char>>, name: Seq<char>) -> Seq<char> {
    match parent {
        Some(p) => p + "/"@ + name,
        None => name,
    }
}

/// The text with each space turned into a hyphen.
pub open spec fn dashed(s: Seq<char>) -> Seq<char> {
    s.map_values(|c: char| if c == ' ' { '-' } else { c })
}

/// The anchor of a heading: its `id`, or else its lowercased name with
/// hyphens for spaces.
pub open spec fn heading_id(name: Seq<char>, id: Option<Seq<char>>) -> Seq<char> {
    match id {
        Some(x) => x,
        None => dashed(lowercase(name)),
    }
}

/// The items for the first `n` of the headings with the given texts and
/// `id` attributes; a heading with a blank text gives none.
pub open spec fn headings_upto(
    texts: Seq<Seq<char>>,
    ids: Seq<Option<Seq<char>>>,
    type_str: Seq<char>,
    parent: Seq<char>,
    n: int,
) -> Seq<EntryView>
    decreases n,
{
    if n <= 0 {
        Seq::empty()
    } else {
        let before = headings_upto(texts, ids, type_str, parent, n - 1);
        let name = trim_seq(texts[n - 1]);
        if name.len() == 0 {
            before
        } else {
            before.push(EntryView {
                name: name,
                path: parent + "#"@ + heading_id(name, ids[n - 1]),
                type_str: type_str,
                parent: Some(parent),
            })
        }
    }
}

/// The items for the elements of a page that a heading selector matches.
pub open spec fn level_entries(html: Seq<char>, sel: Seq<char>, type_str: Seq<char>, parent: Seq<char>) -> Seq<EntryView> {
    if css_valid(sel) {
        headings_upto(
            selected_texts(html, sel),
            selected_attrs(html, sel, "id"@),
            type_str,
            parent,
            selected_texts(html, sel).len() as int,
        )
    } else {
        Seq::empty()
    }
}

/// The items for the headings of a page, level by level: `h1` sections,
/// `h2` subsections, `h3` methods, `h4` properties, `h5` parameters and
/// `h6` details.
pub open spec fn page_headings(html: Seq<char>, parent: Seq<char>) -> Seq<EntryView> {
    level_entries(html, "h1"@, "Section"@, parent)
        + level_entries(html, "h2"@, "Subsection"@, parent)
        + level_entries(html, "h3"@, "Method"@, parent)
        + level_entries(html, "h4"@, "Property"@, parent)
        + level_entries(html, "h5"@, "Parameter"@, parent)
        + level_entries(html, "h6"@, "Detail"@, parent)
}

/// `parent/name`, or `name` at the top.
pub fn join_sub_path(parent: Option<&str>, name: &str) -> (res: String)
    ensures
        res@ == sub_path(match parent { Some(p) => Some(p@), None => None }, name@),
{
    match parent {
        Some(p) => {
            let mut s = copy_str(p);
            push_str(&mut s, "/");
            push_str(&mut s, name);
            s
        },
        None => copy_str(name),
    }
}

/// The text with each space turned into a hyphen.
pub fn dash_spaces(s: &str) -> (res: String)
    ensures
        res@ == dashed(s@),
{
    let v = chars_of(s);
    let mut out = String::new();
    let mut i: usize = 0;
    while i < v.len()
        invariant
            0 <= i <= v.len(),
            v@ == s@,
            out@ == dashed(s@).take(i as int),
        decreases v.len() - i,
    {
        let c = if v[i] == ' ' { '-' } else { v[i] };
        push_char(&mut out, c);
        assert(out@ =~= dashed(s@).take(i + 1));
        i = i + 1;
    }
    assert(dashed(s@).take(i as int) =~= dashed(s@));
    out
}

/// Builds the index of a directory of HTML files.
pub struct Indexer {
    pub doc_dir: String,
    pub output_dir: String,
    pub index: Index,
}

impl Indexer {
    /// An indexer with an empty index.
    pub fn new(doc_dir: &str, output_dir: &str) -> (res: Self)
        ensures
            res.doc_dir@ == doc_dir@,
            res.output_dir@ == output_dir@,
            res.index@ == Seq::<EntryView>::empty(),
    {
        Indexer { doc_dir: copy_str(doc_dir), output_dir: copy_str(output_dir), index: Index::new() }
    }

    /// Adds a directory found under `parent` as `dir_name`, and gives back
    /// its path, under which its contents are added.
    pub fn add_directory(&mut self, dir_name: &str, parent: Option<&str>) -> (dir_path: String)
        ensures
            dir_path@ == sub_path(match parent { Some(p) => Some(p@), None => None }, dir_name@),
            final(self).doc_dir == old(self).doc_dir,
            final(self).output_dir == old(self).output_dir,
            final(self).index@ == old(self).index@.push(EntryView {
                name: dir_name@,
                path: dir_path@,
                type_str: "Directory"@,
                parent: match parent { Some(p) => Some(p@), None => None },
            }),
    {
        let dir_path = join_sub_path(parent, dir_name);
        self.index.add_entry(dir_name, dir_path.as_str(), "Directory", parent);
        dir_path
    }

    /// Adds an HTML page found under `parent` as `file_name`: the page itself,
    /// under its title (the file name when it has none), then its headings.
    pub fn process_html(&mut self, file_name: &str, parent: Option<&str>, html: &str)
        ensures
            final(self).doc_dir == old(self).doc_dir,
            final(self).output_dir == old(self).output_dir,
            ({
                let par = match parent { Some(p) => Some(p@), None => None::<Seq<char>> };
                let file_path = sub_path(par, file_name@);
                final(self).index@ == old(self).index@.push(EntryView {
                    name: page_title(html@, file_name@),
                    path: file_path,
                    type_str: "Page"@,
                    parent: par,
                }) + page_headings(html@, file_path)
            }),
    {
        let parser = HtmlParser::new(html);
        let file_path = join_sub_path(parent, file_name);
        let title = match parser.title() {
            Ok(t) => t,
            Err(_) => copy_str(file_name),
        };
        self.index.add_entry(title.as_str(), file_path.as_str(), "Page", parent);
        let ghost mid = self.index@;
        self.extract_entries(&parser, file_path.as_str());
        assert(self.index@ =~= mid + page_headings(html@, file_path@));
    }

    /// Adds the headings of a page, level by level.
    fn extract_entries(&mut self, parser: &HtmlParser, parent: &str)
        ensures
            final(self).doc_dir == old(self).doc_dir,
            final(self).output_dir == old(self).output_dir,
            final(self).index@ == old(self).index@ + page_headings(parser@, parent@),
    {
        let ghost s0 = self.index@;
        self.add_level(parser, "h1", "Section", parent);
        let ghost s1 = self.index@;
        self.add_level(parser, "h2", "Subsection", parent);
        let ghost s2 = self.index@;
        self.add_level(parser, "h3", "Method", parent);
        let ghost s3 = self.index@;
        self.add_level(parser, "h4", "Property", parent);
        let ghost s4 = self.index@;
        self.add_level(parser, "h5", "Parameter", parent);
        let ghost s5 = self.index@;
        self.add_level(parser, "h6", "Detail", parent);
        proof {
            let h = parser@;
            let p = parent@;
            assert(self.index@ =~= s0 + (level_entries(h, "h1"@, "Section"@, p)
                + level_entries(h, "h2"@, "Subsection"@, p)
                + level_entries(h, "h3"@, "Method"@, p)
                + level_entries(h, "h4"@, "Property"@, p)
                + level_entries(h, "h5"@, "Parameter"@, p)
                + level_entries(h, "h6"@, "Detail"@, p)));
        }
    }

    /// Adds the items for the elements that one heading selector matches.
    fn add_level(&mut self, parser: &HtmlParser, sel: &str, type_str: &str, parent: &str)
        ensures
            final(self).doc_dir == old(self).doc_dir,
            final(self).output_dir == old(self).output_dir,
            final(self).index@ == old(self).index@ + level_entries(parser@, sel@, type_str@, parent@),
    {
        let texts = match select_texts(parser.raw(), sel) {
            Some(t) => t,
            None => {
                assert(old(self).index@ + Seq::<EntryView>::empty() =~= old(self).index@);
                return;
            },
        };
        let ids = match select_attrs(parser.raw(), sel, "id") {
            Some(a) => a,
            None => {
                return;
            },
        };
        let ghost tv = texts@.map_values(|s: String| s@);
        let ghost iv = ids@.map_values(|o: Option<String>| opt_view(o));
        let ghost s0 = self.index@;
        let mut i: usize = 0;
        while i < texts.len()
            invariant
                0 <= i <= texts.len(),
                texts.len() == ids.len(),
                tv == texts@.map_values(|s: String| s@),
                iv == ids@.map_values(|o: Option<String>| opt_view(o)),
                self.doc_dir == old(self).doc_dir,
                self.output_dir == old(self).output_dir,
                self.index@ == s0 + headings_upto(tv, iv, type_str@, parent@, i as int),
            decreases texts.len() - i,
        {
            assert(tv[i as int] == texts@[i as int]@);
            assert(iv[i as int] == opt_view(ids@[i as int]));
            let name = trim(texts[i].as_str());
            if !name.as_str().is_empty() {
                let id = match &ids[i] {
                    Some(x) => copy_str(x.as_str()),
                    None => {
                        let low = to_lowercase(name.as_str());
                        dash_spaces(low.as_str())
                    },
                };
                let mut path = copy_str(parent);
                push_str(&mut path, "#");
                push_str(&mut path, id.as_str());
                self.index.add_entry(name.as_str(), path.as_str(), type_str, Some(parent));
                assert(self.index@ =~= s0 + headings_upto(tv, iv, type_str@, parent@, i + 1));
            } else {
                assert(name@.len() == 0);
            }
            i = i + 1;
        }
    }
}

} // verus!
