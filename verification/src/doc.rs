//! A documentation set: its name, slug, version and the paths of its files.

use vstd::prelude::*;
use std::collections::HashMap;
use crate::models::entry::{Entry, EntryView, opt_view, clone_opt};
use crate::entry_index::{EntryIndex, EntryIndexView, added};
use crate::page_db::PageDb;
use crate::name_order::{parsed_i32, parse_i32};
use crate::text::{alphanumeric, lowercase, split_on2, chars_of, to_lowercase, is_alphanumeric,
    split_chars2, string_from_chars, push_str, push_char};

verus! {

/// File name of the entry index.
pub const INDEX_FILENAME: &'static str = "index.json";
/// File name of the page database.
pub const DB_FILENAME: &'static str = "db.json";
/// File name of the metadata.
pub const META_FILENAME: &'static str = "meta.json";

/// A documentation set that cannot be set up.
#[derive(Debug)]
pub struct SetupError {
    pub message: String,
}

/// A documentation set.
pub struct Doc {
    pub name: Option<String>,
    pub slug: Option<String>,
    pub doc_type: Option<String>,
    pub release: Option<String>,
    pub is_abstract: bool,
    pub links: Option<Vec<(String, String)>>,
    pub version: Option<String>,
    pub versions: Option<Vec<Box<Doc>>>,
}

/// A built page: its entries, its path, its output and where it is written.
#[derive(Debug, Clone)]
pub struct PageData {
    pub entries: Vec<Entry>,
    pub path: String,
    pub output: String,
    pub store_path: String,
}

/// The serialised metadata of a documentation set.
#[derive(Debug, Clone)]
pub struct DocJson {
    pub name: String,
    pub slug: String,
    pub doc_type: Option<String>,
    pub links: Option<Vec<(String, String)>>,
    pub version: Option<String>,
    pub release: Option<String>,
}

/// The character views of a list of links.
pub open spec fn links_view(l: Option<Vec<(String, String)>>) -> Option<Seq<(Seq<char>, Seq<char>)>> {
    match l {
        Some(v) => Some(v@.map_values(|p: (String, String)| (p.0@, p.1@))),
        None => None,
    }
}

/// Two documentation sets agree on everything but their version lists.
pub open spec fn same_settings(a: Doc, b: Doc) -> bool {
    &&& opt_view(a.name) == opt_view(b.name)
    &&& opt_view(a.slug) == opt_view(b.slug)
    &&& opt_view(a.doc_type) == opt_view(b.doc_type)
    &&& opt_view(a.release) == opt_view(b.release)
    &&& a.is_abstract == b.is_abstract
    &&& links_view(a.links) == links_view(b.links)
    &&& opt_view(a.version) == opt_view(b.version)
}

/// How many versions are defined.
pub open spec fn old_versions_len(d: Doc) -> int {
    match d.versions {
        Some(v) => v@.len() as int,
        None => 0,
    }
}

/// The name, or `Doc` when none is set.
pub open spec fn doc_name(d: Doc) -> Seq<char> {
    match d.name {
        Some(n) => n@,
        None => "Doc"@,
    }
}

/// The slug derived from the name: the lowercase name, when the name holds
/// only letters, digits and underscores.
pub open spec fn default_slug_of(name: Seq<char>) -> Option<Seq<char>> {
    if forall|i: int| 0 <= i < name.len() ==> alphanumeric(#[trigger] name[i]) || name[i] == '_' {
        Some(lowercase(name))
    } else {
        None
    }
}

/// `+` becomes `p`; `#`, like any other sign, is left to the general rule,
/// which makes it `_`.
pub open spec fn version_sign(c: char) -> char {
    if c == '+' { 'p' } else { c }
}

/// Letters, digits, `_` and `.` stay; anything else becomes `_`.
pub open spec fn version_keep(c: char) -> char {
    if alphanumeric(c) || c == '_' || c == '.' { c } else { '_' }
}

/// Each `.` made `_`.
pub open spec fn undotted(s: Seq<char>) -> Seq<char> {
    s.map_values(|c: char| if c == '.' { '_' } else { c })
}

/// Each `.` made `_`.
fn undot(s: &str) -> (res: String)
    ensures
        res@ == undotted(s@),
{
    let v = chars_of(s);
    let mut out = String::new();
    let mut i: usize = 0;
    while i < v.len()
        invariant
            0 <= i <= v.len(),
            v@ == s@,
            out@ == undotted(s@).take(i as int),
        decreases v.len() - i,
    {
        let c = if v[i] == '.' { '_' } else { v[i] };
        push_char(&mut out, c);
        assert(out@ =~= undotted(s@).take(i + 1));
        i = i + 1;
    }
    assert(undotted(s@).take(i as int) =~= undotted(s@));
    out
}

/// The slug form of a version.
pub open spec fn version_slug_of(v: Seq<char>) -> Seq<char> {
    lowercase(v).map_values(|c: char| version_sign(c)).map_values(|c: char| version_keep(c))
}

/// The slug of a documentation set: its own slug or the default one, with
/// `~` and the version slug appended when it has a version.
pub open spec fn doc_slug(d: Doc) -> Result<Seq<char>, Seq<char>> {
    let base = match d.slug {
        Some(s) => Some(s@),
        None => default_slug_of(doc_name(d)),
    };
    match base {
        None => Err("slug is required"@),
        Some(b) => match d.version {
            Some(v) => Ok(b + "~"@ + undotted(version_slug_of(v@))),
            None => Ok(b),
        },
    }
}

/// A path inside the documentation set's directory.
pub open spec fn doc_file(d: Doc, file: Seq<char>) -> Result<Seq<char>, Seq<char>> {
    match doc_slug(d) {
        Ok(p) => Ok(p + "/"@ + file),
        Err(e) => Err(e),
    }
}

/// The numbers in a version string: the pieces between `-` and `.` that parse as `i32`.
pub open spec fn version_numbers(s: Seq<char>) -> Seq<int> {
    parsed_pieces(split_on2(s, '-', '.'))
}

/// The pieces that parse as `i32`, as numbers, in order.
pub open spec fn parsed_pieces(parts: Seq<Seq<char>>) -> Seq<int>
    decreases parts.len(),
{
    if parts.len() == 0 {
        Seq::<int>::empty()
    } else {
        let r = parsed_pieces(parts.drop_last());
        match parsed_i32(parts.last()) {
            Some(n) => r.push(n),
            None => r,
        }
    }
}

/// How far a scraped version is behind the latest one.
pub enum Outdated {
    Major,
    Minor,
    UpToDate,
}

/// Only the first two numbers count. A higher major number is a major
/// update; with equal majors, a higher minor number is a minor update,
/// except below version 1, where it counts as major.
pub open spec fn outdated_of(sp: Seq<int>, lp: Seq<int>) -> Outdated {
    if sp.len() == 0 || lp.len() == 0 {
        Outdated::UpToDate
    } else if lp[0] > sp[0] {
        Outdated::Major
    } else if lp[0] < sp[0] {
        Outdated::UpToDate
    } else if sp.len() < 2 || lp.len() < 2 {
        Outdated::UpToDate
    } else if lp[1] > sp[1] {
        if lp[0] == 0 && sp[0] == 0 { Outdated::Major } else { Outdated::Minor }
    } else {
        Outdated::UpToDate
    }
}

/// A documentation set without a slug of its own and without a version
/// takes the lower-cased name as its slug when the name holds only letters,
/// digits and `_`, and has none otherwise; its own slug is kept as it is.
pub proof fn law_default_slug(d: Doc)
    ensures
        d.slug is None && d.version is None
            && (forall|i: int| 0 <= i < doc_name(d).len() ==> alphanumeric(#[trigger] doc_name(d)[i]) || doc_name(d)[i] == '_')
            ==> doc_slug(d) == Ok::<Seq<char>, Seq<char>>(lowercase(doc_name(d))),
        d.slug is None && !(forall|i: int| 0 <= i < doc_name(d).len() ==> alphanumeric(#[trigger] doc_name(d)[i]) || doc_name(d)[i] == '_')
            ==> doc_slug(d) is Err,
        d.version is None && d.slug is Some ==> doc_slug(d) == Ok::<Seq<char>, Seq<char>>(d.slug->0@),
{
}

/// How a scraped version compares with the latest one, by their first two
/// numbers: a higher latest major number is a major update; with equal
/// majors, a higher latest minor number is a major update below version 1
/// and a minor one otherwise; a lower latest major number, or a version
/// without numbers, is up to date.
pub proof fn law_outdated(scraper_version: Seq<char>, latest_version: Seq<char>)
    ensures
        ({
            let (sp, lp) = (version_numbers(scraper_version), version_numbers(latest_version));
            let text = outdated_text(outdated_of(sp, lp));
            &&& sp.len() > 0 && lp.len() > 0 && lp[0] > sp[0] ==> text == "Outdated major version"@
            &&& sp.len() >= 2 && lp.len() >= 2 && sp[0] == 0 && lp[0] == 0 && lp[1] > sp[1]
                ==> text == "Outdated major version"@
            &&& sp.len() >= 2 && lp.len() >= 2 && sp[0] == lp[0] && lp[0] != 0 && lp[1] > sp[1]
                ==> text == "Outdated minor version"@
            &&& (sp.len() == 0 || lp.len() == 0 || lp[0] < sp[0]) ==> text == "Up-to-date"@
            &&& sp.len() >= 2 && lp.len() >= 2 && sp[0] == lp[0] && lp[1] <= sp[1] ==> text == "Up-to-date"@
        }),
{
}

/// The message for an outcome.
pub open spec fn outdated_text(o: Outdated) -> Seq<char> {
    match o {
        Outdated::Major => "Outdated major version"@,
        Outdated::Minor => "Outdated minor version"@,
        Outdated::UpToDate => "Up-to-date"@,
    }
}

/// A copy of a list of links.
fn clone_links(l: &Option<Vec<(String, String)>>) -> (res: Option<Vec<(String, String)>>)
    ensures
        links_view(res) == links_view(*l),
{
    match l {
        Some(v) => {
            let mut out: Vec<(String, String)> = Vec::new();
            let mut i: usize = 0;
            while i < v.len()
                invariant
                    0 <= i <= v.len(),
                    out@.len() == i,
                    forall|k: int| 0 <= k < i ==> (#[trigger] out@[k]).0@ == v@[k].0@ && out@[k].1@ == v@[k].1@,
                decreases v.len() - i,
            {
                let (a, b) = (v[i].0.clone(), v[i].1.clone());
                out.push((a, b));
                i = i + 1;
            }
            assert(out@.map_values(|p: (String, String)| (p.0@, p.1@)) =~= v@.map_values(|p: (String, String)| (p.0@, p.1@)));
            Some(out)
        },
        None => None,
    }
}

impl Clone for Doc {
    /// Copies every setting; the list of versions is not copied.
    fn clone(&self) -> (res: Self)
        ensures
            same_settings(res, *self),
            res.versions is None,
    {
        Doc {
            name: clone_opt(&self.name),
            slug: clone_opt(&self.slug),
            doc_type: clone_opt(&self.doc_type),
            release: clone_opt(&self.release),
            is_abstract: self.is_abstract,
            links: clone_links(&self.links),
            version: clone_opt(&self.version),
            versions: None,
        }
    }
}

impl Doc {
    /// A documentation set with nothing set.
    pub fn new() -> (res: Result<Self, SetupError>)
        ensures
            res matches Ok(d) && d.name is None && d.slug is None && d.doc_type is None
                && d.release is None && !d.is_abstract && d.links is None && d.version is None
                && d.versions is None,
    {
        let doc = Doc {
            name: None,
            slug: None,
            doc_type: None,
            release: None,
            is_abstract: false,
            links: None,
            version: None,
            versions: None,
        };
        if doc.is_abstract {
            return Err(SetupError { message: "Doc is an abstract class and cannot be instantiated.".to_string() });
        }
        Ok(doc)
    }

    /// A documentation set inheriting these settings, with its own type when
    /// one is given, and no version.
    pub fn inherited(&self, subclass_type: Option<String>) -> (res: Self)
        ensures
            opt_view(res.name) == opt_view(self.name),
            opt_view(res.slug) == opt_view(self.slug),
            opt_view(res.doc_type) == (if subclass_type is Some { opt_view(subclass_type) } else { opt_view(self.doc_type) }),
            opt_view(res.release) == opt_view(self.release),
            res.is_abstract == self.is_abstract,
            links_view(res.links) == links_view(self.links),
            res.version is None,
            res.versions is None,
    {
        let doc_type = match subclass_type {
            Some(t) => Some(t),
            None => clone_opt(&self.doc_type),
        };
        Doc {
            name: clone_opt(&self.name),
            slug: clone_opt(&self.slug),
            doc_type,
            release: clone_opt(&self.release),
            is_abstract: self.is_abstract,
            links: clone_links(&self.links),
            version: None,
            versions: None,
        }
    }

    /// Defines a version: a copy of these settings with the given version,
    /// which `block` then adjusts. The result is appended to the versions
    /// (without its own version list) and returned. Without a block nothing
    /// happens.
    pub fn version<F: FnOnce(&mut Doc)>(&mut self, version: Option<String>, block: Option<F>) -> (res: Option<Box<Doc>>)
        requires
            block matches Some(f) ==> forall|d: &mut Doc| call_requires(f, (d,)),
        ensures
            block is None ==> res is None && *final(self) == *old(self),
            block is Some ==> res is Some && same_settings(*final(self), *old(self))
                && final(self).versions is Some
                && final(self).versions->0@.len() == old_versions_len(*old(self)) + 1
                && (forall|i: int| 0 <= i < old_versions_len(*old(self)) ==> final(self).versions->0@[i] == old(self).versions->0@[i])
                && same_settings(*final(self).versions->0@.last(), *res->0)
                && final(self).versions->0@.last().versions is None,
            block matches Some(f) ==> exists|m: &mut Doc| #![trigger call_ensures(f, (m,), ())] {
                &&& same_settings(mut_ref_current(m), (Doc { version: version, ..*old(self) }))
                &&& mut_ref_current(m).version == version
                &&& mut_ref_current(m).versions is None
                &&& call_ensures(f, (m,), ())
                &&& res matches Some(k) && *k == mut_ref_future(m)
            },
    {
        match block {
            Some(block_fn) => {
                let mut klass = self.clone();
                klass.version = version;
                let target: &mut Doc = &mut klass;
                assert(call_requires(block_fn, (target,)));
                block_fn(target);
                let copy = Box::new(klass.clone());
                let mut list = match self.versions.take() {
                    Some(vs) => vs,
                    None => Vec::new(),
                };
                list.push(copy);
                self.versions = Some(list);
                Some(Box::new(klass))
            },
            None => None,
        }
    }

    /// Sets the version.
    pub fn set_version(&mut self, version: String)
        ensures
            same_settings(*final(self), Doc { version: Some(version), ..*old(self) }),
            final(self).versions == old(self).versions,
    {
        self.version = Some(version);
    }

    /// The versions defined so far, or this set alone.
    pub fn versions(&self) -> (res: Vec<&Doc>)
        ensures
            match self.versions {
                Some(vs) => res@.len() == vs@.len() && forall|i: int| 0 <= i < res@.len() ==> *res@[i] == *vs@[i],
                None => res@.len() == 1 && *res@[0] == *self,
            },
    {
        match &self.versions {
            Some(vs) => {
                let mut out: Vec<&Doc> = Vec::new();
                let mut i: usize = 0;
                while i < vs.len()
                    invariant
                        0 <= i <= vs.len(),
                        out@.len() == i,
                        forall|k: int| 0 <= k < i ==> *out@[k] == *vs@[k],
                    decreases vs.len() - i,
                {
                    out.push(&*vs[i]);
                    i = i + 1;
                }
                out
            },
            None => {
                let mut out: Vec<&Doc> = Vec::new();
                out.push(self);
                out
            },
        }
    }

    /// A version is set.
    pub fn has_version(&self) -> (r: bool)
        ensures
            r == self.version is Some,
    {
        self.version.is_some()
    }

    /// Versions have been defined.
    pub fn is_versioned(&self) -> (r: bool)
        ensures
            r == self.versions is Some,
    {
        self.versions.is_some()
    }

    /// The name, or `Doc`.
    pub fn name(&self) -> (res: String)
        ensures
            res@ == doc_name(*self),
    {
        match &self.name {
            Some(n) => n.clone(),
            None => "Doc".to_string(),
        }
    }

    /// The lowercase name when it holds only letters, digits and underscores.
    fn default_slug(&self) -> (res: Option<String>)
        ensures
            opt_view(res) == default_slug_of(doc_name(*self)),
            res is Some <==> forall|i: int| 0 <= i < doc_name(*self).len()
                ==> alphanumeric(#[trigger] doc_name(*self)[i]) || doc_name(*self)[i] == '_',
            res matches Some(s) ==> s@ == lowercase(doc_name(*self)),
    {
        let name = self.name();
        let v = chars_of(name.as_str());
        let mut i: usize = 0;
        while i < v.len()
            invariant
                0 <= i <= v.len(),
                v@ == name@,
                name@ == doc_name(*self),
                forall|k: int| 0 <= k < i ==> alphanumeric(#[trigger] v@[k]) || v@[k] == '_',
            decreases v.len() - i,
        {
            let c = v[i];
            if !(is_alphanumeric(c) || c == '_') {
                assert(!(alphanumeric(name@[i as int]) || name@[i as int] == '_'));
                return None;
            }
            i = i + 1;
        }
        Some(to_lowercase(name.as_str()))
    }

    /// The slug of the version: lowercase, `+` as `p`, and `_` for anything
    /// but letters, digits, `_` and `.`; empty without a version.
    pub fn version_slug(&self) -> (res: String)
        ensures
            res@ == match self.version {
                Some(v) => version_slug_of(v@),
                None => Seq::<char>::empty(),
            },
    {
        match &self.version {
            Some(version) => {
                let lower = to_lowercase(version.as_str());
                let v = chars_of(lower.as_str());
                let mut out = String::new();
                let mut i: usize = 0;
                while i < v.len()
                    invariant
                        0 <= i <= v.len(),
                        v@ == lowercase(version@),
                        out@ == v@.take(i as int).map_values(|c: char| version_sign(c)).map_values(|c: char| version_keep(c)),
                    decreases v.len() - i,
                {
                    let c = v[i];
                    let s = if c == '+' { 'p' } else { c };
                    let k = if is_alphanumeric(s) || s == '_' || s == '.' { s } else { '_' };
                    push_char(&mut out, k);
                    proof {
                        assert(v@.take(i + 1).map_values(|c: char| version_sign(c)).map_values(|c: char| version_keep(c))
                            =~= v@.take(i as int).map_values(|c: char| version_sign(c)).map_values(|c: char| version_keep(c)).push(k));
                    }
                    i = i + 1;
                }
                proof { assert(v@.take(v@.len() as int) =~= v@); }
                out
            },
            None => String::new(),
        }
    }

    /// The slug, with the version slug after a `~`, its dots made `_`, when
    /// there is a version.
    pub fn slug(&self) -> (res: Result<String, String>)
        ensures
            match res {
                Ok(s) => doc_slug(*self) == Ok::<Seq<char>, Seq<char>>(s@),
                Err(e) => doc_slug(*self) == Err::<Seq<char>, Seq<char>>(e@),
            },
            self.slug is None && self.version is None
                && (forall|i: int| 0 <= i < doc_name(*self).len()
                    ==> alphanumeric(#[trigger] doc_name(*self)[i]) || doc_name(*self)[i] == '_')
                ==> (res matches Ok(s) && s@ == lowercase(doc_name(*self))),
    {
        proof { law_default_slug(*self); }
        let base = match &self.slug {
            Some(s) => Some(s.clone()),
            None => self.default_slug(),
        };
        match base {
            None => Err("slug is required".to_string()),
            Some(b) => {
                if self.has_version() {
                    let mut out = b;
                    push_str(&mut out, "~");
                    let vs = self.version_slug();
                    let vs = undot(vs.as_str());
                    push_str(&mut out, vs.as_str());
                    Ok(out)
                } else {
                    Ok(b)
                }
            },
        }
    }

    /// The directory of the documentation set: its slug.
    pub fn path(&self) -> (res: Result<String, String>)
        ensures
            match res {
                Ok(s) => doc_slug(*self) == Ok::<Seq<char>, Seq<char>>(s@),
                Err(e) => doc_slug(*self) == Err::<Seq<char>, Seq<char>>(e@),
            },
    {
        self.slug()
    }

    fn file_path(&self, file: &str) -> (res: Result<String, String>)
        ensures
            match res {
                Ok(s) => doc_file(*self, file@) == Ok::<Seq<char>, Seq<char>>(s@),
                Err(e) => doc_file(*self, file@) == Err::<Seq<char>, Seq<char>>(e@),
            },
    {
        match self.path() {
            Ok(p) => {
                let mut out = p;
                push_str(&mut out, "/");
                push_str(&mut out, file);
                Ok(out)
            },
            Err(e) => Err(e),
        }
    }

    /// `<path>/index.json`.
    pub fn index_path(&self) -> (res: Result<String, String>)
        ensures
            match res {
                Ok(s) => doc_file(*self, "index.json"@) == Ok::<Seq<char>, Seq<char>>(s@),
                Err(e) => doc_file(*self, "index.json"@) == Err::<Seq<char>, Seq<char>>(e@),
            },
    {
        self.file_path(INDEX_FILENAME)
    }

    /// `<path>/db.json`.
    pub fn db_path(&self) -> (res: Result<String, String>)
        ensures
            match res {
                Ok(s) => doc_file(*self, "db.json"@) == Ok::<Seq<char>, Seq<char>>(s@),
                Err(e) => doc_file(*self, "db.json"@) == Err::<Seq<char>, Seq<char>>(e@),
            },
    {
        self.file_path(DB_FILENAME)
    }

    /// `<path>/meta.json`.
    pub fn meta_path(&self) -> (res: Result<String, String>)
        ensures
            match res {
                Ok(s) => doc_file(*self, "meta.json"@) == Ok::<Seq<char>, Seq<char>>(s@),
                Err(e) => doc_file(*self, "meta.json"@) == Err::<Seq<char>, Seq<char>>(e@),
            },
    {
        self.file_path(META_FILENAME)
    }

    /// The metadata: name, slug (empty when there is none), type, links when
    /// there are any, version, and release when it is not empty.
    pub fn as_json(&self) -> (res: DocJson)
        ensures
            res.name@ == doc_name(*self),
            res.slug@ == match doc_slug(*self) { Ok(s) => s, Err(_) => Seq::<char>::empty() },
            opt_view(res.doc_type) == opt_view(self.doc_type),
            links_view(res.links) == match links_view(self.links) {
                Some(l) => if l.len() > 0 { Some(l) } else { None },
                None => None,
            },
            opt_view(res.version) == opt_view(self.version),
            opt_view(res.release) == match opt_view(self.release) {
                Some(r) => if r.len() > 0 { Some(r) } else { None },
                None => None,
            },
    {
        let slug = match self.slug() {
            Ok(s) => s,
            Err(_) => String::new(),
        };
        let links = match &self.links {
            Some(l) => if l.len() > 0 { clone_links(&self.links) } else { None },
            None => None,
        };
        let release = match &self.release {
            Some(r) => if !r.as_str().is_empty() { Some(r.clone()) } else { None },
            None => None,
        };
        DocJson {
            name: self.name(),
            slug,
            doc_type: clone_opt(&self.doc_type),
            links,
            version: clone_opt(&self.version),
            release,
        }
    }

    /// Building one page is left to concrete documentation sets.
    pub fn build_page(&self, _id: &str) -> (res: Result<PageData, String>)
        ensures
            res matches Err(e) && e@ == "NotImplementedError"@,
    {
        Err("NotImplementedError".to_string())
    }

    /// Building all pages is left to concrete documentation sets: no page is built.
    pub fn build_pages<F: FnMut(PageData)>(&self, _block: F) {
    }

    /// The version that was scraped; none is known here.
    pub fn get_scraper_version(&self, _opts: &HashMap<String, String>) -> (res: Option<String>)
        ensures
            res is None,
    {
        None
    }

    /// The latest version is left to concrete documentation sets.
    pub fn get_latest_version(&self, _opts: &HashMap<String, String>) -> (res: Result<String, String>)
        ensures
            res matches Err(e) && e@ == "NotImplementedError"@,
    {
        Err("NotImplementedError".to_string())
    }

    /// A page is stored when it has entries.
    pub fn should_store_page(&self, page: &PageData) -> (r: bool)
        ensures
            r == (page.entries@.len() > 0),
    {
        page.entries.len() > 0
    }

    /// Compares a scraped version with the latest one; only major and minor
    /// numbers count.
    pub fn outdated_state(&self, scraper_version: &str, latest_version: &str) -> (res: String)
        ensures
            res@ == outdated_text(outdated_of(version_numbers(scraper_version@), version_numbers(latest_version@))),
            ({
                let (sp, lp) = (version_numbers(scraper_version@), version_numbers(latest_version@));
                &&& sp.len() > 0 && lp.len() > 0 && lp[0] > sp[0] ==> res@ == "Outdated major version"@
                &&& sp.len() >= 2 && lp.len() >= 2 && sp[0] == 0 && lp[0] == 0 && lp[1] > sp[1]
                    ==> res@ == "Outdated major version"@
                &&& sp.len() >= 2 && lp.len() >= 2 && sp[0] == lp[0] && lp[0] != 0 && lp[1] > sp[1]
                    ==> res@ == "Outdated minor version"@
                &&& (sp.len() == 0 || lp.len() == 0 || lp[0] < sp[0]) ==> res@ == "Up-to-date"@
            }),
    {
        proof { law_outdated(scraper_version@, latest_version@); }
        let sp = version_parts(scraper_version);
        let lp = version_parts(latest_version);
        if sp.len() == 0 || lp.len() == 0 {
            return "Up-to-date".to_string();
        }
        if lp[0] > sp[0] {
            return "Outdated major version".to_string();
        }
        if lp[0] < sp[0] {
            return "Up-to-date".to_string();
        }
        if sp.len() < 2 || lp.len() < 2 {
            return "Up-to-date".to_string();
        }
        if lp[1] > sp[1] {
            if lp[0] == 0 && sp[0] == 0 {
                return "Outdated major version".to_string();
            } else {
                return "Outdated minor version".to_string();
            }
        }
        "Up-to-date".to_string()
    }
}

/// The entry views of a page.
pub open spec fn page_entries(p: PageData) -> Seq<EntryView> {
    p.entries@.map_values(|e: Entry| e@)
}

/// The index after adding the entries of every page that has entries.
pub open spec fn index_of_pages(v: EntryIndexView, pages: Seq<PageData>) -> EntryIndexView
    decreases pages.len(),
{
    if pages.len() == 0 {
        v
    } else {
        let prev = index_of_pages(v, pages.drop_last());
        let p = pages.last();
        if p.entries@.len() > 0 {
            page_entries(p).fold_left(prev, |w: EntryIndexView, e: EntryView| added(w, e))
        } else {
            prev
        }
    }
}

/// The pages, by path, of every page that has entries.
pub open spec fn pagedb_of_pages(pages: Seq<PageData>) -> Map<Seq<char>, Seq<char>>
    decreases pages.len(),
{
    if pages.len() == 0 {
        Map::<Seq<char>, Seq<char>>::empty()
    } else {
        let prev = pagedb_of_pages(pages.drop_last());
        let p = pages.last();
        if p.entries@.len() > 0 { prev.insert(p.path@, p.output@) } else { prev }
    }
}

/// Some page has entries.
pub open spec fn any_stored(pages: Seq<PageData>) -> bool {
    exists|i: int| 0 <= i < pages.len() && pages[i].entries@.len() > 0
}

impl Doc {
    /// The index and the page database that storing one built page writes:
    /// none when the page has no entries.
    pub fn page_index(&self, page: PageData) -> (res: Option<(EntryIndex, PageDb)>)
        ensures
            match res {
                Some((index, db)) => page.entries@.len() > 0 && index.wf() && db.wf()
                    && index@ == index_of_pages(EntryIndex::new_view(), seq![page])
                    && db@ == pagedb_of_pages(seq![page]),
                None => page.entries@.len() == 0,
            },
    {
        let ghost pg = page;
        let mut pages: Vec<PageData> = Vec::new();
        pages.push(page);
        assert(pages@ =~= seq![pg]);
        let res = self.pages_index(pages);
        proof {
            if any_stored(seq![pg]) {
                let k = choose|k: int| 0 <= k < 1 && seq![pg][k].entries@.len() > 0;
                assert(seq![pg][k] == pg);
            }
            if res is Some {
                assert(any_stored(seq![pg]));
                assert(pg.entries@.len() > 0);
                let pair = res->0;
                assert(pair.0.wf());
                assert(pair.1.wf());
                assert(pair.0@ == index_of_pages(EntryIndex::new_view(), seq![pg]));
                assert(pair.1@ == pagedb_of_pages(seq![pg]));
            } else {
                assert(seq![pg][0] == pg);
                assert(pg.entries@.len() == 0);
            }
        }
        res
    }

    /// The index and the page database that storing all built pages writes:
    /// the pages with entries are kept; none when no page has entries.
    pub fn pages_index(&self, pages: Vec<PageData>) -> (res: Option<(EntryIndex, PageDb)>)
        ensures
            match res {
                Some((index, db)) => any_stored(pages@) && index.wf() && db.wf()
                    && index@ == index_of_pages(EntryIndex::new_view(), pages@)
                    && db@ == pagedb_of_pages(pages@),
                None => !any_stored(pages@),
            },
    {
        let mut index = EntryIndex::new();
        let mut db = PageDb::new();
        let mut has_pages = false;
        let ghost all = pages@;
        assert(all.take(0) =~= Seq::<PageData>::empty());
        assert(index@ == EntryIndex::new_view());
        for page in it: pages
            invariant
                it.seq() == all,
                index.wf(),
                db.wf(),
                index@ == index_of_pages(EntryIndex::new_view(), all.take(it.index() as int)),
                db@ == pagedb_of_pages(all.take(it.index() as int)),
                has_pages == any_stored(all.take(it.index() as int)),
        {
            let ghost i = it.index() as int;
            proof {
                assert(all.take(i + 1).drop_last() =~= all.take(i));
                assert(all.take(i + 1).last() == page);
            }
            let ghost before = all.take(i);
            if self.should_store_page(&page) {
                let ghost pv = page;
                let PageData { entries, path, output, store_path: _ } = page;
                index.add_entries(entries);
                db.add(path, output);
                has_pages = true;
                proof {
                    assert(all.take(i + 1)[i] == pv);
                }
            } else {
                proof {
                    assert forall|k: int| 0 <= k < i + 1 && (#[trigger] all.take(i + 1)[k]).entries@.len() > 0 implies 0 <= k < i && before[k].entries@.len() > 0 by {
                        assert(all.take(i + 1)[k] == all[k]);
                    }
                    if any_stored(before) {
                        let k = choose|k: int| 0 <= k < before.len() && before[k].entries@.len() > 0;
                        assert(all.take(i + 1)[k] == before[k]);
                    }
                }
            }
        }
        proof { assert(all.take(all.len() as int) =~= all); }
        if has_pages {
            Some((index, db))
        } else {
            None
        }
    }
}

/// The numbers of a version string.
fn version_parts(s: &str) -> (res: Vec<i32>)
    ensures
        res@.map_values(|n: i32| n as int) == version_numbers(s@),
{
    let v = chars_of(s);
    let parts = split_chars2(&v, '-', '.');
    let ghost pv = crate::text::vviews(parts@);
    let mut res: Vec<i32> = Vec::new();
    let mut i: usize = 0;
    while i < parts.len()
        invariant
            0 <= i <= parts.len(),
            pv == crate::text::vviews(parts@),
            pv == split_on2(s@, '-', '.'),
            res@.map_values(|n: i32| n as int) == parsed_pieces(pv.take(i as int)),
        decreases parts.len() - i,
    {
        proof {
            assert(pv.take(i + 1).drop_last() =~= pv.take(i as int));
            assert(pv.take(i + 1).last() == parts@[i as int]@);
        }
        match parse_i32(&parts[i]) {
            Some(n) => {
                let ghost before = res@;
                res.push(n);
                proof {
                    assert(res@.map_values(|n: i32| n as int) =~= before.map_values(|n: i32| n as int).push(n as int));
                }
            },
            None => {},
        }
        i = i + 1;
    }
    proof { assert(pv.take(pv.len() as int) =~= pv); }
    res
}

/// Where a documentation set's files are kept. Implemented by each kind of
/// store; nothing is assumed of what it does.
pub trait Store {
    /// What goes wrong.
    type Error;

    /// Opens the directory at `path`, keeping what is there.
    fn open(&mut self, path: &str) -> Result<(), Self::Error>;

    /// Opens the directory at `path`, emptied.
    fn replace(&mut self, path: &str) -> Result<(), Self::Error>;

    /// The content of a file.
    fn read(&self, filename: &str) -> Result<String, Self::Error>;

    /// Writes a file.
    fn write(&mut self, filename: &str, content: &str) -> Result<(), Self::Error>;

    /// The size of a file.
    fn size(&self, filename: &str) -> usize;
}

} // verus!
