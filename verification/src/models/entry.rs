//! One documentation entry: a name, a path and a type.

use vstd::prelude::*;
use crate::text::{trim, trim_seq, str_eq};

verus! {

/// The character view of an optional string.
pub open spec fn opt_view(o: Option<String>) -> Option<Seq<char>> {
    match o {
        Some(s) => Some(s@),
        None => None,
    }
}

/// The character view of an optional string reference.
pub open spec fn opt_ref_view(o: Option<&String>) -> Option<Seq<char>> {
    match o {
        Some(s) => Some(s@),
        None => None,
    }
}

/// How a name or a type is stored: trimmed, and absent when nothing is left.
pub open spec fn cleaned(o: Option<Seq<char>>) -> Option<Seq<char>> {
    match o {
        Some(s) => if trim_seq(s).len() == 0 { None } else { Some(trim_seq(s)) },
        None => None,
    }
}

/// Present and not empty.
pub open spec fn filled(o: Option<Seq<char>>) -> bool {
    o matches Some(s) && s.len() > 0
}

/// The abstract value of an entry.
pub struct EntryView {
    pub name: Option<Seq<char>>,
    pub path: Option<Seq<char>>,
    pub entry_type: Option<Seq<char>>,
}

/// The root entry is the one whose path is `index`.
pub open spec fn view_is_root(e: EntryView) -> bool {
    e.path == Some("index"@)
}

/// An entry that fails validation.
#[derive(Debug, Clone)]
pub struct Invalid {
    pub message: String,
}

/// A documentation entry.
#[derive(Clone, Debug, PartialEq, Eq, Hash)]
pub struct Entry {
    name: Option<String>,
    path: Option<String>,
    entry_type: Option<String>,
}

impl View for Entry {
    type V = EntryView;

    closed spec fn view(&self) -> EntryView {
        EntryView {
            name: opt_view(self.name),
            path: opt_view(self.path),
            entry_type: opt_view(self.entry_type),
        }
    }
}

/// A copy of an optional string.
pub fn clone_opt(o: &Option<String>) -> (res: Option<String>)
    ensures
        opt_view(res) == opt_view(*o),
{
    match o {
        Some(s) => Some(s.clone()),
        None => None,
    }
}

/// The stored form of a name or type.
fn clean(o: Option<String>) -> (res: Option<String>)
    ensures
        opt_view(res) == cleaned(opt_view(o)),
{
    match o {
        Some(n) => {
            let t = trim(n.as_str());
            if t.as_str().is_empty() {
                None
            } else {
                Some(t)
            }
        },
        None => None,
    }
}

/// Whether two optional strings are equal.
pub fn opt_eq(a: &Option<String>, b: &Option<String>) -> (r: bool)
    ensures
        r == (opt_view(*a) == opt_view(*b)),
{
    match (a, b) {
        (Some(x), Some(y)) => str_eq(x.as_str(), y.as_str()),
        (None, None) => true,
        _ => false,
    }
}

fn is_filled(o: &Option<String>) -> (r: bool)
    ensures
        r == filled(opt_view(*o)),
{
    match o {
        Some(s) => !s.as_str().is_empty(),
        None => false,
    }
}

impl Entry {
    /// Builds an entry; names and types are trimmed. Every entry but the
    /// root must have a name, a path and a type.
    pub fn new(name: Option<String>, path: Option<String>, entry_type: Option<String>) -> (res: Result<Self, Invalid>)
        ensures
            ({
                let n = cleaned(opt_view(name));
                let p = opt_view(path);
                let t = cleaned(opt_view(entry_type));
                let e = EntryView { name: n, path: p, entry_type: t };
                match res {
                    Ok(entry) => entry@ == e && (view_is_root(e) || (filled(n) && filled(p) && filled(t))),
                    Err(err) => !view_is_root(e) && (
                        if !filled(n) { err.message@ == "missing name"@ }
                        else if !filled(p) { err.message@ == "missing path"@ }
                        else { !filled(t) && err.message@ == "missing type"@ }),
                }
            }),
    {
        let mut entry = Entry { name: None, path, entry_type: None };
        entry.set_name(name);
        entry.set_type(entry_type);
        if !entry.is_root() {
            if !is_filled(&entry.name) {
                return Err(Invalid { message: "missing name".to_string() });
            }
            if !is_filled(&entry.path) {
                return Err(Invalid { message: "missing path".to_string() });
            }
            if !is_filled(&entry.entry_type) {
                return Err(Invalid { message: "missing type".to_string() });
            }
        }
        Ok(entry)
    }

    /// The name.
    pub fn name(&self) -> (res: Option<&String>)
        ensures
            opt_ref_view(res) == self@.name,
    {
        self.name.as_ref()
    }

    /// The path.
    pub fn path(&self) -> (res: Option<&String>)
        ensures
            opt_ref_view(res) == self@.path,
    {
        self.path.as_ref()
    }

    /// The type.
    pub fn entry_type(&self) -> (res: Option<&String>)
        ensures
            opt_ref_view(res) == self@.entry_type,
    {
        self.entry_type.as_ref()
    }

    /// Sets the name, trimmed; a blank name clears it.
    pub fn set_name(&mut self, name: Option<String>)
        ensures
            final(self)@ == (EntryView { name: cleaned(opt_view(name)), ..old(self)@ }),
    {
        self.name = clean(name);
    }

    /// Sets the path as given.
    pub fn set_path(&mut self, path: Option<String>)
        ensures
            final(self)@ == (EntryView { path: opt_view(path), ..old(self)@ }),
    {
        self.path = path;
    }

    /// Sets the type, trimmed; a blank type clears it.
    pub fn set_type(&mut self, entry_type: Option<String>)
        ensures
            final(self)@ == (EntryView { entry_type: cleaned(opt_view(entry_type)), ..old(self)@ }),
    {
        self.entry_type = clean(entry_type);
    }

    /// Whether this is the root entry (path `index`).
    pub fn is_root(&self) -> (r: bool)
        ensures
            r == view_is_root(self@),
    {
        match &self.path {
            Some(p) => str_eq(p.as_str(), "index"),
            None => false,
        }
    }

    /// Whether two entries have the same name, path and type.
    pub fn same_as(&self, other: &Entry) -> (r: bool)
        ensures
            r == (self@ == other@),
    {
        opt_eq(&self.name, &other.name) && opt_eq(&self.path, &other.path) && opt_eq(&self.entry_type, &other.entry_type)
    }

    /// The fields of the entry, for serialisation.
    pub fn as_json(&self) -> (res: EntryJson)
        ensures
            json_view(res) == self@,
    {
        EntryJson {
            name: clone_opt(&self.name),
            path: clone_opt(&self.path),
            entry_type: clone_opt(&self.entry_type),
        }
    }
}

/// The abstract value of a serialised entry.
pub open spec fn json_view(j: EntryJson) -> EntryView {
    EntryView { name: opt_view(j.name), path: opt_view(j.path), entry_type: opt_view(j.entry_type) }
}

/// The serialised form of an entry; absent fields are left out.
#[derive(Debug, Clone, PartialEq)]
pub struct EntryJson {
    pub name: Option<String>,
    pub path: Option<String>,
    pub entry_type: Option<String>,
}

} // verus!
