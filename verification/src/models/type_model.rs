//! Entry types and their counts.

use vstd::prelude::*;
use crate::text::{alphanumeric, lowercase, split_on, keep_nonempty, join, chars_of,
    to_lowercase, is_alphanumeric, split_chars, nonempty_parts, join_parts};

verus! {

/// Letters and digits stay; every other character becomes `-`.
pub open spec fn slug_char(c: char) -> char {
    if alphanumeric(c) { c } else { '-' }
}

/// The slug of a type name: lowercased, runs of other characters turned into
/// single dashes, with no dash at either end.
pub open spec fn type_slug(name: Seq<char>) -> Seq<char> {
    join(keep_nonempty(split_on(lowercase(name).map_values(|c: char| slug_char(c)), '-')), seq!['-'])
}

/// An entry type with the number of entries that have it.
#[derive(Clone, Debug, PartialEq, Eq, Hash)]
pub struct Type {
    pub name: String,
    pub count: usize,
}

impl Type {
    /// A type with no entries yet.
    pub fn new(name: String) -> (res: Self)
        ensures
            res.name@ == name@,
            res.count == 0,
    {
        Type { name, count: 0 }
    }

    /// The URL-safe form of the name.
    pub fn slug(&self) -> (res: String)
        ensures
            res@ == type_slug(self.name@),
    {
        let lower = to_lowercase(self.name.as_str());
        let v = chars_of(lower.as_str());
        let mut m: Vec<char> = Vec::new();
        let mut i: usize = 0;
        while i < v.len()
            invariant
                0 <= i <= v.len(),
                v@ == lowercase(self.name@),
                m@ == v@.take(i as int).map_values(|c: char| slug_char(c)),
            decreases v.len() - i,
        {
            let c = v[i];
            let d = if is_alphanumeric(c) { c } else { '-' };
            m.push(d);
            proof {
                assert(v@.take(i + 1).map_values(|c: char| slug_char(c)) =~= v@.take(i as int).map_values(|c: char| slug_char(c)).push(d));
            }
            i = i + 1;
        }
        proof { assert(v@.take(v@.len() as int) =~= v@); }
        let parts = split_chars(&m, '-');
        let kept = nonempty_parts(parts);
        proof {
            reveal_strlit("-");
            assert("-"@ =~= seq!['-']);
        }
        join_parts(&kept, "-")
    }

    /// The type with its slug, for serialisation.
    pub fn as_json(&self) -> (res: TypeJson)
        ensures
            res.name@ == self.name@,
            res.count == self.count,
            res.slug@ == type_slug(self.name@),
    {
        TypeJson { name: self.name.clone(), count: self.count, slug: self.slug() }
    }
}

/// The serialised form of a type.
#[derive(Debug, Clone, PartialEq)]
pub struct TypeJson {
    pub name: String,
    pub count: usize,
    pub slug: String,
}

} // verus!
