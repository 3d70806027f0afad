//! Checking what a scrape left in its output directory.

use vstd::prelude::*;
use crate::models::entry::opt_view;

verus! {

/// The `entries` field of an index file, as far as the check reads it.
#[derive(Debug, Clone)]
pub enum EntriesField {
    /// There is no `entries` field.
    Missing,
    /// The field is not an array.
    NotArray,
    /// The field is an array; for each item that is an array, the string
    /// value of each of its elements (none for one that is not a string).
    Array(Vec<Option<Vec<Option<String>>>>),
}

/// The `entries` field, as values.
pub enum EntriesFieldView {
    Missing,
    NotArray,
    Array(Seq<Option<Seq<Option<Seq<char>>>>>),
}

/// The values of the elements of one item.
pub open spec fn item_view(o: Option<Vec<Option<String>>>) -> Option<Seq<Option<Seq<char>>>> {
    match o {
        Some(a) => Some(a@.map_values(|x: Option<String>| opt_view(x))),
        None => None,
    }
}

impl View for EntriesField {
    type V = EntriesFieldView;

    open spec fn view(&self) -> EntriesFieldView {
        match self {
            EntriesField::Missing => EntriesFieldView::Missing,
            EntriesField::NotArray => EntriesFieldView::NotArray,
            EntriesField::Array(items) => EntriesFieldView::Array(items@.map_values(|o: Option<Vec<Option<String>>>| item_view(o))),
        }
    }
}

/// `serde_json::from_str` on the text of an index file, then its `entries`
/// field read as an `EntriesField`; or the text of the parse error.
pub uninterp spec fn parsed_entries(text: Seq<char>) -> Result<EntriesFieldView, Seq<char>>;

/// `serde_json::from_str` into a `serde_json::Value`, then `Value::get` of
/// `entries`, `Value::as_array` on it and on each item, and `Value::as_str`
/// on each element of an item; the parse error is given as its text.
#[verifier::external_body]
fn parse_index_entries(text: &str) -> (res: Result<EntriesField, String>)
    ensures
        match res {
            Ok(f) => parsed_entries(text@) == Ok::<EntriesFieldView, Seq<char>>(f@),
            Err(m) => parsed_entries(text@) == Err::<EntriesFieldView, Seq<char>>(m@),
        },
{
    match serde_json::from_str::<serde_json::Value>(text) {
        Ok(index) => Ok(match index.get("entries") {
            None => EntriesField::Missing,
            Some(field) => match field.as_array() {
                None => EntriesField::NotArray,
                Some(items) => EntriesField::Array(items.iter()
                    .map(|i| i.as_array().map(|a| a.iter().map(|x| x.as_str().map(|s| s.to_string())).collect()))
                    .collect()),
            },
        }),
        Err(e) => Err(e.to_string()),
    }
}

/// What the check of a scrape's output says: the number of entries, or the
/// first problem found.
pub open spec fn validation_outcome(index_exists: bool, content_found: bool, entries: EntriesFieldView)
    -> Result<nat, Seq<char>>
{
    if !index_exists {
        Err("索引文件不存在"@)
    } else if !content_found {
        Err("未生成 HTML 文件"@)
    } else {
        match entries {
            EntriesFieldView::Missing => Err("索引文件格式错误"@),
            EntriesFieldView::NotArray => Err("索引文件格式错误"@),
            EntriesFieldView::Array(items) => {
                if items.len() == 0 {
                    Err("没有文档条目"@)
                } else {
                    match items[0] {
                        None => Err("条目格式不正确"@),
                        Some(a) => if a.len() < 3 { Err("条目结构不正确"@) } else { Ok(items.len()) },
                    }
                }
            },
        }
    }
}

/// What the check says of an index file's text: the file and the content
/// are checked first, then the text is parsed; a parse error is the error.
pub open spec fn index_outcome(index_exists: bool, content_found: bool, text: Seq<char>) -> Result<nat, Seq<char>> {
    if !index_exists || !content_found {
        validation_outcome(index_exists, content_found, EntriesFieldView::Missing)
    } else {
        match parsed_entries(text) {
            Ok(f) => validation_outcome(true, true, f),
            Err(m) => Err(m),
        }
    }
}

/// An element of an entry, or `未知` where it is not a string.
pub open spec fn entry_cell(a: Seq<Option<Seq<char>>>, k: int) -> Seq<char> {
    match a[k] {
        Some(s) => s,
        None => "未知"@,
    }
}

/// The lines shown for the first `n` entries: for each that is an array of
/// at least three elements, its position (from 1), name, type and path.
pub open spec fn preview_rows(items: Seq<Option<Seq<Option<Seq<char>>>>>, n: int)
    -> Seq<(usize, Seq<char>, Seq<char>, Seq<char>)>
    decreases n,
{
    if n <= 0 {
        Seq::empty()
    } else {
        preview_rows(items, n - 1) + match items[n - 1] {
            Some(a) => if a.len() >= 3 {
                seq![(n as usize, entry_cell(a, 0), entry_cell(a, 2), entry_cell(a, 1))]
            } else {
                Seq::empty()
            },
            None => Seq::empty(),
        }
    }
}

/// The views of preview lines.
pub open spec fn rows_view(v: Seq<(usize, String, String, String)>) -> Seq<(usize, Seq<char>, Seq<char>, Seq<char>)> {
    v.map_values(|r: (usize, String, String, String)| (r.0, r.1@, r.2@, r.3@))
}

/// The check of a scrape's output: the index file exists, some HTML file or
/// directory was written, and the index has entries, the first of which is
/// an array of at least name, path and type. Gives the number of entries.
pub fn validate_output(index_exists: bool, content_found: bool, entries: &EntriesField) -> (res: Result<usize, String>)
    ensures
        match res {
            Ok(n) => validation_outcome(index_exists, content_found, entries@) == Ok::<nat, Seq<char>>(n as nat),
            Err(m) => validation_outcome(index_exists, content_found, entries@) == Err::<nat, Seq<char>>(m@),
        },
{
    if !index_exists {
        return Err("索引文件不存在".to_string());
    }
    if !content_found {
        return Err("未生成 HTML 文件".to_string());
    }
    match entries {
        EntriesField::Missing => Err("索引文件格式错误".to_string()),
        EntriesField::NotArray => Err("索引文件格式错误".to_string()),
        EntriesField::Array(items) => {
            if items.len() == 0 {
                return Err("没有文档条目".to_string());
            }
            assert(item_view(items@[0]) == match entries@ { EntriesFieldView::Array(v) => v[0], _ => None });
            match &items[0] {
                None => Err("条目格式不正确".to_string()),
                Some(a) => {
                    if a.len() < 3 {
                        Err("条目结构不正确".to_string())
                    } else {
                        Ok(items.len())
                    }
                },
            }
        },
    }
}

/// The element of an entry shown at `k`, or `未知`.
fn cell_text(a: &Vec<Option<String>>, k: usize) -> (res: String)
    requires
        k < a@.len(),
    ensures
        res@ == entry_cell(a@.map_values(|x: Option<String>| opt_view(x)), k as int),
{
    match &a[k] {
        Some(s) => crate::text::copy_str(s.as_str()),
        None => "未知".to_string(),
    }
}

/// The lines shown for the first three entries.
fn preview(items: &Vec<Option<Vec<Option<String>>>>) -> (res: Vec<(usize, String, String, String)>)
    ensures
        rows_view(res@) == preview_rows(items@.map_values(|o: Option<Vec<Option<String>>>| item_view(o)),
            if items@.len() < 3 { items@.len() as int } else { 3 }),
{
    let ghost iv = items@.map_values(|o: Option<Vec<Option<String>>>| item_view(o));
    let n: usize = if items.len() < 3 { items.len() } else { 3 };
    let mut rows: Vec<(usize, String, String, String)> = Vec::new();
    let mut i: usize = 0;
    while i < n
        invariant
            0 <= i <= n,
            n <= items@.len(),
            n <= 3,
            iv == items@.map_values(|o: Option<Vec<Option<String>>>| item_view(o)),
            rows_view(rows@) == preview_rows(iv, i as int),
        decreases n - i,
    {
        let ghost before = rows_view(rows@);
        assert(iv[i as int] == item_view(items@[i as int]));
        match &items[i] {
            Some(a) => {
                if a.len() >= 3 {
                    let row = (i + 1, cell_text(a, 0), cell_text(a, 2), cell_text(a, 1));
                    rows.push(row);
                    assert(rows_view(rows@) =~= preview_rows(iv, i + 1));
                } else {
                    assert(rows_view(rows@) =~= preview_rows(iv, i + 1));
                }
            },
            None => {
                assert(rows_view(rows@) =~= preview_rows(iv, i + 1));
            },
        }
        i = i + 1;
    }
    rows
}

/// The check of a scrape's output from the text of its index file: the
/// file and the content are checked first; then the text is parsed, and a
/// parse error is the error. Gives the number of entries and the lines
/// shown for the first three.
pub fn validate_index(index_exists: bool, content_found: bool, index_text: &str)
    -> (res: Result<(usize, Vec<(usize, String, String, String)>), String>)
    ensures
        match res {
            Ok((n, rows)) => index_outcome(index_exists, content_found, index_text@) == Ok::<nat, Seq<char>>(n as nat)
                && (parsed_entries(index_text@) matches Ok(EntriesFieldView::Array(items))
                    && rows_view(rows@) == preview_rows(items, if items.len() < 3 { items.len() as int } else { 3 })),
            Err(m) => index_outcome(index_exists, content_found, index_text@) == Err::<nat, Seq<char>>(m@),
        },
{
    if !index_exists || !content_found {
        return match validate_output(index_exists, content_found, &EntriesField::Missing) {
            Ok(n) => Ok((n, Vec::new())),
            Err(m) => Err(m),
        };
    }
    let field = match parse_index_entries(index_text) {
        Ok(f) => f,
        Err(m) => {
            return Err(m);
        },
    };
    match validate_output(true, true, &field) {
        Ok(n) => {
            match &field {
                EntriesField::Array(items) => Ok((n, preview(items))),
                _ => Ok((n, Vec::new())),
            }
        },
        Err(m) => Err(m),
    }
}

/// Whether a directory entry counts as written content: a directory, or a
/// file with the `html` extension.
pub fn is_content_entry(is_dir: bool, extension: Option<&str>) -> (r: bool)
    ensures
        r == (is_dir || (extension matches Some(e) && e@ == "html"@)),
{
    is_dir || match extension {
        Some(e) => crate::text::str_eq(e, "html"),
        None => false,
    }
}

} // verus!
