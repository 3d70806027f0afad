//! Errors of the library.

use vstd::prelude::*;
use crate::models::entry::Invalid as EntryInvalid;

verus! {

/// What can go wrong.
#[derive(Debug)]
pub enum Error {
    /// A status code that is not a success.
    HttpError(u16),
    /// An unexpected content type.
    InvalidContentType(String),
    /// A URL that cannot be used.
    InvalidUrl(String),
    /// A URL that does not parse; the parser's message.
    UrlParse(String),
    /// An HTML problem.
    Html(String),
    /// A parse problem.
    ParseError(String),
    /// A documentation-set problem.
    Doc(String),
    /// An invalid entry.
    Entry(EntryInvalid),
    /// Any other problem.
    Message(String),
}

/// The result type of the library.
pub type Result<T> = std::result::Result<T, Error>;

impl Error {
    /// The human-readable description.
    pub fn message(&self) -> (res: String)
        ensures
            match self {
                Error::HttpError(code) => res@ == "HTTP错误代码: "@ + crate::text::decimal(*code as nat),
                Error::InvalidContentType(c) => res@ == "无效的内容类型: "@ + c@,
                Error::InvalidUrl(u) => res@ == "无效的URL: "@ + u@,
                Error::UrlParse(m) => res@ == "URL解析错误: "@ + m@,
                Error::Html(m) => res@ == "HTML错误: "@ + m@,
                Error::ParseError(m) => res@ == "解析错误: "@ + m@,
                Error::Doc(m) => res@ == "文档错误: "@ + m@,
                Error::Entry(e) => res@ == "Entry错误: "@ + e.message@,
                Error::Message(m) => res@ == m@,
            },
    {
        let (prefix, body): (&str, &str) = match self {
            Error::HttpError(code) => return http_code_message(*code),
            Error::InvalidContentType(c) => ("无效的内容类型: ", c.as_str()),
            Error::InvalidUrl(u) => ("无效的URL: ", u.as_str()),
            Error::UrlParse(m) => ("URL解析错误: ", m.as_str()),
            Error::Html(m) => ("HTML错误: ", m.as_str()),
            Error::ParseError(m) => ("解析错误: ", m.as_str()),
            Error::Doc(m) => ("文档错误: ", m.as_str()),
            Error::Entry(e) => ("Entry错误: ", e.message.as_str()),
            Error::Message(m) => ("", m.as_str()),
        };
        let mut out = prefix.to_string();
        crate::text::push_str(&mut out, body);
        proof {
            reveal_strlit("");
        }
        out
    }
}

/// `HTTP错误代码: ` and the code in decimal.
fn http_code_message(code: u16) -> (res: String)
    ensures
        res@ == "HTTP错误代码: "@ + crate::text::decimal(code as nat),
{
    let mut out = "HTTP错误代码: ".to_string();
    let digits = crate::text::decimal_string(code as u64);
    crate::text::push_str(&mut out, digits.as_str());
    out
}

} // verus!
