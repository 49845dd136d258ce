//! The parts of a URL that the library's rules read, as the `url` crate parses them.
use vstd::prelude::*;

verus! {

/// The components of an absolute URL.
#[derive(Debug)]
pub struct UrlParts {
    pub scheme: String,
    pub host: Option<String>,
    pub port: Option<u16>,
    pub username: String,
    pub password: Option<String>,
    pub query: Option<String>,
    pub fragment: Option<String>,
}

/// The model of `UrlParts`.
pub struct UrlModel {
    pub scheme: Seq<char>,
    pub host: Option<Seq<char>>,
    pub port: Option<u16>,
    pub username: Seq<char>,
    pub password: Option<Seq<char>>,
    pub query: Option<Seq<char>>,
    pub fragment: Option<Seq<char>>,
}

pub open spec fn opt_text(v: Option<String>) -> Option<Seq<char>> {
    match v {
        Some(s) => Some(s@),
        None => None,
    }
}

impl View for UrlParts {
    type V = UrlModel;

    open spec fn view(&self) -> UrlModel {
        UrlModel {
            scheme: self.scheme@,
            host: opt_text(self.host),
            port: self.port,
            username: self.username@,
            password: opt_text(self.password),
            query: opt_text(self.query),
            fragment: opt_text(self.fragment),
        }
    }
}

/// What `url::Url::parse` makes of a text: the URL's components, or the text of
/// its `ParseError`.
pub uninterp spec fn parsed_url(value: Seq<char>) -> Result<UrlModel, Seq<char>>;

/// `url::Url::parse`, read through `scheme`, `host_str`, `port`, `username`,
/// `password`, `query` and `fragment`; a failure gives the error's text.
/// Claimed: the result is a function of the text alone.
#[verifier::external_body]
pub fn parse_url(value: &str) -> (r: Result<UrlParts, String>)
    ensures
        match r {
            Ok(parts) => parsed_url(value@) == Ok::<UrlModel, Seq<char>>(parts@),
            Err(e) => parsed_url(value@) == Err::<UrlModel, Seq<char>>(e@),
        },
{
    match url::Url::parse(value) {
        Ok(url) => Ok(UrlParts {
            scheme: url.scheme().to_string(),
            host: url.host_str().map(|host| host.to_string()),
            port: url.port(),
            username: url.username().to_string(),
            password: url.password().map(|password| password.to_string()),
            query: url.query().map(|query| query.to_string()),
            fragment: url.fragment().map(|fragment| fragment.to_string()),
        }),
        Err(error) => Err(error.to_string()),
    }
}

/// What two calls of the `url` crate make of a base URL text and a reference:
/// `url::Url::parse` of the base, then `Url::join` of the reference onto it.
/// `Ok` with the joined URL's text, or `Err((stage, text))` where stage 0 is a
/// failure of the parse and stage 1 a failure of the join.
pub uninterp spec fn joined_url(base: Seq<char>, reference: Seq<char>) -> Result<Seq<char>, (u8, Seq<char>)>;

/// `url::Url::parse(base)` followed by `Url::join(reference)`, the result as text.
#[verifier::external_body]
pub fn join_url(base: &str, reference: &str) -> (r: Result<String, (u8, String)>)
    ensures
        match r {
            Ok(url) => joined_url(base@, reference@) == Ok::<Seq<char>, (u8, Seq<char>)>(url@),
            Err((stage, e)) => joined_url(base@, reference@) == Err::<Seq<char>, (u8, Seq<char>)>(
                (stage, e@),
            ),
        },
{
    let parsed = url::Url::parse(base).map_err(|error| (0u8, error.to_string()))?;
    parsed.join(reference).map(|url| url.to_string()).map_err(|error| (1u8, error.to_string()))
}

/// What reading `text` as JSON with `serde_json` and following `pointer` gives:
/// `None` when the text is not JSON or nothing is there, `Some(None)` when the
/// value there is not a string, `Some(Some(s))` for a string.
pub uninterp spec fn json_text_at(text: Seq<char>, pointer: Seq<char>) -> Option<Option<Seq<char>>>;

/// `serde_json::from_str::<Value>` followed by `Value::pointer` and `Value::as_str`.
#[verifier::external_body]
pub fn json_string_at(text: &str, pointer: &str) -> (r: Option<Option<String>>)
    ensures
        match r {
            None => json_text_at(text@, pointer@) is None,
            Some(None) => json_text_at(text@, pointer@) == Some(None::<Seq<char>>),
            Some(Some(s)) => json_text_at(text@, pointer@) == Some(Some(s@)),
        },
{
    let value = serde_json::from_str::<serde_json::Value>(text).ok()?;
    value.pointer(pointer).map(|found| found.as_str().map(|s| s.to_string()))
}

} // verus!
