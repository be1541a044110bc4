//! HTTP vocabulary: status codes, header values, and URLs.
use vstd::prelude::*;

verus! {

/// The status codes of success: 2xx.
pub open spec fn success(status: u16) -> bool {
    200 <= status <= 299
}

/// Whether `status` reports success.
pub fn is_success(status: u16) -> (yes: bool)
    ensures
        yes == success(status),
{
    200 <= status && status <= 299
}

/// The codes that an HTTP status can have.
pub open spec fn is_status(status: u16) -> bool {
    100 <= status <= 999
}

/// How the `http` crate displays the status `status`.
pub uninterp spec fn status_display(status: u16) -> Seq<char>;

/// `StatusCode::to_string` of the `http` crate, which `reqwest` exports: the
/// code and its canonical reason. The result is a function of the code. A code
/// outside of 100 to 999 is no status.
#[verifier::external_body]
fn status_to_string(status: u16) -> (text: String)
    requires
        is_status(status),
    ensures
        text@ == status_display(status),
{
    reqwest::StatusCode::from_u16(status).unwrap().to_string()
}

/// Writes a status the way logs and error messages show it.
pub fn status_text(status: u16) -> (text: String)
    requires
        is_status(status),
    ensures
        text@ == status_display(status),
{
    status_to_string(status)
}

/// Whether a header value may hold the character `c`: not a control character,
/// unless it is a tab.
pub open spec fn header_char(c: char) -> bool {
    c as u32 == 9 || (c as u32 >= 32 && c as u32 != 127)
}

/// Whether `text` can be sent as a header value.
pub open spec fn header_text(text: Seq<char>) -> bool {
    forall|i: int| 0 <= i < text.len() ==> header_char(#[trigger] text[i])
}

/// `HeaderValue::from_str` of the `http` crate, which `reqwest` exports:
/// succeeds exactly on the texts without control characters other than tabs.
#[verifier::external_body]
fn header_value_from_str(text: &str) -> (valid: bool)
    ensures
        valid == header_text(text@),
{
    reqwest::header::HeaderValue::from_str(text).is_ok()
}

/// Whether `text` can be sent as a header value.
pub fn is_header_text(text: &str) -> (valid: bool)
    ensures
        valid == header_text(text@),
{
    header_value_from_str(text)
}

/// What `Url::parse` of the `url` crate reads in a text: the serialized URL and
/// its debug text, or the error message.
pub uninterp spec fn url_parse(text: Seq<char>) -> Result<(Seq<char>, Seq<char>), Seq<char>>;

/// The content of a URL that was read: the serialized URL and its debug text.
pub open spec fn parsed_url_view(parsed: Result<(String, String), String>) -> Result<
    (Seq<char>, Seq<char>),
    Seq<char>,
> {
    match parsed {
        Ok(url) => Ok((url.0@, url.1@)),
        Err(error) => Err(error@),
    }
}

/// What `Url::join` of the `url` crate makes of a base URL and a reference: the
/// serialized URL, or the error message.
pub uninterp spec fn url_join(base: Seq<char>, reference: Seq<char>) -> Result<
    Seq<char>,
    Seq<char>,
>;

/// The content of a result of texts.
pub open spec fn text_result_view(result: Result<String, String>) -> Result<Seq<char>, Seq<char>> {
    match result {
        Ok(text) => Ok(text@),
        Err(error) => Err(error@),
    }
}

/// `Url::parse` of the `url` crate: the URL, serialized and as its `Debug` shows
/// it, or the error's message. The result is a function of the text.
#[verifier::external_body]
pub(crate) fn parse_url(text: &str) -> (parsed: Result<(String, String), String>)
    ensures
        parsed_url_view(parsed) == url_parse(text@),
{
    url::Url::parse(text).map(|parsed| (parsed.to_string(), format!("{parsed:?}"))).map_err(
        |error| error.to_string(),
    )
}

/// `Url::join` of the `url` crate, on a base that is given serialized: the
/// serialized URL that the reference means there, or the error's message. The
/// result is a function of the two texts.
#[verifier::external_body]
pub(crate) fn join_url(base: &str, reference: &str) -> (joined: Result<String, String>)
    ensures
        text_result_view(joined) == url_join(base@, reference@),
{
    url::Url::parse(base).and_then(|base| base.join(reference)).map(
        |joined| joined.to_string(),
    ).map_err(|error| error.to_string())
}

} // verus!
