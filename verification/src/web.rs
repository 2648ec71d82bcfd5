//! Addresses, header values and answers of web services.

use vstd::prelude::*;

verus! {

/// A web address that was understood.
#[derive(Debug)]
pub struct WebUrl {
    /// The scheme, such as `https`.
    pub scheme: String,
    /// The whole address in its normal form.
    pub address: String,
}

/// What parsing an address gives: its scheme and normal form, or why it is none.
pub type ParsedUrl = Result<(Seq<char>, Seq<char>), Seq<char>>;

/// The outcome of parsing an address.
pub open spec fn url_outcome(parsed: Result<WebUrl, String>) -> ParsedUrl {
    match parsed {
        Ok(url) => Ok((url.scheme@, url.address@)),
        Err(reason) => Err(reason@),
    }
}

/// What `url::Url::parse` makes of a text: scheme and serialization, or the text of its error.
pub uninterp spec fn url_parsed(value: Seq<char>) -> Result<(Seq<char>, Seq<char>), Seq<char>>;

/// Parses an address with `url::Url::parse`. The outcome depends on the text alone; which texts
/// are addresses, and what their normal form is, the URL standard says and is not restated here.
#[verifier::external_body]
pub(crate) fn parse_url(value: &str) -> (parsed: Result<WebUrl, String>)
    ensures
        url_outcome(parsed) == url_parsed(value@),
{
    match url::Url::parse(value) {
        Ok(url) => Ok(
            WebUrl { scheme: url.scheme().to_owned(), address: url.as_str().to_owned() },
        ),
        Err(error) => Err(error.to_string()),
    }
}

/// The address is reached over HTTP.
pub open spec fn is_web_scheme(scheme: Seq<char>) -> bool {
    scheme == "http"@ || scheme == "https"@
}

/// Whether the address is reached over HTTP.
pub fn has_web_scheme(url: &WebUrl) -> (web: bool)
    ensures
        web == is_web_scheme(url.scheme@),
{
    crate::text::same_text(url.scheme.as_str(), "http") || crate::text::same_text(
        url.scheme.as_str(),
        "https",
    )
}

/// The characters that may stand in a header value: a tab, and everything from the space on but
/// for the delete character.
pub open spec fn is_header_char(c: char) -> bool {
    c == '\t' || (c as u32 >= 32 && c as u32 != 127)
}

/// A text that may stand in a header value.
pub open spec fn is_header_text(s: Seq<char>) -> bool {
    forall|i: int| 0 <= i < s.len() ==> is_header_char(#[trigger] s[i])
}

/// Asks `reqwest::header::HeaderValue::from_str` whether a text may stand in a header: it refuses
/// a text exactly when one of its bytes is a control character other than the tab, and a character
/// beyond ASCII has no such byte.
#[verifier::external_body]
pub(crate) fn header_accepts(value: &str) -> (accepted: bool)
    ensures
        accepted == is_header_text(value@),
{
    reqwest::header::HeaderValue::from_str(value).is_ok()
}

/// The status of an HTTP answer: its code, and the code with its reason as shown to people.
#[derive(Debug)]
pub struct HttpStatus {
    pub code: u16,
    pub text: String,
}

impl HttpStatus {
    /// 200 to 299.
    pub open spec fn success(self) -> bool {
        200 <= self.code <= 299
    }

    /// 500 to 599.
    pub open spec fn server_error(self) -> bool {
        500 <= self.code <= 599
    }

    /// Whether the request was granted.
    pub fn is_success(&self) -> (success: bool)
        ensures
            success == self.success(),
    {
        200 <= self.code && self.code <= 299
    }

    /// Whether the server failed.
    pub fn is_server_error(&self) -> (failed: bool)
        ensures
            failed == self.server_error(),
    {
        500 <= self.code && self.code <= 599
    }
}

/// An answer is granted in the two hundreds, and the server failed in the five hundreds.
pub proof fn law_hundreds_tell_answers_apart(status: HttpStatus)
    ensures
        status.success() <==> status.code as int / 100 == 2,
        status.server_error() <==> status.code as int / 100 == 5,
        is_web_scheme("http"@) && is_web_scheme("https"@),
{
}

/// The outcome of parsing an address is shown as it is.
pub proof fn law_addresses_are_shown_as_they_are(url: WebUrl, reason: String)
    ensures
        url_outcome(Ok(url)) == Ok::<(Seq<char>, Seq<char>), Seq<char>>(
            (url.scheme@, url.address@),
        ),
        url_outcome(Err(reason)) == Err::<(Seq<char>, Seq<char>), Seq<char>>(reason@),
{
}

/// Headers hold texts without control characters, the tab left aside; joining two texts that may
/// stand there gives another.
pub proof fn law_headers_hold_no_control_characters(front: Seq<char>, rest: Seq<char>, c: char)
    ensures
        is_header_text(seq![c]) <==> c == '\t' || (c >= ' ' && c != '\u{7f}'),
        is_header_text(front + rest) <==> is_header_text(front) && is_header_text(rest),
        is_header_text(Seq::empty()),
{
    assert(seq![c][0] == c);
    assert(is_header_char(c) <==> c == '\t' || (c >= ' ' && c != '\u{7f}'));
    let joined = front + rest;
    if is_header_text(joined) {
        assert forall|i: int| 0 <= i < front.len() implies is_header_char(#[trigger] front[i]) by {
            assert(joined[i] == front[i]);
        }
        assert forall|i: int| 0 <= i < rest.len() implies is_header_char(#[trigger] rest[i]) by {
            assert(joined[front.len() + i] == rest[i]);
        }
    }
}

} // verus!
