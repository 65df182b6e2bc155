//! HTTP as the proxy speaks it: statuses, headers, and the calls that it makes.
use vstd::prelude::*;

use crate::json::{Json, JsonView};
use crate::text::to_chars;

verus! {

/// The statuses with which the proxy refuses a request.
#[derive(Debug, Clone, Copy, PartialEq, Eq, Structural)]
pub enum Status {
    BadRequest,
    Unauthorized,
    NotFound,
    NotImplemented,
    BadGateway,
}

impl Status {
    /// The number of the status.
    pub open spec fn spec_code(self) -> u16 {
        match self {
            Status::BadRequest => 400,
            Status::Unauthorized => 401,
            Status::NotFound => 404,
            Status::NotImplemented => 501,
            Status::BadGateway => 502,
        }
    }

    /// The number of the status.
    pub fn code(self) -> (r: u16)
        ensures
            r == self.spec_code(),
            self == Status::BadRequest ==> r == 400,
            self == Status::Unauthorized ==> r == 401,
            self == Status::NotFound ==> r == 404,
            self == Status::NotImplemented ==> r == 501,
            self == Status::BadGateway ==> r == 502,
    {
        match self {
            Status::BadRequest => 400,
            Status::Unauthorized => 401,
            Status::NotFound => 404,
            Status::NotImplemented => 501,
            Status::BadGateway => 502,
        }
    }
}

/// How a call to a provider ended: no answer, or an answer with a status.
#[derive(Debug, Clone, Copy, PartialEq, Eq, Structural)]
pub enum Reply {
    Failed,
    Answered(u16),
}

/// Whether a status number means success.
pub open spec fn success_code(code: u16) -> bool {
    200 <= code < 300
}

/// Whether the call was answered with success.
pub open spec fn replied_well(reply: Reply) -> bool {
    reply matches Reply::Answered(code) && success_code(code)
}

/// Whether a status number means success.
pub fn is_success(code: u16) -> (r: bool)
    ensures
        r == success_code(code),
        r <==> 200 <= code <= 299,
{
    200 <= code && code < 300
}

/// Lets only a call through that was answered with success.
pub fn check_reply(reply: Reply) -> (r: Result<(), Status>)
    ensures
        r == if replied_well(reply) {
            Ok::<(), Status>(())
        } else {
            Err::<(), Status>(Status::BadGateway)
        },
        r is Ok <==> (reply matches Reply::Answered(code) && 200 <= code <= 299),
        r matches Err(status) ==> status == Status::BadGateway,
{
    match reply {
        Reply::Failed => Err(Status::BadGateway),
        Reply::Answered(code) => if is_success(code) {
            Ok(())
        } else {
            Err(Status::BadGateway)
        },
    }
}

/// Declares `axum::http::HeaderMap`, a set of HTTP headers.
#[verifier::external_type_specification]
#[verifier::external_body]
#[verifier::reject_recursive_types(T)]
pub struct ExHeaderMap<T>(axum::http::HeaderMap<T>);

/// Declares `axum::http::HeaderValue`, the value of an HTTP header.
#[verifier::external_type_specification]
#[verifier::external_body]
pub struct ExHeaderValue(axum::http::HeaderValue);

/// What a set of headers holds: for each name, in lower case, the values under it as bytes.
pub uninterp spec fn header_values(h: axum::http::HeaderMap<axum::http::HeaderValue>) -> Map<
    Seq<char>,
    Seq<Seq<u8>>,
>;

/// The contents of a set without headers.
pub open spec fn no_headers() -> Map<Seq<char>, Seq<Seq<u8>>> {
    Map::empty()
}

/// The values of a header that has the one value `text`.
pub open spec fn sole_value(text: Seq<char>) -> Seq<Seq<u8>> {
    seq![vstd::utf8::encode_utf8(text)]
}

/// Whether a header may have the value `text`: it holds no control character but tabs.
pub open spec fn header_text(text: Seq<char>) -> bool {
    forall|i: int|
        0 <= i < text.len() ==> #[trigger] text[i] == '\t' || (text[i] >= ' ' && text[i]
            != '\u{7f}')
}

/// Whether `name` is a header name in lower case, made of letters, digits and hyphens.
pub open spec fn header_name(name: Seq<char>) -> bool {
    &&& 0 < name.len() < 100
    &&& forall|i: int|
        0 <= i < name.len() ==> 'a' <= #[trigger] name[i] <= 'z' || '0' <= name[i] <= '9' || name[i]
            == '-'
}

/// `axum::http::HeaderMap::new`: the set holds no header.
#[verifier::external_body]
pub(crate) fn new_headers() -> (r: axum::http::HeaderMap<axum::http::HeaderValue>)
    ensures
        header_values(r) == no_headers(),
{
    axum::http::HeaderMap::new()
}

/// `axum::http::HeaderMap::insert`, with the value made by `HeaderValue::from_str`: the header
/// has that one value afterwards, and no other header changes. A value that is no header text
/// and a name that is no header name would panic, and so would a set of many thousand names.
#[verifier::external_body]
pub(crate) fn set_header(
    headers: &mut axum::http::HeaderMap<axum::http::HeaderValue>,
    name: &'static str,
    value: &str,
)
    requires
        header_name(name@),
        header_text(value@),
        header_values(*old(headers)).dom().finite(),
        header_values(*old(headers)).dom().len() < 1000,
    ensures
        header_values(*final(headers)) == header_values(*old(headers)).insert(
            name@,
            sole_value(value@),
        ),
{
    headers.insert(name, axum::http::HeaderValue::from_str(value).unwrap());
}

/// Text after text that may both stand in a header may do so too.
pub proof fn lemma_header_text_joined(a: Seq<char>, b: Seq<char>)
    requires
        header_text(a),
        header_text(b),
    ensures
        header_text(a + b),
{
    let s = a + b;
    assert forall|i: int| 0 <= i < s.len() implies #[trigger] s[i] == '\t' || (s[i] >= ' ' && s[i]
        != '\u{7f}') by {
        if i < a.len() {
            assert(s[i] == a[i]);
        } else {
            assert(s[i] == b[i - a.len()]);
        }
    }
}

/// Whether a header may have the value `text`.
pub fn is_header_text(text: &str) -> (r: bool)
    ensures
        r == header_text(text@),
{
    let chars = to_chars(text);
    let mut i: usize = 0;
    while i < chars.len()
        invariant
            i <= chars@.len(),
            chars@ == text@,
            forall|j: int|
                0 <= j < i ==> #[trigger] text@[j] == '\t' || (text@[j] >= ' ' && text@[j]
                    != '\u{7f}'),
        decreases chars@.len() - i,
    {
        let c = chars[i];
        if !(c == '\t' || (c >= ' ' && c != '\u{7f}')) {
            assert(text@[i as int] == c);
            return false;
        }
        i += 1;
    }
    true
}

/// The methods of HTTP that the proxy uses.
#[derive(Debug, Clone, Copy, PartialEq, Eq, Structural)]
pub enum Method {
    Get,
    Post,
}

/// An HTTP call that the proxy makes.
pub struct HttpCall {
    pub method: Method,
    pub url: String,
    pub headers: axum::http::HeaderMap<axum::http::HeaderValue>,
    pub bearer: Option<String>,
    pub query: Vec<(String, String)>,
    pub body: Option<Json>,
    pub timeout_secs: Option<u64>,
}

/// What an HTTP call says.
pub struct CallView {
    pub method: Method,
    pub url: Seq<char>,
    pub headers: Map<Seq<char>, Seq<Seq<u8>>>,
    pub bearer: Option<Seq<char>>,
    pub query: Seq<(Seq<char>, Seq<char>)>,
    pub body: Option<JsonView>,
    pub timeout_secs: Option<u64>,
}

impl View for HttpCall {
    type V = CallView;

    open spec fn view(&self) -> CallView {
        CallView {
            method: self.method,
            url: self.url@,
            headers: header_values(self.headers),
            bearer: match self.bearer {
                Some(t) => Some(t@),
                None => None,
            },
            query: self.query@.map_values(|q: (String, String)| (q.0@, q.1@)),
            body: match self.body {
                Some(j) => Some(j@),
                None => None,
            },
            timeout_secs: self.timeout_secs,
        }
    }
}

/// A header may have the empty value, and a character may be added to a value if it is a tab or
/// no control character.
pub proof fn lemma_header_text_grows(text: Seq<char>, c: char)
    ensures
        header_text(Seq::empty()),
        header_text(text.push(c)) <==> header_text(text) && (c == '\t' || (' ' <= c && c
            != '\u{7f}')),
{
    let s = text.push(c);
    assert(s[text.len() as int] == c);
    assert forall|i: int| 0 <= i < text.len() implies s[i] == #[trigger] text[i] by {}
    if header_text(s) {
        assert forall|i: int| 0 <= i < text.len() implies #[trigger] text[i] == '\t' || (text[i]
            >= ' ' && text[i] != '\u{7f}') by {
            assert(s[i] == text[i]);
        }
    }
}

/// All of a call is seen.
pub proof fn lemma_call_is_seen_whole(call: HttpCall, i: int)
    ensures
        call@.method == call.method,
        call@.url == call.url@,
        call@.headers == header_values(call.headers),
        call.bearer matches Some(t) ==> call@.bearer == Some(t@),
        call.bearer is None <==> call@.bearer is None,
        call@.query.len() == call.query@.len(),
        0 <= i < call.query@.len() ==> call@.query[i] == (call.query@[i].0@, call.query@[i].1@),
        call.body matches Some(j) ==> call@.body == Some(j@),
        call.body is None <==> call@.body is None,
        call@.timeout_secs == call.timeout_secs,
{
}

} // verus!
