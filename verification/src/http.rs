//! Requests to a device and its replies, as plain values.
use crate::bytes::{copy_bytes, decoded_text, lossy, lossy_text, utf8_text};
use crate::errors::{ErrorView, RustProviderError};
use crate::json::{json_parsed, json_value, parse_value, JsonView};
use crate::text::{cat2, cat3, has_char, starts_with};
use vstd::prelude::*;
use vstd::string::*;
use vstd::utf8::*;

verus! {

/// The method of a request.
#[derive(Debug, Clone, Copy, PartialEq, Eq, Structural)]
pub enum Method {
    Get,
    Post,
    Put,
    Delete,
}

/// What a request carries.
pub enum RequestBody {
    Empty,
    /// A JSON tree, sent as `application/json`.
    Json(serde_json::Value),
    /// A form with one part, `file`, under the given file name; its bytes are
    /// those of the file at hand.
    File(String),
}

/// What a request carries.
pub enum RequestBodyView {
    Empty,
    Json(JsonView),
    File(Seq<char>),
}

impl DeepView for RequestBody {
    type V = RequestBodyView;

    open spec fn deep_view(&self) -> RequestBodyView {
        match self {
            RequestBody::Empty => RequestBodyView::Empty,
            RequestBody::Json(value) => RequestBodyView::Json(json_value(*value)),
            RequestBody::File(name) => RequestBodyView::File(name@),
        }
    }
}

/// A request to a device.
pub struct HttpRequest {
    pub method: Method,
    pub url: String,
    /// The session's credentials, sent as the cookie `Credentials`.
    pub cookie: Option<String>,
    /// Whether JSON is named as the accepted reply.
    pub accept_json: bool,
    pub body: RequestBody,
    /// Milliseconds to wait before the request is sent.
    pub pause_ms: u64,
}

/// The content of an [`HttpRequest`].
pub struct HttpRequestView {
    pub method: Method,
    pub url: Seq<char>,
    pub cookie: Option<Seq<char>>,
    pub accept_json: bool,
    pub body: RequestBodyView,
    pub pause_ms: u64,
}

impl DeepView for HttpRequest {
    type V = HttpRequestView;

    open spec fn deep_view(&self) -> HttpRequestView {
        HttpRequestView {
            method: self.method,
            url: self.url@,
            cookie: self.cookie.deep_view(),
            accept_json: self.accept_json,
            body: self.body.deep_view(),
            pause_ms: self.pause_ms,
        }
    }
}

/// What was read of a reply.
pub enum ReplyBody {
    Text(String),
    Bytes(Vec<u8>),
    /// Reading failed, with this error text.
    Unread(String),
}

/// A reply of a device.
pub struct HttpReply {
    pub code: u16,
    /// The status as shown, such as `404 Not Found`.
    pub status: String,
    /// The headers as shown.
    pub headers: String,
    /// The values of the `Set-Cookie` headers that are text, in order.
    pub cookies: Vec<String>,
    pub body: ReplyBody,
}

/// What sending a request gave: a reply, or the text of the error.
pub type Sent = Result<HttpReply, String>;

/// Whether a status code tells of success.
pub open spec fn is_success(code: u16) -> bool {
    200 <= code <= 299
}

/// Whether a status code tells of missing or stale credentials.
pub open spec fn is_refused(code: u16) -> bool {
    code == 401 || code == 403
}

/// The failure that a status code stands for, if it stands for one.
pub open spec fn status_failure(code: u16, status: Seq<char>) -> Option<ErrorView> {
    if !(400 <= code <= 599) {
        None
    } else if is_refused(code) {
        Some(ErrorView::AuthFailed)
    } else if code == 404 {
        Some(ErrorView::DeviceNotFound)
    } else if code == 409 {
        Some(ErrorView::ConflictDetected)
    } else {
        Some(ErrorView::Internal("http error: "@ + status))
    }
}

impl ReplyBody {
    /// The reply as text, or the error text of reading it.
    pub open spec fn as_text(self) -> Result<Seq<char>, Seq<char>> {
        match self {
            ReplyBody::Text(text) => Ok(text@),
            ReplyBody::Bytes(data) => Ok(lossy(data@)),
            ReplyBody::Unread(e) => Err(e@),
        }
    }

    /// The reply as bytes, or the error text of reading it.
    pub open spec fn as_bytes(self) -> Result<Seq<u8>, Seq<char>> {
        match self {
            ReplyBody::Text(text) => Ok(encode_utf8(text@)),
            ReplyBody::Bytes(data) => Ok(data@),
            ReplyBody::Unread(e) => Err(e@),
        }
    }

    /// The reply as a JSON tree, or the error text of decoding it.
    pub open spec fn as_json(self) -> Result<JsonView, Seq<char>> {
        match self {
            ReplyBody::Text(text) => decoded_json(text@),
            ReplyBody::Bytes(data) => match decoded_text(data@) {
                Some(text) => decoded_json(text),
                None => Err("error decoding response body"@),
            },
            ReplyBody::Unread(e) => Err(e@),
        }
    }

    /// The reply as text, or the error text of reading it.
    pub fn text(&self) -> (r: Result<String, String>)
        ensures
            self.as_text() == match r {
                Ok(text) => Ok(text@),
                Err(e) => Err(e@),
            },
    {
        match self {
            ReplyBody::Text(text) => Ok(text.as_str().to_owned()),
            ReplyBody::Bytes(data) => Ok(lossy_text(data.as_slice())),
            ReplyBody::Unread(e) => Err(e.as_str().to_owned()),
        }
    }

    /// The reply as bytes, or the error text of reading it.
    pub fn bytes(&self) -> (r: Result<Vec<u8>, String>)
        ensures
            self.as_bytes() == match r {
                Ok(data) => Ok(data@),
                Err(e) => Err(e@),
            },
    {
        match self {
            ReplyBody::Text(text) => Ok(copy_bytes(text.as_str().as_bytes())),
            ReplyBody::Bytes(data) => Ok(copy_bytes(data.as_slice())),
            ReplyBody::Unread(e) => Err(e.as_str().to_owned()),
        }
    }

    /// The reply as a JSON tree, or the error text of decoding it.
    pub fn json(&self) -> (r: Result<serde_json::Value, String>)
        ensures
            self.as_json() == match r {
                Ok(value) => Ok(json_value(value)),
                Err(e) => Err(e@),
            },
    {
        match self {
            ReplyBody::Text(text) => decode_json(text.as_str()),
            ReplyBody::Bytes(data) => match utf8_text(copy_bytes(data.as_slice())) {
                Ok(text) => decode_json(text.as_str()),
                Err(_) => Err("error decoding response body".to_owned()),
            },
            ReplyBody::Unread(e) => Err(e.as_str().to_owned()),
        }
    }
}

/// The tree that a reply's text denotes; one error text for all that denote none.
pub open spec fn decoded_json(text: Seq<char>) -> Result<JsonView, Seq<char>> {
    match json_parsed(text) {
        Ok(value) => Ok(value),
        Err(_) => Err("error decoding response body"@),
    }
}

fn decode_json(text: &str) -> (r: Result<serde_json::Value, String>)
    ensures
        decoded_json(text@) == match r {
            Ok(value) => Ok(json_value(value)),
            Err(e) => Err(e@),
        },
{
    match parse_value(text) {
        Ok(value) => Ok(value),
        Err(_) => Err("error decoding response body".to_owned()),
    }
}

impl HttpReply {
    /// Whether the status tells of success.
    pub fn success(&self) -> (r: bool)
        ensures
            r == is_success(self.code),
    {
        200 <= self.code && self.code <= 299
    }

    /// Whether the status tells of missing or stale credentials.
    pub fn refused(&self) -> (r: bool)
        ensures
            r == is_refused(self.code),
    {
        self.code == 401 || self.code == 403
    }

    /// The failure that the status stands for, if it stands for one.
    pub fn failure(&self) -> (r: Option<RustProviderError>)
        ensures
            status_failure(self.code, self.status@) == match r {
                Some(e) => Some(e.deep_view()),
                None => None,
            },
    {
        if !(400 <= self.code && self.code <= 599) {
            None
        } else if self.refused() {
            Some(RustProviderError::AuthFailed)
        } else if self.code == 404 {
            Some(RustProviderError::DeviceNotFound)
        } else if self.code == 409 {
            Some(RustProviderError::ConflictDetected)
        } else {
            Some(RustProviderError::Internal(cat2("http error: ", self.status.as_str())))
        }
    }
}

/// Whether an address carries its own port (a bracketed address does not count).
pub open spec fn has_port(addr: Seq<char>) -> bool {
    addr.contains(':') && !(addr.len() > 0 && addr[0] == '[')
}

/// Where a device's interface stands.
pub open spec fn base_url_of(addr: Seq<char>) -> Seq<char> {
    if has_port(addr) {
        "https://"@ + addr
    } else {
        "https://"@ + addr + ":8443"@
    }
}

/// Where the interface of the device at an address stands.
pub fn base_url(addr: &str) -> (r: String)
    ensures
        r@ == base_url_of(addr@),
{
    proof {
        reveal_strlit("[");
        assert(begins_with_bracket(addr@) == crate::text::begins(addr@, "["@)) by {
            if addr@.len() > 0 {
                assert(addr@.take(1) =~= seq![addr@[0]]);
                assert("["@ =~= seq!['[']);
                if addr@[0] == '[' {
                    assert(addr@.take(1) =~= "["@);
                } else {
                    assert(addr@.take(1)[0] != "["@[0]);
                }
            }
        }
    }
    let needs_port = !(has_char(addr, ':') && !starts_with(addr, "["));
    if needs_port {
        cat3("https://", addr, ":8443")
    } else {
        cat2("https://", addr)
    }
}

spec fn begins_with_bracket(addr: Seq<char>) -> bool {
    addr.len() > 0 && addr[0] == '['
}

/// Where a device's registration interface stands.
pub open spec fn registration_url(addr: Seq<char>, path: Seq<char>) -> Seq<char> {
    "http://"@ + addr + ":8080/"@ + path
}

/// A request to the registration interface of a device.
pub open spec fn registration_request(
    method: Method,
    addr: Seq<char>,
    path: Seq<char>,
    body: Option<JsonView>,
    pause_ms: u64,
) -> HttpRequestView {
    HttpRequestView {
        method,
        url: registration_url(addr, path),
        cookie: None,
        accept_json: body is Some,
        body: match body {
            Some(value) => RequestBodyView::Json(value),
            None => RequestBodyView::Empty,
        },
        pause_ms,
    }
}

/// A request without a body to the registration interface of a device.
pub fn registration_call(method: Method, addr: &str, path: &str, pause_ms: u64) -> (r: HttpRequest)
    ensures
        r.deep_view() == registration_request(method, addr@, path@, None, pause_ms),
{
    HttpRequest {
        method,
        url: crate::text::cat4("http://", addr, ":8080/", path),
        cookie: None,
        accept_json: false,
        body: RequestBody::Empty,
        pause_ms,
    }
}

/// A request with a JSON body to the registration interface of a device.
pub fn registration_post(addr: &str, path: &str, body: serde_json::Value, pause_ms: u64) -> (r:
    HttpRequest)
    ensures
        r.deep_view() == registration_request(
            Method::Post,
            addr@,
            path@,
            Some(json_value(body)),
            pause_ms,
        ),
{
    HttpRequest {
        method: Method::Post,
        url: crate::text::cat4("http://", addr, ":8080/", path),
        cookie: None,
        accept_json: true,
        body: RequestBody::Json(body),
        pause_ms,
    }
}

} // verus!
