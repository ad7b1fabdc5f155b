//! Sessions: logging in to a device, and calls of its interface.
use crate::bytes::lossy_text;
use crate::crypto::{is_signed_nonce, sign_nonce_rsa_sha256_base64};
use crate::errors::{internal, outcome, ErrorView, RustProviderError};
use crate::http::{
    base_url, base_url_of, is_refused, is_success, status_failure, HttpReply, HttpRequest,
    HttpRequestView, Method, ReplyBody, RequestBody, RequestBodyView, Sent,
};
use crate::json::{
    copy_value, empty_object, json_parsed, json_text, json_value, no_fields, parse_value, put_text,
    show_json, text_member, JsonView,
};
use crate::text::{begins, cat2, cat4, cat6, pieces, split, strip_prefix, texts, trim, trimmed};
use vstd::prelude::*;
use vstd::string::*;

verus! {

/// A session with a device: where it is and the credentials it gave out.
pub struct Session {
    pub addr: String,
    pub cookie: String,
}

/// The content of a [`Session`].
#[verifier::ext_equal]
pub struct SessionView {
    pub addr: Seq<char>,
    pub cookie: Seq<char>,
}

impl DeepView for Session {
    type V = SessionView;

    open spec fn deep_view(&self) -> SessionView {
        SessionView { addr: self.addr@, cookie: self.cookie@ }
    }
}

impl Clone for Session {
    fn clone(&self) -> (r: Self)
        ensures
            r.deep_view() == self.deep_view(),
    {
        Session {
            addr: self.addr.as_str().to_owned(),
            cookie: self.cookie.as_str().to_owned(),
        }
    }
}

/// The value after `Credentials=` in the first of some cookie parts that has it.
pub open spec fn credentials_in(parts: Seq<Seq<char>>) -> Option<Seq<char>>
    decreases parts.len(),
{
    if parts.len() == 0 {
        None
    } else if begins(trimmed(parts[0]), "Credentials="@) {
        Some(trimmed(parts[0]).skip("Credentials="@.len() as int))
    } else {
        credentials_in(parts.skip(1))
    }
}

/// The credentials that a cookie sets, if it sets any.
pub fn parse_credentials_cookie(raw: &str) -> (r: Option<String>)
    ensures
        r.deep_view() == credentials_in(pieces(raw@, ';')),
{
    let parts = split(raw, ';');
    let ghost all = texts(parts@);
    assert(all.skip(0) =~= all);
    for i in 0..parts.len()
        invariant
            all == texts(parts@),
            all == pieces(raw@, ';'),
            credentials_in(all) == credentials_in(all.skip(i as int)),
    {
        assert(all.skip(i as int)[0] == parts@[i as int]@);
        let piece = trim(parts[i].as_str());
        if let Some(value) = strip_prefix(piece.as_str(), "Credentials=") {
            return Some(value);
        }
        assert(all.skip(i as int).skip(1) =~= all.skip(i + 1));
    }
    None
}

/// The credentials that the first cookie to set any sets.
pub open spec fn cookie_of(cookies: Seq<Seq<char>>) -> Option<Seq<char>>
    decreases cookies.len(),
{
    if cookies.len() == 0 {
        None
    } else {
        match credentials_in(pieces(cookies[0], ';')) {
            Some(value) => Some(value),
            None => cookie_of(cookies.skip(1)),
        }
    }
}

/// The credentials that a reply's cookies set, if they set any.
pub fn extract_credentials_cookie_from_headers(cookies: &Vec<String>) -> (r: Option<String>)
    ensures
        r.deep_view() == cookie_of(texts(cookies@)),
{
    let ghost all = texts(cookies@);
    assert(all.skip(0) =~= all);
    for i in 0..cookies.len()
        invariant
            all == texts(cookies@),
            cookie_of(all) == cookie_of(all.skip(i as int)),
    {
        if let Some(value) = parse_credentials_cookie(cookies[i].as_str()) {
            return Some(value);
        }
        assert(all.skip(i as int).skip(1) =~= all.skip(i + 1));
    }
    None
}

/// A request without credentials to the interface of a device.
pub open spec fn plain_request(
    method: Method,
    addr: Seq<char>,
    path: Seq<char>,
    body: RequestBodyView,
) -> HttpRequestView {
    HttpRequestView {
        method,
        url: base_url_of(addr) + path,
        cookie: None,
        accept_json: false,
        body,
        pause_ms: 0,
    }
}

fn plain_call(method: Method, addr: &str, path: &str, body: RequestBody) -> (r: HttpRequest)
    ensures
        r.deep_view() == plain_request(method, addr@, path@, body.deep_view()),
{
    HttpRequest {
        method,
        url: cat2(base_url(addr).as_str(), path),
        cookie: None,
        accept_json: false,
        body,
        pause_ms: 0,
    }
}

/// The nonce that a device's reply holds.
pub open spec fn nonce_in(reply: Sent) -> Result<Seq<char>, ErrorView> {
    match reply {
        Err(e) => Err(ErrorView::Internal("nonce request failed: "@ + e@)),
        Ok(reply) => match reply.body.as_text() {
            Err(e) => Err(ErrorView::Internal("nonce read failed: "@ + e)),
            Ok(text) => if !is_success(reply.code) {
                Err(
                    ErrorView::Internal(
                        "nonce http error: status="@ + reply.status@ + " body="@ + text,
                    ),
                )
            } else {
                match json_parsed(text) {
                    Err(e) => Err(
                        ErrorView::Internal("parse nonce failed: "@ + e + "; body="@ + text),
                    ),
                    Ok(value) => match value.text_at("nonce"@) {
                        Some(nonce) => Ok(nonce),
                        None => Err(ErrorView::Internal("missing nonce"@)),
                    },
                }
            },
        },
    }
}

/// Reads the nonce in a device's reply.
pub fn read_nonce(reply: &Sent) -> (r: Result<String, RustProviderError>)
    ensures
        outcome(r) == nonce_in(*reply),
{
    match reply {
        Err(e) => Err(RustProviderError::Internal(cat2("nonce request failed: ", e.as_str()))),
        Ok(reply) => match reply.body.text() {
            Err(e) => Err(RustProviderError::Internal(cat2("nonce read failed: ", e.as_str()))),
            Ok(text) => if !reply.success() {
                Err(
                    RustProviderError::Internal(
                        cat4(
                            "nonce http error: status=",
                            reply.status.as_str(),
                            " body=",
                            text.as_str(),
                        ),
                    ),
                )
            } else {
                match parse_value(text.as_str()) {
                    Err(e) => Err(
                        RustProviderError::Internal(
                            cat4("parse nonce failed: ", e.as_str(), "; body=", text.as_str()),
                        ),
                    ),
                    Ok(value) => match text_member(&value, "nonce") {
                        Some(nonce) => Ok(nonce.to_owned()),
                        None => Err(internal("missing nonce")),
                    },
                }
            },
        },
    }
}

/// The message that logs a client in with a signed nonce.
pub open spec fn auth_message(client_id: Seq<char>, signed: Seq<char>) -> JsonView {
    JsonView::Object(
        no_fields().insert("client_id"@, JsonView::Text(client_id)).insert(
            "nonce_signed"@,
            JsonView::Text(signed),
        ),
    )
}

/// The request that logs a client in with a signed nonce.
pub fn auth_request(addr: &str, client_id: &str, signed: &str) -> (r: HttpRequest)
    ensures
        r.deep_view() == plain_request(
            Method::Put,
            addr@,
            "/auth"@,
            RequestBodyView::Json(auth_message(client_id@, signed@)),
        ),
{
    let mut body = empty_object();
    put_text(&mut body, "client_id", client_id);
    put_text(&mut body, "nonce_signed", signed);
    plain_call(Method::Put, addr, "/auth", RequestBody::Json(body))
}

/// The session that a device's reply to a login opens.
pub open spec fn session_in(addr: Seq<char>, reply: Sent) -> Result<SessionView, ErrorView> {
    match reply {
        Err(e) => Err(ErrorView::Internal("auth request failed: "@ + e@)),
        Ok(reply) => match reply.body.as_text() {
            Err(e) => Err(ErrorView::Internal("auth response read failed: "@ + e)),
            Ok(text) => if !is_success(reply.code) {
                if reply.code == 404 {
                    Err(ErrorView::DeviceNotFound)
                } else if reply.code == 409 {
                    Err(ErrorView::ConflictDetected)
                } else {
                    Err(
                        ErrorView::Internal(
                            "auth http error: status="@ + reply.status@ + " headers="@
                                + reply.headers@ + " body="@ + text,
                        ),
                    )
                }
            } else {
                match cookie_of(texts(reply.cookies@)) {
                    Some(cookie) => Ok(SessionView { addr, cookie }),
                    None => Err(
                        ErrorView::Internal(
                            "auth succeeded without credentials cookie; headers="@ + reply.headers@
                                + "; body="@ + text,
                        ),
                    ),
                }
            },
        },
    }
}

/// Reads the session that a device's reply to a login opens.
pub fn read_session(addr: &str, reply: &Sent) -> (r: Result<Session, RustProviderError>)
    ensures
        outcome(r) == session_in(addr@, *reply),
{
    match reply {
        Err(e) => Err(RustProviderError::Internal(cat2("auth request failed: ", e.as_str()))),
        Ok(reply) => match reply.body.text() {
            Err(e) => Err(
                RustProviderError::Internal(cat2("auth response read failed: ", e.as_str())),
            ),
            Ok(text) => if !reply.success() {
                if reply.code == 404 {
                    Err(RustProviderError::DeviceNotFound)
                } else if reply.code == 409 {
                    Err(RustProviderError::ConflictDetected)
                } else {
                    Err(
                        RustProviderError::Internal(
                            cat6(
                                "auth http error: status=",
                                reply.status.as_str(),
                                " headers=",
                                reply.headers.as_str(),
                                " body=",
                                text.as_str(),
                            ),
                        ),
                    )
                }
            } else {
                match extract_credentials_cookie_from_headers(&reply.cookies) {
                    Some(cookie) => Ok(Session { addr: addr.to_owned(), cookie }),
                    None => Err(
                        RustProviderError::Internal(
                            cat4(
                                "auth succeeded without credentials cookie; headers=",
                                reply.headers.as_str(),
                                "; body=",
                                text.as_str(),
                            ),
                        ),
                    ),
                }
            },
        },
    }
}

/// How a login goes on.
pub enum AuthStep {
    Send(HttpRequest),
    Done(Session),
    Failed(RustProviderError),
}

/// Whether a request logs a client in with a nonce that the private key signed.
pub open spec fn is_login(
    addr: Seq<char>,
    client_id: Seq<char>,
    pem: Seq<char>,
    nonce: Seq<char>,
    request: HttpRequestView,
) -> bool {
    exists|signed: Seq<char>| #[trigger]
        is_signed_nonce(pem, nonce, signed) && request == plain_request(
            Method::Put,
            addr,
            "/auth"@,
            RequestBodyView::Json(auth_message(client_id, signed)),
        )
}

/// Whether a step answers the reply to a request for a nonce: what the device
/// gave is signed with the private key and sent back with the client's name.
pub open spec fn answers_nonce(
    addr: Seq<char>,
    client_id: Seq<char>,
    pem: Seq<char>,
    reply: Sent,
    step: AuthStep,
) -> bool {
    match nonce_in(reply) {
        Err(e) => step matches AuthStep::Failed(f) && f.deep_view() == e,
        Ok(nonce) => match step {
            AuthStep::Send(request) => is_login(addr, client_id, pem, nonce, request.deep_view()),
            AuthStep::Failed(e) => crate::crypto::is_sign_failure(e.deep_view()),
            AuthStep::Done(_) => false,
        },
    }
}

/// Whether a step of a login is one that the replies so far allow. The device is
/// asked for a nonce; what it gives is signed with the private key and sent back
/// with the client's name; the reply to that opens the session.
pub open spec fn auth_step(
    addr: Seq<char>,
    client_id: Seq<char>,
    pem: Seq<char>,
    replies: Seq<Sent>,
    step: AuthStep,
) -> bool {
    if replies.len() == 0 {
        step matches AuthStep::Send(request) && request.deep_view() == plain_request(
            Method::Get,
            addr,
            "/auth/nonce/"@ + client_id,
            RequestBodyView::Empty,
        )
    } else if replies.len() == 1 {
        answers_nonce(addr, client_id, pem, replies[0], step)
    } else {
        match session_in(addr, replies[1]) {
            Ok(session) => step matches AuthStep::Done(s) && s.deep_view() == session,
            Err(e) => step matches AuthStep::Failed(f) && f.deep_view() == e,
        }
    }
}

/// Answers the reply to a request for a nonce.
fn answer_nonce(addr: &str, client_id: &str, private_key_pem: &str, reply: &Sent) -> (r: AuthStep)
    ensures
        answers_nonce(addr@, client_id@, private_key_pem@, *reply, r),
{
    let nonce = match read_nonce(reply) {
        Err(e) => {
            return AuthStep::Failed(e);
        },
        Ok(nonce) => nonce,
    };
    match sign_nonce_rsa_sha256_base64(private_key_pem, nonce.as_str()) {
        Err(e) => AuthStep::Failed(e),
        Ok(signed) => {
            let request = auth_request(addr, client_id, signed.as_str());
            assert(is_login(addr@, client_id@, private_key_pem@, nonce@, request.deep_view()));
            AuthStep::Send(request)
        },
    }
}

/// The next step of a login, as a function of the replies so far.
pub fn authenticate_session_once(
    addr: &str,
    client_id: &str,
    private_key_pem: &str,
    replies: &Vec<Sent>,
) -> (r: AuthStep)
    ensures
        auth_step(addr@, client_id@, private_key_pem@, replies@, r),
{
    if replies.len() == 0 {
        let path = cat2("/auth/nonce/", client_id);
        AuthStep::Send(plain_call(Method::Get, addr, path.as_str(), RequestBody::Empty))
    } else if replies.len() == 1 {
        answer_nonce(addr, client_id, private_key_pem, &replies[0])
    } else {
        match read_session(addr, &replies[1]) {
            Ok(session) => AuthStep::Done(session),
            Err(e) => AuthStep::Failed(e),
        }
    }
}

/// Whether a failed login is worth another one.
pub open spec fn login_retryable(e: ErrorView) -> bool {
    e is AuthFailed || e is Internal
}

/// Decides on a failed login: true where another one is to be made, after a
/// quarter of a second; no more than three are made.
pub fn authenticate_session(attempt: u64, failure: &RustProviderError) -> (r: bool)
    ensures
        r == (login_retryable(failure.deep_view()) && attempt < 3),
{
    match failure {
        RustProviderError::AuthFailed => attempt < 3,
        RustProviderError::Internal(_) => attempt < 3,
        _ => false,
    }
}

/// A call of a device's interface.
pub enum ApiCall {
    GetJson(String),
    PostJson(String, serde_json::Value),
    PutJson(String, serde_json::Value),
    GetBytes(String),
    /// A file under the given name.
    PutFile(String, String),
    Delete(String),
}

/// The content of an [`ApiCall`].
pub enum ApiCallView {
    GetJson(Seq<char>),
    PostJson(Seq<char>, JsonView),
    PutJson(Seq<char>, JsonView),
    GetBytes(Seq<char>),
    PutFile(Seq<char>, Seq<char>),
    Delete(Seq<char>),
}

impl DeepView for ApiCall {
    type V = ApiCallView;

    open spec fn deep_view(&self) -> ApiCallView {
        match self {
            ApiCall::GetJson(endpoint) => ApiCallView::GetJson(endpoint@),
            ApiCall::PostJson(endpoint, value) => ApiCallView::PostJson(
                endpoint@,
                json_value(*value),
            ),
            ApiCall::PutJson(endpoint, value) => ApiCallView::PutJson(endpoint@, json_value(*value)),
            ApiCall::GetBytes(endpoint) => ApiCallView::GetBytes(endpoint@),
            ApiCall::PutFile(endpoint, name) => ApiCallView::PutFile(endpoint@, name@),
            ApiCall::Delete(endpoint) => ApiCallView::Delete(endpoint@),
        }
    }
}

/// What a call gives.
pub enum ApiValue {
    Json(serde_json::Value),
    Bytes(Vec<u8>),
    Nothing,
}

/// The content of an [`ApiValue`].
pub enum ApiValueView {
    Json(JsonView),
    Bytes(Seq<u8>),
    Nothing,
}

impl DeepView for ApiValue {
    type V = ApiValueView;

    open spec fn deep_view(&self) -> ApiValueView {
        match self {
            ApiValue::Json(value) => ApiValueView::Json(json_value(*value)),
            ApiValue::Bytes(data) => ApiValueView::Bytes(data@),
            ApiValue::Nothing => ApiValueView::Nothing,
        }
    }
}

/// A request with a session's credentials.
pub open spec fn session_request(
    session: SessionView,
    method: Method,
    endpoint: Seq<char>,
    body: RequestBodyView,
) -> HttpRequestView {
    HttpRequestView {
        method,
        url: base_url_of(session.addr) + endpoint,
        cookie: Some("Credentials="@ + session.cookie),
        accept_json: false,
        body,
        pause_ms: 0,
    }
}

fn session_call(session: &Session, method: Method, endpoint: &str, body: RequestBody) -> (r:
    HttpRequest)
    ensures
        r.deep_view() == session_request(
            session.deep_view(),
            method,
            endpoint@,
            body.deep_view(),
        ),
{
    HttpRequest {
        method,
        url: cat2(base_url(session.addr.as_str()).as_str(), endpoint),
        cookie: Some(cat2("Credentials=", session.cookie.as_str())),
        accept_json: false,
        body,
        pause_ms: 0,
    }
}

impl ApiCallView {
    /// The request that makes the call.
    pub open spec fn request(self, session: SessionView) -> HttpRequestView {
        match self {
            ApiCallView::GetJson(endpoint) => session_request(
                session,
                Method::Get,
                endpoint,
                RequestBodyView::Empty,
            ),
            ApiCallView::PostJson(endpoint, value) => session_request(
                session,
                Method::Post,
                endpoint,
                RequestBodyView::Json(value),
            ),
            ApiCallView::PutJson(endpoint, value) => session_request(
                session,
                Method::Put,
                endpoint,
                RequestBodyView::Json(value),
            ),
            ApiCallView::GetBytes(endpoint) => session_request(
                session,
                Method::Get,
                endpoint,
                RequestBodyView::Empty,
            ),
            ApiCallView::PutFile(endpoint, name) => session_request(
                session,
                Method::Put,
                endpoint,
                RequestBodyView::File(name),
            ),
            ApiCallView::Delete(endpoint) => session_request(
                session,
                Method::Delete,
                endpoint,
                RequestBodyView::Empty,
            ),
        }
    }

    /// The failure of a request that was not sent, with the given error text.
    pub open spec fn unsent(self, e: Seq<char>) -> ErrorView {
        match self {
            ApiCallView::PutJson(_, _) => ErrorView::Internal("put request failed: "@ + e),
            ApiCallView::GetBytes(_) => ErrorView::Internal("bytes request failed: "@ + e),
            _ => ErrorView::TransportUnreachable,
        }
    }

    /// Whether a refused call is made again with a fresh session.
    pub open spec fn retried(self) -> bool {
        !(self is PutFile)
    }

    /// What the call gives for a reply.
    pub open spec fn result(self, reply: HttpReply) -> Result<ApiValueView, ErrorView> {
        match self {
            ApiCallView::PutJson(endpoint, value) => put_result(endpoint, value, reply),
            ApiCallView::GetBytes(endpoint) => bytes_result(endpoint, reply),
            _ => match status_failure(reply.code, reply.status@) {
                Some(e) => Err(e),
                None => if self is GetJson || self is PostJson {
                    match reply.body.as_json() {
                        Ok(value) => Ok(ApiValueView::Json(value)),
                        Err(e) => Err(ErrorView::Internal("json decode failed: "@ + e)),
                    }
                } else {
                    Ok(ApiValueView::Nothing)
                },
            },
        }
    }
}

/// What putting a JSON tree gives for a reply; an empty reply counts as an empty object.
pub open spec fn put_result(endpoint: Seq<char>, value: JsonView, reply: HttpReply) -> Result<
    ApiValueView,
    ErrorView,
> {
    match reply.body.as_text() {
        Err(e) => Err(ErrorView::Internal("put response read failed: "@ + e)),
        Ok(text) => if !is_success(reply.code) {
            Err(
                ErrorView::Internal(
                    "put http error: endpoint="@ + endpoint + " status="@ + reply.status@
                        + " payload="@ + json_text(value) + " body="@ + text,
                ),
            )
        } else if trimmed(text).len() == 0 {
            Ok(ApiValueView::Json(JsonView::Object(no_fields())))
        } else {
            match json_parsed(text) {
                Ok(value) => Ok(ApiValueView::Json(value)),
                Err(_) => Err(ErrorView::Internal("json decode failed: body="@ + text)),
            }
        },
    }
}

/// What getting bytes gives for a reply.
pub open spec fn bytes_result(endpoint: Seq<char>, reply: HttpReply) -> Result<
    ApiValueView,
    ErrorView,
> {
    match reply.body.as_bytes() {
        Err(e) => Err(ErrorView::Internal("bytes decode failed: "@ + e)),
        Ok(data) => if !is_success(reply.code) {
            Err(
                ErrorView::Internal(
                    "bytes http error: endpoint="@ + endpoint + " status="@ + reply.status@
                        + " headers="@ + reply.headers@ + " body="@ + crate::bytes::lossy(data),
                ),
            )
        } else {
            Ok(ApiValueView::Bytes(data))
        },
    }
}

fn read_put(endpoint: &str, value: &serde_json::Value, reply: &HttpReply) -> (r: Result<
    ApiValue,
    RustProviderError,
>)
    ensures
        outcome(r) == put_result(endpoint@, json_value(*value), *reply),
{
    match reply.body.text() {
        Err(e) => Err(
            RustProviderError::Internal(cat2("put response read failed: ", e.as_str())),
        ),
        Ok(text) => if !reply.success() {
            let first = cat4(
                "put http error: endpoint=",
                endpoint,
                " status=",
                reply.status.as_str(),
            );
            let shown = show_json(value);
            Err(
                RustProviderError::Internal(
                    crate::text::cat5(
                        first.as_str(),
                        " payload=",
                        shown.as_str(),
                        " body=",
                        text.as_str(),
                    ),
                ),
            )
        } else if crate::text::is_blank(trim(text.as_str()).as_str()) {
            Ok(ApiValue::Json(empty_object()))
        } else {
            match parse_value(text.as_str()) {
                Ok(value) => Ok(ApiValue::Json(value)),
                Err(_) => Err(
                    RustProviderError::Internal(cat2("json decode failed: body=", text.as_str())),
                ),
            }
        },
    }
}

fn read_bytes(endpoint: &str, reply: &HttpReply) -> (r: Result<ApiValue, RustProviderError>)
    ensures
        outcome(r) == bytes_result(endpoint@, *reply),
{
    match reply.body.bytes() {
        Err(e) => Err(RustProviderError::Internal(cat2("bytes decode failed: ", e.as_str()))),
        Ok(data) => if !reply.success() {
            let first = cat4(
                "bytes http error: endpoint=",
                endpoint,
                " status=",
                reply.status.as_str(),
            );
            let shown = lossy_text(data.as_slice());
            Err(
                RustProviderError::Internal(
                    crate::text::cat5(
                        first.as_str(),
                        " headers=",
                        reply.headers.as_str(),
                        " body=",
                        shown.as_str(),
                    ),
                ),
            )
        } else {
            Ok(ApiValue::Bytes(data))
        },
    }
}

impl ApiCall {
    /// The request that makes the call.
    pub fn request(&self, session: &Session) -> (r: HttpRequest)
        ensures
            r.deep_view() == self.deep_view().request(session.deep_view()),
    {
        match self {
            ApiCall::GetJson(endpoint) => session_call(
                session,
                Method::Get,
                endpoint.as_str(),
                RequestBody::Empty,
            ),
            ApiCall::PostJson(endpoint, value) => session_call(
                session,
                Method::Post,
                endpoint.as_str(),
                RequestBody::Json(copy_value(value)),
            ),
            ApiCall::PutJson(endpoint, value) => session_call(
                session,
                Method::Put,
                endpoint.as_str(),
                RequestBody::Json(copy_value(value)),
            ),
            ApiCall::GetBytes(endpoint) => session_call(
                session,
                Method::Get,
                endpoint.as_str(),
                RequestBody::Empty,
            ),
            ApiCall::PutFile(endpoint, name) => session_call(
                session,
                Method::Put,
                endpoint.as_str(),
                RequestBody::File(name.as_str().to_owned()),
            ),
            ApiCall::Delete(endpoint) => session_call(
                session,
                Method::Delete,
                endpoint.as_str(),
                RequestBody::Empty,
            ),
        }
    }

    /// What the call gives for what sending its request gave.
    pub fn result(&self, sent: &Sent) -> (r: Result<ApiValue, RustProviderError>)
        ensures
            outcome(r) == match *sent {
                Ok(reply) => self.deep_view().result(reply),
                Err(e) => Err(self.deep_view().unsent(e@)),
            },
    {
        match sent {
            Err(e) => match self {
                ApiCall::PutJson(_, _) => Err(
                    RustProviderError::Internal(cat2("put request failed: ", e.as_str())),
                ),
                ApiCall::GetBytes(_) => Err(
                    RustProviderError::Internal(cat2("bytes request failed: ", e.as_str())),
                ),
                _ => Err(RustProviderError::TransportUnreachable),
            },
            Ok(reply) => match self {
                ApiCall::PutJson(endpoint, value) => read_put(endpoint.as_str(), value, reply),
                ApiCall::GetBytes(endpoint) => read_bytes(endpoint.as_str(), reply),
                _ => match reply.failure() {
                    Some(e) => Err(e),
                    None => match self {
                        ApiCall::PutFile(_, _) => Ok(ApiValue::Nothing),
                        ApiCall::Delete(_) => Ok(ApiValue::Nothing),
                        _ => match reply.body.json() {
                            Ok(value) => Ok(ApiValue::Json(value)),
                            Err(e) => Err(
                                RustProviderError::Internal(
                                    cat2("json decode failed: ", e.as_str()),
                                ),
                            ),
                        },
                    },
                },
            },
        }
    }
}

/// What has happened of a call so far.
pub struct CallHistory {
    pub first: Option<Sent>,
    /// The session that a login after a refusal gave, or why it failed.
    pub fresh: Option<Result<Session, RustProviderError>>,
    pub second: Option<Sent>,
}

/// How a call goes on.
pub enum CallStep {
    Send(HttpRequest),
    /// Log in again at the address.
    Refresh(String),
    Done(ApiValue),
    Failed(RustProviderError),
}

/// The content of a [`CallStep`].
pub enum CallStepView {
    Send(HttpRequestView),
    Refresh(Seq<char>),
    Done(ApiValueView),
    Failed(ErrorView),
}

impl DeepView for CallStep {
    type V = CallStepView;

    open spec fn deep_view(&self) -> CallStepView {
        match self {
            CallStep::Send(request) => CallStepView::Send(request.deep_view()),
            CallStep::Refresh(addr) => CallStepView::Refresh(addr@),
            CallStep::Done(value) => CallStepView::Done(value.deep_view()),
            CallStep::Failed(e) => CallStepView::Failed(e.deep_view()),
        }
    }
}

/// The end of a call with what sending its request gave.
pub open spec fn call_end(call: ApiCallView, sent: Sent) -> CallStepView {
    match sent {
        Err(e) => CallStepView::Failed(call.unsent(e@)),
        Ok(reply) => match call.result(reply) {
            Ok(value) => CallStepView::Done(value),
            Err(e) => CallStepView::Failed(e),
        },
    }
}

/// A call as a function of what has happened so far: the request is sent; where
/// the device refuses the credentials, there is one login at the same address
/// and one more request with what it gives.
pub open spec fn call_step(call: ApiCallView, session: SessionView, h: CallHistory) -> CallStepView {
    match h.first {
        None => CallStepView::Send(call.request(session)),
        Some(sent) => if call.retried() && (sent matches Ok(reply) && is_refused(reply.code)) {
            match h.fresh {
                None => CallStepView::Refresh(session.addr),
                Some(Err(e)) => CallStepView::Failed(e.deep_view()),
                Some(Ok(fresh)) => match h.second {
                    None => CallStepView::Send(call.request(fresh.deep_view())),
                    Some(sent) => call_end(call, sent),
                },
            }
        } else {
            call_end(call, sent)
        },
    }
}

fn end_call(call: &ApiCall, sent: &Sent) -> (r: CallStep)
    ensures
        r.deep_view() == call_end(call.deep_view(), *sent),
{
    match call.result(sent) {
        Ok(value) => CallStep::Done(value),
        Err(e) => CallStep::Failed(e),
    }
}

/// The next step of a call.
pub fn call_with_retry(call: &ApiCall, session: &Session, h: &CallHistory) -> (r: CallStep)
    ensures
        r.deep_view() == call_step(call.deep_view(), session.deep_view(), *h),
{
    let sent = match &h.first {
        None => {
            return CallStep::Send(call.request(session));
        },
        Some(sent) => sent,
    };
    let retried = match call {
        ApiCall::PutFile(_, _) => false,
        _ => true,
    };
    let refused = match sent {
        Ok(reply) => reply.refused(),
        Err(_) => false,
    };
    if !retried || !refused {
        return end_call(call, sent);
    }
    match &h.fresh {
        None => CallStep::Refresh(session.addr.as_str().to_owned()),
        Some(Err(e)) => CallStep::Failed(e.clone()),
        Some(Ok(fresh)) => match &h.second {
            None => CallStep::Send(call.request(fresh)),
            Some(sent) => end_call(call, sent),
        },
    }
}

/// A refused call ends in at most two requests and one login: once the second
/// request has been answered there is nothing left to do, whatever the answer.
pub proof fn call_is_retried_once(call: ApiCallView, session: SessionView, h: CallHistory)
    requires
        h.first is Some,
        h.fresh is Some,
        h.second is Some,
    ensures
        call_step(call, session, h) is Done || call_step(call, session, h) is Failed,
{
}

/// A login takes two requests: once they are answered there is nothing left to
/// send, whatever the answers are.
pub proof fn login_ends(
    addr: Seq<char>,
    client_id: Seq<char>,
    pem: Seq<char>,
    replies: Seq<Sent>,
    step: AuthStep,
)
    requires
        replies.len() >= 2,
        auth_step(addr, client_id, pem, replies, step),
    ensures
        step is Done || step is Failed,
{
}

/// A session is opened only by a reply that tells of success and sets the
/// credentials, and it is a session with the address that was asked.
pub proof fn sessions_hold_the_cookie(addr: Seq<char>, reply: Sent)
    requires
        session_in(addr, reply) is Ok,
    ensures
        session_in(addr, reply)->Ok_0.addr == addr,
        reply matches Ok(r) && is_success(r.code) && cookie_of(texts(r.cookies@)) == Some(
            session_in(addr, reply)->Ok_0.cookie,
        ),
{
}

/// A cookie that starts with the credentials gives exactly their value, whatever
/// attributes follow behind a semicolon.
pub proof fn cookie_gives_its_credentials(value: Seq<char>, attributes: Seq<char>)
    requires
        !value.contains(';'),
        value.len() > 0,
        !crate::text::is_space(value.last()),
    ensures
        credentials_in(pieces("Credentials="@ + value, ';')) == Some(value),
        credentials_in(pieces("Credentials="@ + value + seq![';'] + attributes, ';')) == Some(value),
{
    reveal_strlit("Credentials=");
    let name = "Credentials="@;
    let part = name + value;
    assert forall|k: int| 0 <= k < part.len() implies part[k] != ';' by {
        if k < name.len() {
            assert(name[k] != ';');
        } else {
            assert(value[k - name.len()] != ';');
        }
    }
    crate::text::first_piece(part, attributes, ';');
    let none = Seq::<char>::empty();
    assert(part[0] == 'C');
    crate::text::trimming_takes_white_space_off(none, part, none);
    assert(none + part + none =~= part);
    assert(part.take(name.len() as int) =~= name);
    assert(part.skip(name.len() as int) =~= value);
    let some = pieces(part + seq![';'] + attributes, ';');
    assert(some[0] == part);
}

/// The first cookie that sets credentials counts; others before it do not.
pub proof fn first_credentials_count(before: Seq<Seq<char>>, cookie: Seq<char>, after: Seq<Seq<char>>)
    requires
        forall|i: int|
            0 <= i < before.len() ==> credentials_in(pieces(#[trigger] before[i], ';')) is None,
        credentials_in(pieces(cookie, ';')) is Some,
    ensures
        cookie_of(before + seq![cookie] + after) == credentials_in(pieces(cookie, ';')),
    decreases before.len(),
{
    let all = before + seq![cookie] + after;
    if before.len() > 0 {
        assert(all[0] == before[0]);
        assert(all.skip(1) =~= before.skip(1) + seq![cookie] + after);
        first_credentials_count(before.skip(1), cookie, after);
    } else {
        assert(all[0] == cookie);
    }
}

/// A call goes to the device that the session is with, at the endpoint that it
/// names, with the session's cookie and nothing else to wait for.
pub proof fn call_goes_to_its_endpoint(
    call: ApiCallView,
    session: SessionView,
    endpoint: Seq<char>,
    value: JsonView,
    name: Seq<char>,
)
    requires
        !session.addr.contains(':'),
    ensures
        ({
            let request = call.request(session);
            &&& call == ApiCallView::GetJson(endpoint) || call == ApiCallView::GetBytes(endpoint)
                ==> request.method == Method::Get && request.body is Empty
            &&& call == ApiCallView::PostJson(endpoint, value) ==> request.method == Method::Post
                && request.body == RequestBodyView::Json(value)
            &&& call == ApiCallView::PutJson(endpoint, value) ==> request.method == Method::Put
                && request.body == RequestBodyView::Json(value)
            &&& call == ApiCallView::PutFile(endpoint, name) ==> request.method == Method::Put
                && request.body == RequestBodyView::File(name)
            &&& call == ApiCallView::Delete(endpoint) ==> request.method == Method::Delete
                && request.body is Empty
            &&& (call == ApiCallView::GetJson(endpoint) || call == ApiCallView::GetBytes(endpoint)
                || call == ApiCallView::PostJson(endpoint, value) || call == ApiCallView::PutJson(
                endpoint,
                value,
            ) || call == ApiCallView::PutFile(endpoint, name) || call == ApiCallView::Delete(
                endpoint,
            )) ==> request.url == "https://"@ + session.addr + ":8443"@ + endpoint
            &&& request.cookie == Some("Credentials="@ + session.cookie)
        }),
{
}

/// Where the device refuses the credentials (401 or 403), all calls but the upload
/// of a file are made once more after a login at the same address: the same
/// request, with the fresh cookie. No other reply leads to a login.
pub proof fn refused_call_is_repeated_with_fresh_credentials(
    call: ApiCallView,
    session: SessionView,
    h: CallHistory,
    reply: HttpReply,
    fresh: Session,
)
    requires
        h.first == Some(Ok::<HttpReply, String>(reply)),
        fresh.addr@ == session.addr,
    ensures
        call_step(call, session, h) is Refresh ==> reply.code == 401 || reply.code == 403,
        call is PutFile ==> call_step(call, session, h) !is Refresh,
        (reply.code == 401 || reply.code == 403) && !(call is PutFile) && h.fresh is None
            ==> call_step(call, session, h) == CallStepView::Refresh(session.addr),
        (reply.code == 401 || reply.code == 403) && !(call is PutFile) && h.fresh == Some(
            Ok::<Session, RustProviderError>(fresh),
        ) && h.second is None ==> call_step(call, session, h) == CallStepView::Send(
            HttpRequestView {
                cookie: Some("Credentials="@ + fresh.cookie@),
                ..call.request(session)
            },
        ),
{
}

/// What a reply to a call that was not refused stands for: a tree of JSON for a
/// success that is one, and for failures nothing found, a conflict, or the status.
pub proof fn replies_stand_for_results(
    endpoint: Seq<char>,
    message: JsonView,
    session: SessionView,
    h: CallHistory,
    reply: HttpReply,
    text: Seq<char>,
    value: JsonView,
)
    requires
        h.first == Some(Ok::<HttpReply, String>(reply)),
        reply.body matches ReplyBody::Text(body) && body@ == text,
        json_parsed(text) == Ok::<JsonView, Seq<char>>(value),
    ensures
        ({
            let get = call_step(ApiCallView::GetJson(endpoint), session, h);
            let post = call_step(ApiCallView::PostJson(endpoint, message), session, h);
            let put = call_step(ApiCallView::PutJson(endpoint, message), session, h);
            let remove = call_step(ApiCallView::Delete(endpoint), session, h);
            &&& 200 <= reply.code <= 299 ==> get == CallStepView::Done(ApiValueView::Json(value))
                && post == CallStepView::Done(ApiValueView::Json(value)) && remove
                == CallStepView::Done(ApiValueView::Nothing)
            &&& 200 <= reply.code <= 299 && trimmed(text).len() > 0 ==> put == CallStepView::Done(
                ApiValueView::Json(value),
            )
            &&& reply.code == 404 ==> get == CallStepView::Failed(ErrorView::DeviceNotFound) && post
                == get && remove == get
            &&& reply.code == 409 ==> get == CallStepView::Failed(ErrorView::ConflictDetected)
                && post == get && remove == get
            &&& reply.code == 500 ==> get == CallStepView::Failed(
                ErrorView::Internal("http error: "@ + reply.status@),
            ) && post == get && remove == get && put is Failed
        }),
{
}

/// Bytes that are got are those of the reply.
pub proof fn bytes_are_those_of_the_reply(
    endpoint: Seq<char>,
    session: SessionView,
    h: CallHistory,
    reply: HttpReply,
    data: Seq<u8>,
)
    requires
        h.first == Some(Ok::<HttpReply, String>(reply)),
        reply.body matches ReplyBody::Bytes(body) && body@ == data,
    ensures
        200 <= reply.code <= 299 ==> call_step(ApiCallView::GetBytes(endpoint), session, h)
            == CallStepView::Done(ApiValueView::Bytes(data)),
        reply.code == 404 || reply.code == 500 ==> call_step(
            ApiCallView::GetBytes(endpoint),
            session,
            h,
        ) is Failed,
{
}

/// A login names the client and carries a signature, by its private key, of the
/// nonce that the device gave; the reply's credentials are the session's.
pub proof fn login_signs_the_nonce_it_was_given(
    addr: Seq<char>,
    client_id: Seq<char>,
    pem: Seq<char>,
    reply: HttpReply,
    text: Seq<char>,
    nonce: Seq<char>,
    request: HttpRequest,
)
    requires
        !addr.contains(':'),
        200 <= reply.code <= 299,
        reply.body matches ReplyBody::Text(body) && body@ == text,
        json_parsed(text) matches Ok(value) && value.text_at("nonce"@) == Some(nonce),
        auth_step(
            addr,
            client_id,
            pem,
            seq![Ok::<HttpReply, String>(reply)],
            AuthStep::Send(request),
        ),
    ensures
        request.deep_view().method == Method::Put,
        request.deep_view().url == "https://"@ + addr + ":8443"@ + "/auth"@,
        request.deep_view().cookie is None,
        request.deep_view().body matches RequestBodyView::Json(message) && message.text_at(
            "client_id"@,
        ) == Some(client_id) && (message.text_at("nonce_signed"@) matches Some(answer) && exists|
            signature: Seq<u8>|
            #[trigger] crate::crypto::signature_of(
                pem,
                vstd::utf8::encode_utf8(nonce),
                signature,
            ) && answer == crate::bytes::base64(signature)),
{
    reveal_strlit("client_id");
    reveal_strlit("nonce_signed");
    assert("client_id"@.len() != "nonce_signed"@.len());
}

/// A login starts by asking the device, without credentials, for a nonce for the client.
pub proof fn login_starts_with_a_nonce(
    addr: Seq<char>,
    client_id: Seq<char>,
    pem: Seq<char>,
    step: AuthStep,
)
    requires
        !addr.contains(':'),
        auth_step(addr, client_id, pem, Seq::empty(), step),
    ensures
        step matches AuthStep::Send(request) && request.deep_view().method == Method::Get
            && request.deep_view().url == "https://"@ + addr + ":8443"@ + "/auth/nonce/"@
            + client_id && request.deep_view().cookie is None,
{
    assert("https://"@ + addr + ":8443"@ + ("/auth/nonce/"@ + client_id) =~= "https://"@ + addr
        + ":8443"@ + "/auth/nonce/"@ + client_id);
}

/// A login that the device takes opens a session with its first credentials; one
/// that it does not take fails.
pub proof fn taken_login_opens_the_session(
    addr: Seq<char>,
    client_id: Seq<char>,
    pem: Seq<char>,
    first: Sent,
    reply: HttpReply,
    step: AuthStep,
    cookie: Seq<char>,
)
    requires
        auth_step(addr, client_id, pem, seq![first, Ok::<HttpReply, String>(reply)], step),
        reply.body is Text,
        cookie_of(texts(reply.cookies@)) == Some(cookie),
    ensures
        200 <= reply.code <= 299 ==> (step matches AuthStep::Done(session) && session.addr@ == addr
            && session.cookie@ == cookie),
        400 <= reply.code <= 599 ==> step is Failed,
        reply.code == 404 ==> (step matches AuthStep::Failed(e) && e.deep_view()
            == ErrorView::DeviceNotFound),
{
}

} // verus!
