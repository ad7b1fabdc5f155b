use digital_paper::errors::RustProviderError;
use digital_paper::http::{base_url, HttpReply, Method, ReplyBody, RequestBody, Sent};
use digital_paper::session::{
    authenticate_session, authenticate_session_once, call_with_retry,
    extract_credentials_cookie_from_headers, parse_credentials_cookie, ApiCall, ApiValue, AuthStep,
    CallHistory, CallStep, Session,
};
use serde_json::Value;

fn reply(code: u16, status: &str, body: &str) -> Sent {
    Ok(HttpReply {
        code,
        status: status.to_string(),
        headers: "{h}".to_string(),
        cookies: Vec::new(),
        body: ReplyBody::Text(body.to_string()),
    })
}

fn unread(code: u16) -> Sent {
    Ok(HttpReply {
        code,
        status: "200 OK".to_string(),
        headers: String::new(),
        cookies: Vec::new(),
        body: ReplyBody::Unread("cut".to_string()),
    })
}

fn internal(e: RustProviderError) -> String {
    match e {
        RustProviderError::Internal(message) => message,
        other => panic!("{:?}", other),
    }
}

fn session() -> Session {
    Session {
        addr: "1.2.3.4".to_string(),
        cookie: "c0".to_string(),
    }
}

fn fresh() -> Session {
    Session {
        addr: "1.2.3.4".to_string(),
        cookie: "c1".to_string(),
    }
}

fn history(first: Sent) -> CallHistory {
    CallHistory {
        first: Some(first),
        fresh: None,
        second: None,
    }
}

#[test]
fn base_urls_get_the_default_port() {
    assert_eq!(base_url("digitalpaper.local"), "https://digitalpaper.local:8443");
    assert_eq!(base_url("10.0.0.1:9000"), "https://10.0.0.1:9000");
    assert_eq!(base_url("[fe80::1]"), "https://[fe80::1]:8443");
    assert_eq!(base_url(""), "https://:8443");
}

#[test]
fn cookies_are_searched_in_order() {
    assert_eq!(parse_credentials_cookie("Path=/; Credentials=x=y "), Some("x=y".to_string()));
    assert_eq!(parse_credentials_cookie("Path=/"), None);
    assert_eq!(parse_credentials_cookie("credentials=x"), None);
    let cookies = vec![
        "a=b".to_string(),
        "Credentials=one".to_string(),
        "Credentials=two".to_string(),
    ];
    assert_eq!(
        extract_credentials_cookie_from_headers(&cookies),
        Some("one".to_string())
    );
    assert_eq!(extract_credentials_cookie_from_headers(&vec![]), None);
}

#[test]
fn a_login_signs_the_nonce() {
    let rsa = openssl::rsa::Rsa::generate(1024).unwrap();
    let pem = String::from_utf8(rsa.private_key_to_pem().unwrap()).unwrap();
    let request = match authenticate_session_once("h", "me", &pem, &vec![]) {
        AuthStep::Send(request) => request,
        _ => panic!("nothing sent"),
    };
    assert_eq!(request.method, Method::Get);
    assert_eq!(request.url, "https://h:8443/auth/nonce/me");
    assert_eq!(request.cookie, None);
    let first = || reply(200, "200 OK", "{\"nonce\":\"abc\"}");
    let request = match authenticate_session_once("h", "me", &pem, &vec![first()]) {
        AuthStep::Send(request) => request,
        _ => panic!("nothing sent"),
    };
    assert_eq!(request.method, Method::Put);
    assert_eq!(request.url, "https://h:8443/auth");
    match &request.body {
        RequestBody::Json(value) => {
            assert_eq!(value.get("client_id"), Some(&Value::from("me")));
            assert_eq!(
                value.get("nonce_signed").and_then(Value::as_str),
                Some(
                    digital_paper::crypto::sign_nonce_rsa_sha256_base64(&pem, "abc")
                        .unwrap()
                        .as_str()
                )
            );
        }
        _ => panic!("no json"),
    }
    let mut second = reply(200, "200 OK", "");
    if let Ok(reply) = second.as_mut() {
        reply.cookies.push("Credentials=zz; Secure".to_string());
    }
    match authenticate_session_once("h", "me", &pem, &vec![first(), second]) {
        AuthStep::Done(session) => {
            assert_eq!(session.addr, "h");
            assert_eq!(session.cookie, "zz");
        }
        _ => panic!("no session"),
    }
}

fn login_failure(replies: Vec<Sent>) -> RustProviderError {
    match authenticate_session_once("h", "me", "no key", &replies) {
        AuthStep::Failed(e) => e,
        _ => panic!("no failure"),
    }
}

#[test]
fn failed_logins_are_told() {
    let none = || Err("down".to_string());
    assert_eq!(internal(login_failure(vec![none()])), "nonce request failed: down");
    assert_eq!(internal(login_failure(vec![unread(200)])), "nonce read failed: cut");
    assert_eq!(
        internal(login_failure(vec![reply(500, "500 X", "b")])),
        "nonce http error: status=500 X body=b"
    );
    let message = internal(login_failure(vec![reply(200, "200 OK", "b")]));
    assert!(message.starts_with("parse nonce failed: expected value"), "{}", message);
    assert!(message.ends_with("; body=b"));
    assert_eq!(internal(login_failure(vec![reply(200, "200 OK", "{}")])), "missing nonce");
    assert!(internal(login_failure(vec![reply(200, "200 OK", "{\"nonce\":\"n\"}")]))
        .starts_with("private key parse failed: "));
    let first = || reply(200, "200 OK", "{}");
    assert_eq!(internal(login_failure(vec![first(), none()])), "auth request failed: down");
    assert_eq!(
        internal(login_failure(vec![first(), unread(200)])),
        "auth response read failed: cut"
    );
    assert_eq!(
        internal(login_failure(vec![first(), reply(401, "401 No", "b")])),
        "auth http error: status=401 No headers={h} body=b"
    );
    assert!(matches!(
        login_failure(vec![first(), reply(404, "404", "")]),
        RustProviderError::DeviceNotFound
    ));
    assert!(matches!(
        login_failure(vec![first(), reply(409, "409", "")]),
        RustProviderError::ConflictDetected
    ));
    assert_eq!(
        internal(login_failure(vec![first(), reply(204, "204", "b")])),
        "auth succeeded without credentials cookie; headers={h}; body=b"
    );
}

#[test]
fn logins_are_tried_at_most_three_times() {
    assert!(authenticate_session(1, &RustProviderError::AuthFailed));
    assert!(authenticate_session(2, &RustProviderError::Internal(String::new())));
    assert!(!authenticate_session(3, &RustProviderError::AuthFailed));
    assert!(!authenticate_session(1, &RustProviderError::DeviceNotFound));
}

#[test]
fn calls_carry_the_credentials() {
    let call = ApiCall::GetJson("/x".to_string());
    let none = CallHistory {
        first: None,
        fresh: None,
        second: None,
    };
    match call_with_retry(&call, &session(), &none) {
        CallStep::Send(request) => {
            assert_eq!(request.method, Method::Get);
            assert_eq!(request.url, "https://1.2.3.4:8443/x");
            assert_eq!(request.cookie, Some("Credentials=c0".to_string()));
            assert!(matches!(request.body, RequestBody::Empty));
            assert_eq!(request.pause_ms, 0);
        }
        _ => panic!("nothing sent"),
    }
}

#[test]
fn refused_calls_are_made_again_once() {
    for code in [401, 403] {
        let call = ApiCall::Delete("/x".to_string());
        let mut h = history(reply(code, "no", ""));
        match call_with_retry(&call, &session(), &h) {
            CallStep::Refresh(addr) => assert_eq!(addr, "1.2.3.4"),
            _ => panic!("no refresh"),
        }
        h.fresh = Some(Ok(fresh()));
        match call_with_retry(&call, &session(), &h) {
            CallStep::Send(request) => {
                assert_eq!(request.method, Method::Delete);
                assert_eq!(request.cookie, Some("Credentials=c1".to_string()));
            }
            _ => panic!("nothing sent"),
        }
        h.second = Some(reply(code, "no", ""));
        assert!(matches!(
            call_with_retry(&call, &session(), &h),
            CallStep::Failed(RustProviderError::AuthFailed)
        ));
        h.second = Some(reply(204, "204", ""));
        assert!(matches!(
            call_with_retry(&call, &session(), &h),
            CallStep::Done(ApiValue::Nothing)
        ));
        h.fresh = Some(Err(RustProviderError::PairingRequired));
        assert!(matches!(
            call_with_retry(&call, &session(), &h),
            CallStep::Failed(RustProviderError::PairingRequired)
        ));
    }
    let upload = ApiCall::PutFile("/f".to_string(), "n".to_string());
    assert!(matches!(
        call_with_retry(&upload, &session(), &history(reply(401, "no", ""))),
        CallStep::Failed(RustProviderError::AuthFailed)
    ));
}

fn failure(call: ApiCall, sent: Sent) -> RustProviderError {
    match call_with_retry(&call, &session(), &history(sent)) {
        CallStep::Failed(e) => e,
        _ => panic!("no failure"),
    }
}

fn value(call: ApiCall, sent: Sent) -> ApiValue {
    match call_with_retry(&call, &session(), &history(sent)) {
        CallStep::Done(value) => value,
        CallStep::Failed(e) => panic!("{}", e.text()),
        _ => panic!("not done"),
    }
}

fn get() -> ApiCall {
    ApiCall::GetJson("/g".to_string())
}

fn put() -> ApiCall {
    let mut map = serde_json::Map::new();
    map.insert("value".to_string(), Value::from("on"));
    ApiCall::PutJson("/p".to_string(), Value::Object(map))
}

fn bytes() -> ApiCall {
    ApiCall::GetBytes("/b".to_string())
}

#[test]
fn replies_to_json_calls() {
    assert!(matches!(
        failure(get(), Err("down".to_string())),
        RustProviderError::TransportUnreachable
    ));
    assert!(matches!(
        failure(get(), reply(404, "404 Not Found", "")),
        RustProviderError::DeviceNotFound
    ));
    assert!(matches!(
        failure(get(), reply(409, "409 Conflict", "")),
        RustProviderError::ConflictDetected
    ));
    assert_eq!(
        internal(failure(get(), reply(500, "500 Internal Server Error", ""))),
        "http error: 500 Internal Server Error"
    );
    assert_eq!(
        internal(failure(get(), reply(200, "200 OK", "{"))),
        "json decode failed: error decoding response body"
    );
    assert_eq!(internal(failure(get(), unread(200))), "json decode failed: cut");
    match value(get(), reply(302, "302 Found", "[1]")) {
        ApiValue::Json(v) => assert_eq!(v.to_string(), "[1]"),
        _ => panic!("no json"),
    }
    let invalid = Ok(HttpReply {
        code: 200,
        status: String::new(),
        headers: String::new(),
        cookies: Vec::new(),
        body: ReplyBody::Bytes(vec![b'"', 0xff, b'"']),
    });
    assert_eq!(
        internal(failure(get(), invalid)),
        "json decode failed: error decoding response body"
    );
}

#[test]
fn replies_to_put_calls() {
    assert_eq!(
        internal(failure(put(), Err("down".to_string()))),
        "put request failed: down"
    );
    assert_eq!(internal(failure(put(), unread(200))), "put response read failed: cut");
    assert_eq!(
        internal(failure(put(), reply(404, "404 Not Found", "b"))),
        "put http error: endpoint=/p status=404 Not Found payload={\"value\":\"on\"} body=b"
    );
    match value(put(), reply(200, "200 OK", " \n")) {
        ApiValue::Json(v) => assert_eq!(v.to_string(), "{}"),
        _ => panic!("no json"),
    }
    match value(put(), reply(200, "200 OK", "{\"b\":1,\"a\":[true,null,\"\\u0007\"]}")) {
        ApiValue::Json(v) => assert_eq!(v.to_string(), "{\"a\":[true,null,\"\\u0007\"],\"b\":1}"),
        _ => panic!("no json"),
    }
    assert_eq!(
        internal(failure(put(), reply(200, "200 OK", "nope"))),
        "json decode failed: body=nope"
    );
}

#[test]
fn replies_to_byte_calls() {
    assert_eq!(
        internal(failure(bytes(), Err("down".to_string()))),
        "bytes request failed: down"
    );
    assert_eq!(internal(failure(bytes(), unread(200))), "bytes decode failed: cut");
    let raw = |code| {
        Ok(HttpReply {
            code,
            status: "S".to_string(),
            headers: "H".to_string(),
            cookies: Vec::new(),
            body: ReplyBody::Bytes(vec![b'a', 0xff]),
        })
    };
    assert_eq!(
        internal(failure(bytes(), raw(500))),
        "bytes http error: endpoint=/b status=S headers=H body=a\u{fffd}"
    );
    match value(bytes(), raw(200)) {
        ApiValue::Bytes(data) => assert_eq!(data, vec![b'a', 0xff]),
        _ => panic!("no bytes"),
    }
    match value(bytes(), reply(200, "200 OK", "é")) {
        ApiValue::Bytes(data) => assert_eq!(data, "é".as_bytes().to_vec()),
        _ => panic!("no bytes"),
    }
}

#[test]
fn file_uploads_name_the_file() {
    let call = ApiCall::PutFile("/f".to_string(), "n.pdf".to_string());
    let request = call.request(&session());
    assert_eq!(request.method, Method::Put);
    match request.body {
        RequestBody::File(name) => assert_eq!(name, "n.pdf"),
        _ => panic!("no file"),
    }
    assert!(matches!(value(call, reply(200, "200 OK", "")), ApiValue::Nothing));
}
