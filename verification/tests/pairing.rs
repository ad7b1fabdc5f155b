use digital_paper::bytes::{b64, decode_base64_bytes, to_fixed_len};
use digital_paper::crypto::{
    derive_pairing_keys, dh_public, dh_shared, hmac_sha256, unwrap, wrap,
};
use digital_paper::errors::RustProviderError;
use digital_paper::http::{HttpReply, HttpRequest, Method, ReplyBody, RequestBody, Sent};
use digital_paper::pairing::{
    begin_pair_for_addr, begin_pair_with_retry, finish_pairing, fresh_credentials,
    fresh_pairing_secrets, pair_begin_retryable, valid_pin, Attempt, Credentials, FinishDraws,
    FinishStep, PairStep, PendingPairing,
};
use serde_json::Value;

fn reply(code: u16, status: &str, body: &str) -> Sent {
    Ok(HttpReply {
        code,
        status: status.to_string(),
        headers: "{}".to_string(),
        cookies: Vec::new(),
        body: ReplyBody::Text(body.to_string()),
    })
}

fn ok(body: &Value) -> Sent {
    reply(200, "200 OK", &body.to_string())
}

fn object(fields: &[(&str, &[u8])]) -> Value {
    let mut map = serde_json::Map::new();
    for (key, data) in fields {
        map.insert((*key).to_string(), Value::from(b64(data)));
    }
    Value::Object(map)
}

fn body(request: &HttpRequest) -> &Value {
    match &request.body {
        RequestBody::Json(value) => value,
        _ => panic!("no json"),
    }
}

fn field(value: &Value, key: &str) -> Vec<u8> {
    decode_base64_bytes(value.get(key).unwrap().as_str().unwrap()).unwrap()
}

struct Device {
    pin: String,
    n1: Vec<u8>,
    mac: Vec<u8>,
    secret: Vec<u8>,
    es: Vec<u8>,
    n2: Vec<u8>,
    ya: Vec<u8>,
    auth_key: Vec<u8>,
    key_wrap_key: Vec<u8>,
    e_hash: Vec<u8>,
    m3hmac: Vec<u8>,
    stored: Option<Vec<u8>>,
}

impl Device {
    fn new(pin: &str) -> Device {
        Device {
            pin: pin.to_string(),
            n1: vec![11; 16],
            mac: vec![1, 2, 3, 4, 5, 6],
            secret: vec![77; 32],
            es: vec![42; 16],
            n2: Vec::new(),
            ya: Vec::new(),
            auth_key: Vec::new(),
            key_wrap_key: Vec::new(),
            e_hash: Vec::new(),
            m3hmac: Vec::new(),
            stored: None,
        }
    }

    fn hmac(&self, parts: &[&[u8]]) -> Vec<u8> {
        hmac_sha256(&self.auth_key, &parts.to_vec())
    }

    fn yb(&self) -> Vec<u8> {
        to_fixed_len(&dh_public(&self.secret), 256)
    }

    fn first_message(&self) -> Value {
        object(&[("a", &self.n1), ("b", &self.mac), ("c", &dh_public(&self.secret))])
    }

    fn second_message(&mut self, m2: &Value) -> Value {
        self.n2 = field(m2, "b");
        self.ya = field(m2, "d");
        let shared = dh_shared(&self.ya, &self.secret);
        let mut salt = self.n1.clone();
        salt.extend_from_slice(&self.mac);
        salt.extend_from_slice(&self.n2);
        let keys = derive_pairing_keys(&shared, &salt);
        self.auth_key = keys.0;
        self.key_wrap_key = keys.1;
        let m2hmac = self.hmac(&[
            &self.n1, &self.mac, &self.yb(), &self.n1, &self.n2, &self.mac, &self.ya,
        ]);
        assert_eq!(field(m2, "a"), self.n1);
        assert_eq!(field(m2, "c"), self.mac);
        assert_eq!(field(m2, "e"), m2hmac);
        let psk = self.hmac(&[self.pin.as_bytes()]);
        self.e_hash = self.hmac(&[&self.es, &psk, &self.yb(), &self.ya]);
        self.m3hmac = self.hmac(&[
            &self.n1, &self.n2, &self.mac, &self.ya, &m2hmac, &self.n2, &self.e_hash,
        ]);
        object(&[("a", &self.n2), ("b", &self.e_hash), ("e", &self.m3hmac)])
    }

    fn third_message(&self, m4: &Value) -> Value {
        let psk = self.hmac(&[self.pin.as_bytes()]);
        let r_hash = field(m4, "b");
        let wrapped_rs = field(m4, "d");
        let m4hmac = field(m4, "e");
        let rs = unwrap(&wrapped_rs, &self.auth_key, &self.key_wrap_key).unwrap();
        assert_eq!(r_hash, self.hmac(&[&rs, &psk, &self.yb(), &self.ya]));
        assert_eq!(
            m4hmac,
            self.hmac(&[&self.n2, &self.e_hash, &self.m3hmac, &self.n1, &r_hash, &wrapped_rs])
        );
        let mut es_cert = self.es.clone();
        es_cert.extend_from_slice(b"certificate");
        let wrapped = wrap(&es_cert, &self.auth_key, &self.key_wrap_key).unwrap();
        let m5hmac = self.hmac(&[&self.n1, &r_hash, &wrapped_rs, &m4hmac, &self.n2, &wrapped]);
        object(&[("a", &self.n2), ("d", &wrapped), ("e", &m5hmac)])
    }

    fn register(&mut self, m6: &Value) {
        let data = unwrap(&field(m6, "d"), &self.auth_key, &self.key_wrap_key).unwrap();
        self.stored = Some(data);
    }
}

fn begin(device: &mut Device) -> PendingPairing {
    let (n2, secret) = fresh_pairing_secrets().unwrap();
    let mut replies: Vec<Sent> = Vec::new();
    let mut urls: Vec<(Method, String, u64)> = Vec::new();
    loop {
        match begin_pair_for_addr("10.0.0.5", &n2, &secret, &replies) {
            PairStep::Send(request) => {
                urls.push((request.method, request.url.clone(), request.pause_ms));
                let next = match urls.len() {
                    1 => Err("refused".to_string()),
                    2 => ok(&device.first_message()),
                    _ => {
                        assert!(request.accept_json);
                        ok(&device.second_message(body(&request)))
                    }
                };
                replies.push(next);
            }
            PairStep::Done(pending) => {
                assert_eq!(
                    urls,
                    vec![
                        (Method::Put, "http://10.0.0.5:8080/register/cleanup".to_string(), 0),
                        (Method::Post, "http://10.0.0.5:8080/register/pin".to_string(), 1000),
                        (Method::Post, "http://10.0.0.5:8080/register/hash".to_string(), 2000),
                    ]
                );
                return pending;
            }
            PairStep::Failed(e) => panic!("{}", e.text()),
        }
    }
}

fn finish(device: &mut Device, pending: &PendingPairing, pin: &str) -> Result<(String, Credentials), RustProviderError> {
    let mut draws = FinishDraws::fresh().unwrap();
    let mut replies: Vec<Sent> = Vec::new();
    let mut asked_for_key = 0;
    loop {
        match finish_pairing(pending, pin, &draws, &replies) {
            FinishStep::Send(request) => {
                let next = match replies.len() {
                    0 => {
                        assert_eq!(request.url, "http://10.0.0.5:8080/register/ca");
                        ok(&device.third_message(body(&request)))
                    }
                    1 => {
                        assert_eq!(request.url, "http://10.0.0.5:8080/register");
                        device.register(body(&request));
                        reply(200, "200 OK", "")
                    }
                    _ => {
                        assert_eq!(request.url, "http://10.0.0.5:8080/register/cleanup");
                        Err("gone".to_string())
                    }
                };
                replies.push(next);
            }
            FinishStep::NeedKey => {
                asked_for_key += 1;
                assert_eq!(asked_for_key, 1);
                draws.key = Some(fresh_credentials().unwrap());
            }
            FinishStep::Done(client_id, private_key) => {
                let key = draws.key.unwrap();
                assert_eq!(private_key, key.private_key);
                return Ok((client_id, key));
            }
            FinishStep::Failed(e) => return Err(e),
        }
    }
}

fn internal(e: RustProviderError) -> String {
    match e {
        RustProviderError::Internal(message) => message,
        other => panic!("{:?}", other),
    }
}

#[test]
fn a_device_that_knows_the_pin_is_paired_with() {
    let mut device = Device::new("12345678");
    let pending = begin(&mut device);
    assert_eq!(pending.addr, "10.0.0.5");
    assert_eq!(pending.n1, device.n1);
    assert_eq!(pending.auth_key, device.auth_key);
    assert_eq!(pending.key_wrap_key, device.key_wrap_key);
    let (client_id, key) = finish(&mut device, &pending, "12345678").unwrap();
    assert_eq!(client_id, key.client_id);
    let mut expected = client_id.into_bytes();
    expected.extend_from_slice(&key.public_key);
    assert_eq!(device.stored, Some(expected));
}

#[test]
fn a_device_with_another_pin_is_refused() {
    let mut device = Device::new("87654321");
    let pending = begin(&mut device);
    let draws = FinishDraws::fresh().unwrap();
    let request = match finish_pairing(&pending, "12345678", &draws, &Vec::new()) {
        FinishStep::Send(request) => request,
        _ => panic!("nothing sent"),
    };
    let m4 = body(&request);
    let mut es_cert = device.es.clone();
    es_cert.push(1);
    let wrapped = wrap(&es_cert, &device.auth_key, &device.key_wrap_key).unwrap();
    let m5hmac = device.hmac(&[
        &device.n1, &field(m4, "b"), &field(m4, "d"), &field(m4, "e"), &device.n2, &wrapped,
    ]);
    let m5 = object(&[("a", &device.n2), ("d", &wrapped), ("e", &m5hmac)]);
    match finish_pairing(&pending, "12345678", &draws, &vec![ok(&m5)]) {
        FinishStep::Failed(e) => {
            assert!(internal(e).starts_with("register/ca e_hash mismatch: expected="));
        }
        _ => panic!("accepted"),
    }
}

#[test]
fn tampered_second_messages_are_refused() {
    let mut device = Device::new("12345678");
    let n2 = vec![5; 16];
    let secret = vec![6; 32];
    let pin_reply = || ok(&Device::new("12345678").first_message());
    let first = vec![Err("x".to_string()), pin_reply()];
    let request = match begin_pair_for_addr("d", &n2, &secret, &first) {
        PairStep::Send(request) => request,
        _ => panic!("nothing sent"),
    };
    let good = device.second_message(body(&request));
    for (key, start) in [
        ("a", "register/hash nonce mismatch: expected_n2="),
        ("b", "register/hash m3 hmac mismatch: expected="),
        ("e", "register/hash m3 hmac mismatch: expected="),
    ] {
        let mut bad = good.clone();
        let mut data = field(&good, key);
        data[0] ^= 1;
        bad[key] = Value::from(b64(&data));
        let replies = vec![Err("x".to_string()), pin_reply(), ok(&bad)];
        match begin_pair_for_addr("d", &n2, &secret, &replies) {
            PairStep::Failed(e) => {
                let message = internal(e);
                assert!(message.starts_with(start), "{}", message);
                assert!(message.ends_with(&format!(" body={}", bad)), "{}", message);
            }
            _ => panic!("accepted"),
        }
    }
    let replies = vec![Err("x".to_string()), pin_reply(), ok(&good)];
    assert!(matches!(
        begin_pair_for_addr("d", &n2, &secret, &replies),
        PairStep::Done(_)
    ));
}

fn begin_failure(replies: Vec<Sent>) -> RustProviderError {
    match begin_pair_for_addr("d", &[5; 16], &[6; 32], &replies) {
        PairStep::Failed(e) => e,
        _ => panic!("no failure"),
    }
}

#[test]
fn failures_of_the_first_steps_are_told() {
    let none = || Err("x".to_string());
    assert!(matches!(
        begin_failure(vec![none(), none()]),
        RustProviderError::TransportUnreachable
    ));
    assert_eq!(
        internal(begin_failure(vec![none(), reply(503, "503 Service Unavailable", "")])),
        "http error: 503 Service Unavailable"
    );
    assert_eq!(
        internal(begin_failure(vec![none(), reply(200, "200 OK", "no json")])),
        "register/pin parse failed: error decoding response body"
    );
    assert_eq!(
        internal(begin_failure(vec![none(), reply(200, "200 OK", "{\"a\":\"\"}")])),
        "missing b"
    );
    let pin = || ok(&Device::new("1").first_message());
    let message = internal(begin_failure(vec![none(), pin(), reply(500, "500 Oops", "why")]));
    assert!(message.starts_with("register/hash http error: status=500 Oops request_n1="));
    assert!(message.contains(" request_ya_len=257 request_body={\"a\":"));
    assert!(message.ends_with(" body=why"));
    assert!(internal(begin_failure(vec![none(), pin(), reply(200, "200 OK", "[")]))
        .starts_with("register/hash parse failed: "));
    let unread = Ok(HttpReply {
        code: 200,
        status: "200 OK".to_string(),
        headers: String::new(),
        cookies: Vec::new(),
        body: ReplyBody::Unread("cut off".to_string()),
    });
    assert_eq!(
        internal(begin_failure(vec![none(), pin(), unread])),
        "register/hash read failed: cut off"
    );
}

#[test]
fn beginning_is_tried_at_most_five_times() {
    let retryable = RustProviderError::TransportUnreachable;
    match begin_pair_with_retry("d", 1, Err(retryable.clone())) {
        Attempt::Again(message, pause) => {
            assert_eq!(
                message,
                "pair begin attempt 1 failed for d: transport unreachable; retrying"
            );
            assert_eq!(pause, 2000);
        }
        _ => panic!("given up"),
    }
    assert!(matches!(
        begin_pair_with_retry("d", 5, Err(retryable)),
        Attempt::Failed(RustProviderError::TransportUnreachable)
    ));
    assert!(matches!(
        begin_pair_with_retry("d", 1, Err(RustProviderError::AuthFailed)),
        Attempt::Failed(RustProviderError::AuthFailed)
    ));
    for text in [
        "http error: 503 Service Unavailable",
        "register/hash http error: status=500",
        "x Application is closed y",
    ] {
        assert!(pair_begin_retryable(&RustProviderError::Internal(text.to_string())));
    }
    assert!(!pair_begin_retryable(&RustProviderError::Internal("other".to_string())));
}

#[test]
fn a_short_certificate_is_refused() {
    let mut device = Device::new("12345678");
    let pending = begin(&mut device);
    let draws = FinishDraws::fresh().unwrap();
    let request = match finish_pairing(&pending, "12345678", &draws, &Vec::new()) {
        FinishStep::Send(request) => request,
        _ => panic!("nothing sent"),
    };
    let m4 = body(&request);
    let wrapped = wrap(&device.es, &device.auth_key, &device.key_wrap_key).unwrap();
    let m5hmac = device.hmac(&[
        &device.n1, &field(m4, "b"), &field(m4, "d"), &field(m4, "e"), &device.n2, &wrapped,
    ]);
    let m5 = object(&[("a", &device.n2), ("d", &wrapped), ("e", &m5hmac)]);
    assert!(matches!(
        finish_pairing(&pending, "12345678", &draws, &vec![ok(&m5)]),
        FinishStep::Failed(RustProviderError::AuthFailed)
    ));
    match finish_pairing(&pending, "12345678", &draws, &vec![reply(400, "400 Bad Request", "no")]) {
        FinishStep::Failed(e) => {
            let message = internal(e);
            assert!(message.starts_with("register/ca http error: status=400 Bad Request request_n1="));
            assert!(message.contains(" request_wrapped_rs_len=48 body=no"), "{}", message);
        }
        _ => panic!("accepted"),
    }
}

#[test]
fn pins_are_eight_digits() {
    assert!(valid_pin("12345678"));
    for pin in ["", "1234567", "123456789", "1234567a", "１２３４５６７８", "12 45678"] {
        assert!(!valid_pin(pin));
    }
}
