//! The pairing protocol: how a device hands out credentials for a PIN.
//!
//! Both sides agree on keys over an unauthenticated key exchange, prove to each
//! other that they know the PIN that the device shows, and the device stores the
//! public key that belongs to the new credentials.
use crate::bytes::{
    b64, base64, base64_bytes, be_bytes, be_value, bytes_outcome, concat, copy_bytes,
    decode_base64_bytes, same_bytes, slice_bytes, slices, to_fixed_len, utf8_text,
};
use crate::crypto::{
    derive_pairing_keys, dh_public, dh_public_bytes, dh_shared, dh_shared_bytes, fresh_bytes,
    generate_key, hmac_sha256, hmac_value, is_random_failure, is_wrap_failure, key_pair,
    pairing_keys, unwrap, unwrapped, uuid_of, uuid_text, wrap_with_iv, wrapped, KeyFailure,
};
use crate::errors::{is_told, outcome, ErrorView, RustProviderError};
use crate::http::{
    is_success, registration_call, registration_post, registration_request, status_failure,
    HttpRequest, HttpRequestView, Method, RequestBodyView, Sent,
};
use crate::json::{
    empty_object, json_parsed, json_text, json_value, no_fields, parse_value, put_text,
    required_text, show_json, value_str, JsonView,
};
use crate::numbers::{decimal, number_text};
use crate::peer::{letters_differ, row_of_5, takes_registration};
use crate::text::{cat2, cat3, cat4, cat5, cat6};
use vstd::prelude::*;
use vstd::string::*;
use vstd::utf8::encode_utf8;

verus! {

/// The bytes of the base64 text in member `key`.
pub open spec fn field_bytes(value: JsonView, key: Seq<char>) -> Result<Seq<u8>, ErrorView> {
    match required_text(value, key) {
        Ok(text) => base64_bytes(text),
        Err(e) => Err(e),
    }
}

/// The bytes of the base64 text in member `key`.
fn read_field(value: &serde_json::Value, key: &str) -> (r: Result<Vec<u8>, RustProviderError>)
    ensures
        bytes_outcome(r) == field_bytes(json_value(*value), key@),
{
    match value_str(value, key) {
        Ok(text) => decode_base64_bytes(text.as_str()),
        Err(e) => Err(e),
    }
}

/// What both sides know after the device's first message.
pub struct Exchange {
    pub n1: Vec<u8>,
    pub mac: Vec<u8>,
    pub n2: Vec<u8>,
    pub yb: Vec<u8>,
    pub ya: Vec<u8>,
    pub auth_key: Vec<u8>,
    pub key_wrap_key: Vec<u8>,
    pub m2hmac: Vec<u8>,
}

/// The content of an [`Exchange`].
#[verifier::ext_equal]
pub struct ExchangeView {
    pub n1: Seq<u8>,
    pub mac: Seq<u8>,
    pub n2: Seq<u8>,
    pub yb: Seq<u8>,
    pub ya: Seq<u8>,
    pub auth_key: Seq<u8>,
    pub key_wrap_key: Seq<u8>,
    pub m2hmac: Seq<u8>,
}

impl DeepView for Exchange {
    type V = ExchangeView;

    open spec fn deep_view(&self) -> ExchangeView {
        ExchangeView {
            n1: self.n1@,
            mac: self.mac@,
            n2: self.n2@,
            yb: self.yb@,
            ya: self.ya@,
            auth_key: self.auth_key@,
            key_wrap_key: self.key_wrap_key@,
            m2hmac: self.m2hmac@,
        }
    }
}

/// The exchange that follows from the device's nonce, its hardware address, its
/// key exchange value, our nonce and our secret.
pub open spec fn exchange_with(
    n1: Seq<u8>,
    mac: Seq<u8>,
    yb_wire: Seq<u8>,
    n2: Seq<u8>,
    secret: Seq<u8>,
) -> ExchangeView {
    let yb = be_bytes(be_value(yb_wire), 256);
    let ya = dh_public_bytes(secret);
    let keys = pairing_keys(dh_shared_bytes(yb_wire, secret), concat(seq![n1, mac, n2]));
    ExchangeView {
        n1,
        mac,
        n2,
        yb,
        ya,
        auth_key: keys.take(32),
        key_wrap_key: keys.skip(32),
        m2hmac: hmac_value(keys.take(32), concat(seq![n1, mac, yb, n1, n2, mac, ya])),
    }
}

/// The exchange that follows from the device's first message.
pub open spec fn exchange_of(m1: JsonView, n2: Seq<u8>, secret: Seq<u8>) -> Result<
    ExchangeView,
    ErrorView,
> {
    match field_bytes(m1, "a"@) {
        Err(e) => Err(e),
        Ok(n1) => match field_bytes(m1, "b"@) {
            Err(e) => Err(e),
            Ok(mac) => match field_bytes(m1, "c"@) {
                Err(e) => Err(e),
                Ok(yb_wire) => Ok(exchange_with(n1, mac, yb_wire, n2, secret)),
            },
        },
    }
}

/// Derives the exchange from the device's first message, our nonce and our secret.
pub fn make_exchange(m1: &serde_json::Value, n2: &[u8], secret: &[u8]) -> (r: Result<
    Exchange,
    RustProviderError,
>)
    ensures
        outcome(r) == exchange_of(json_value(*m1), n2@, secret@),
        r matches Ok(x) ==> x.auth_key@.len() == 32 && x.key_wrap_key@.len() == 16,
{
    let n1 = read_field(m1, "a")?;
    let mac = read_field(m1, "b")?;
    let yb_wire = read_field(m1, "c")?;
    let yb = to_fixed_len(yb_wire.as_slice(), 256);
    let ya = dh_public(secret);
    let shared = dh_shared(yb_wire.as_slice(), secret);
    let salt_parts: Vec<&[u8]> = vec![n1.as_slice(), mac.as_slice(), n2];
    assert(slices(salt_parts@) =~= seq![n1@, mac@, n2@]);
    let salt = crate::bytes::concat_bytes(&salt_parts);
    let (auth_key, key_wrap_key) = derive_pairing_keys(shared.as_slice(), salt.as_slice());
    let parts: Vec<&[u8]> = vec![
        n1.as_slice(),
        mac.as_slice(),
        yb.as_slice(),
        n1.as_slice(),
        n2,
        mac.as_slice(),
        ya.as_slice(),
    ];
    assert(slices(parts@) =~= seq![n1@, mac@, yb@, n1@, n2@, mac@, ya@]);
    let m2hmac = hmac_sha256(auth_key.as_slice(), &parts);
    Ok(Exchange { n1, mac, n2: copy_bytes(n2), yb, ya, auth_key, key_wrap_key, m2hmac })
}

/// Our first message: both nonces, the device's hardware address, our key
/// exchange value, and the proof that we hold the keys.
pub open spec fn hash_message(x: ExchangeView) -> JsonView {
    JsonView::Object(
        no_fields().insert("a"@, JsonView::Text(base64(x.n1))).insert(
            "b"@,
            JsonView::Text(base64(x.n2)),
        ).insert("c"@, JsonView::Text(base64(x.mac))).insert("d"@, JsonView::Text(base64(x.ya))).insert(
            "e"@,
            JsonView::Text(base64(x.m2hmac)),
        ),
    )
}

/// Our first message.
pub fn hash_payload(x: &Exchange) -> (r: serde_json::Value)
    ensures
        json_value(r) == hash_message(x.deep_view()),
{
    let mut m2 = empty_object();
    put_text(&mut m2, "a", b64(x.n1.as_slice()).as_str());
    put_text(&mut m2, "b", b64(x.n2.as_slice()).as_str());
    put_text(&mut m2, "c", b64(x.mac.as_slice()).as_str());
    put_text(&mut m2, "d", b64(x.ya.as_slice()).as_str());
    put_text(&mut m2, "e", b64(x.m2hmac.as_slice()).as_str());
    m2
}

/// A pairing that waits for its PIN.
pub struct PendingPairing {
    pub addr: String,
    pub n1: Vec<u8>,
    pub n2: Vec<u8>,
    pub auth_key: Vec<u8>,
    pub key_wrap_key: Vec<u8>,
    pub yb: Vec<u8>,
    pub ya: Vec<u8>,
    pub e_hash: Vec<u8>,
    pub m3hmac: Vec<u8>,
}

/// The content of a [`PendingPairing`].
#[verifier::ext_equal]
pub struct PendingView {
    pub addr: Seq<char>,
    pub n1: Seq<u8>,
    pub n2: Seq<u8>,
    pub auth_key: Seq<u8>,
    pub key_wrap_key: Seq<u8>,
    pub yb: Seq<u8>,
    pub ya: Seq<u8>,
    pub e_hash: Seq<u8>,
    pub m3hmac: Seq<u8>,
}

impl DeepView for PendingPairing {
    type V = PendingView;

    open spec fn deep_view(&self) -> PendingView {
        PendingView {
            addr: self.addr@,
            n1: self.n1@,
            n2: self.n2@,
            auth_key: self.auth_key@,
            key_wrap_key: self.key_wrap_key@,
            yb: self.yb@,
            ya: self.ya@,
            e_hash: self.e_hash@,
            m3hmac: self.m3hmac@,
        }
    }
}

impl Clone for PendingPairing {
    fn clone(&self) -> (r: Self)
        ensures
            r.deep_view() == self.deep_view(),
    {
        PendingPairing {
            addr: self.addr.as_str().to_owned(),
            n1: copy_bytes(self.n1.as_slice()),
            n2: copy_bytes(self.n2.as_slice()),
            auth_key: copy_bytes(self.auth_key.as_slice()),
            key_wrap_key: copy_bytes(self.key_wrap_key.as_slice()),
            yb: copy_bytes(self.yb.as_slice()),
            ya: copy_bytes(self.ya.as_slice()),
            e_hash: copy_bytes(self.e_hash.as_slice()),
            m3hmac: copy_bytes(self.m3hmac.as_slice()),
        }
    }
}

/// The proof that the device holds the keys too.
pub open spec fn expected_m3hmac(x: ExchangeView, e_hash: Seq<u8>) -> Seq<u8> {
    hmac_value(x.auth_key, concat(seq![x.n1, x.n2, x.mac, x.ya, x.m2hmac, x.n2, e_hash]))
}

/// The pairing that follows from the device's second message: it must repeat our
/// nonce and prove that the device holds the keys.
pub open spec fn pending_of(addr: Seq<char>, x: ExchangeView, m3: JsonView) -> Result<
    PendingView,
    ErrorView,
> {
    match field_bytes(m3, "a"@) {
        Err(e) => Err(e),
        Ok(nonce) => if nonce != x.n2 {
            Err(
                ErrorView::Internal(
                    "register/hash nonce mismatch: expected_n2="@ + base64(x.n2) + " got_a="@
                        + base64(nonce) + " body="@ + json_text(m3),
                ),
            )
        } else {
            match field_bytes(m3, "b"@) {
                Err(e) => Err(e),
                Ok(e_hash) => match field_bytes(m3, "e"@) {
                    Err(e) => Err(e),
                    Ok(m3hmac) => if m3hmac != expected_m3hmac(x, e_hash) {
                        Err(
                            ErrorView::Internal(
                                "register/hash m3 hmac mismatch: expected="@ + base64(
                                    expected_m3hmac(x, e_hash),
                                ) + " got="@ + base64(m3hmac) + " body="@ + json_text(m3),
                            ),
                        )
                    } else {
                        Ok(
                            PendingView {
                                addr,
                                n1: x.n1,
                                n2: x.n2,
                                auth_key: x.auth_key,
                                key_wrap_key: x.key_wrap_key,
                                yb: x.yb,
                                ya: x.ya,
                                e_hash,
                                m3hmac,
                            },
                        )
                    },
                },
            }
        },
    }
}

/// Checks the device's second message.
pub fn accept_hash(addr: &str, x: &Exchange, m3: &serde_json::Value) -> (r: Result<
    PendingPairing,
    RustProviderError,
>)
    ensures
        outcome(r) == pending_of(addr@, x.deep_view(), json_value(*m3)),
{
    let nonce = read_field(m3, "a")?;
    if !same_bytes(nonce.as_slice(), x.n2.as_slice()) {
        return Err(
            RustProviderError::Internal(
                cat6(
                    "register/hash nonce mismatch: expected_n2=",
                    b64(x.n2.as_slice()).as_str(),
                    " got_a=",
                    b64(nonce.as_slice()).as_str(),
                    " body=",
                    show_json(m3).as_str(),
                ),
            ),
        );
    }
    let e_hash = read_field(m3, "b")?;
    let m3hmac = read_field(m3, "e")?;
    let parts: Vec<&[u8]> = vec![
        x.n1.as_slice(),
        x.n2.as_slice(),
        x.mac.as_slice(),
        x.ya.as_slice(),
        x.m2hmac.as_slice(),
        x.n2.as_slice(),
        e_hash.as_slice(),
    ];
    assert(slices(parts@) =~= seq![x.n1@, x.n2@, x.mac@, x.ya@, x.m2hmac@, x.n2@, e_hash@]);
    let expected = hmac_sha256(x.auth_key.as_slice(), &parts);
    if !same_bytes(m3hmac.as_slice(), expected.as_slice()) {
        return Err(
            RustProviderError::Internal(
                cat6(
                    "register/hash m3 hmac mismatch: expected=",
                    b64(expected.as_slice()).as_str(),
                    " got=",
                    b64(m3hmac.as_slice()).as_str(),
                    " body=",
                    show_json(m3).as_str(),
                ),
            ),
        );
    }
    Ok(
        PendingPairing {
            addr: addr.to_owned(),
            n1: copy_bytes(x.n1.as_slice()),
            n2: copy_bytes(x.n2.as_slice()),
            auth_key: copy_bytes(x.auth_key.as_slice()),
            key_wrap_key: copy_bytes(x.key_wrap_key.as_slice()),
            yb: copy_bytes(x.yb.as_slice()),
            ya: copy_bytes(x.ya.as_slice()),
            e_hash,
            m3hmac,
        },
    )
}

/// Whether a second message repeats our nonce and carries the HMAC of the
/// exchange under the shared key.
pub open spec fn hash_is_proved(x: ExchangeView, m3: JsonView) -> bool {
    &&& field_bytes(m3, "a"@) == Ok::<Seq<u8>, ErrorView>(x.n2)
    &&& field_bytes(m3, "b"@) is Ok
    &&& field_bytes(m3, "e"@) == Ok::<Seq<u8>, ErrorView>(
        expected_m3hmac(x, field_bytes(m3, "b"@)->Ok_0),
    )
}

/// A second message is accepted exactly when it is proved.
pub proof fn hash_accepted_iff_proved(addr: Seq<char>, x: ExchangeView, m3: JsonView)
    ensures
        pending_of(addr, x, m3) is Ok <==> hash_is_proved(x, m3),
{
}

/// What the device's reply to the request for a PIN holds.
pub open spec fn pin_message(reply: Sent) -> Result<JsonView, ErrorView> {
    match reply {
        Err(_) => Err(ErrorView::TransportUnreachable),
        Ok(reply) => match status_failure(reply.code, reply.status@) {
            Some(e) => Err(e),
            None => match reply.body.as_json() {
                Ok(value) => Ok(value),
                Err(e) => Err(ErrorView::Internal("register/pin parse failed: "@ + e)),
            },
        },
    }
}

/// Reads the device's reply to the request for a PIN.
pub fn read_pin_reply(reply: &Sent) -> (r: Result<serde_json::Value, RustProviderError>)
    ensures
        crate::json::json_outcome(r) == pin_message(*reply),
{
    match reply {
        Err(_) => Err(RustProviderError::TransportUnreachable),
        Ok(reply) => match reply.failure() {
            Some(e) => Err(e),
            None => match reply.body.json() {
                Ok(value) => Ok(value),
                Err(e) => Err(
                    RustProviderError::Internal(cat2("register/pin parse failed: ", e.as_str())),
                ),
            },
        },
    }
}

/// What the device's reply to a message of a registration step holds. `step`
/// names the step and `sent` tells what was sent, for the failure's text.
pub open spec fn step_message(step: Seq<char>, sent: Seq<char>, reply: Sent) -> Result<
    JsonView,
    ErrorView,
> {
    match step_text(step, sent, reply) {
        Err(e) => Err(e),
        Ok(text) => match json_parsed(text) {
            Ok(value) => Ok(value),
            Err(e) => Err(
                ErrorView::Internal(step + " parse failed: "@ + e + "; body="@ + text),
            ),
        },
    }
}

/// The text of the device's reply to a message of a registration step.
pub open spec fn step_text(step: Seq<char>, sent: Seq<char>, reply: Sent) -> Result<
    Seq<char>,
    ErrorView,
> {
    match reply {
        Err(_) => Err(ErrorView::TransportUnreachable),
        Ok(reply) => match reply.body.as_text() {
            Err(e) => Err(ErrorView::Internal(step + " read failed: "@ + e)),
            Ok(text) => if is_success(reply.code) {
                Ok(text)
            } else {
                Err(
                    ErrorView::Internal(
                        step + " http error: status="@ + reply.status@ + sent + " body="@ + text,
                    ),
                )
            },
        },
    }
}

/// Reads the text of the device's reply to a message of a registration step.
fn read_step_text(step: &str, sent: &str, reply: &Sent) -> (r: Result<String, RustProviderError>)
    ensures
        outcome(r) == step_text(step@, sent@, *reply),
{
    match reply {
        Err(_) => Err(RustProviderError::TransportUnreachable),
        Ok(reply) => match reply.body.text() {
            Err(e) => Err(RustProviderError::Internal(cat3(step, " read failed: ", e.as_str()))),
            Ok(text) => if reply.success() {
                Ok(text)
            } else {
                Err(
                    RustProviderError::Internal(
                        cat6(
                            step,
                            " http error: status=",
                            reply.status.as_str(),
                            sent,
                            " body=",
                            text.as_str(),
                        ),
                    ),
                )
            },
        },
    }
}

/// Reads the device's reply to a message of a registration step.
fn read_step(step: &str, sent: &str, reply: &Sent) -> (r: Result<
    serde_json::Value,
    RustProviderError,
>)
    ensures
        crate::json::json_outcome(r) == step_message(step@, sent@, *reply),
{
    match read_step_text(step, sent, reply) {
        Err(e) => Err(e),
        Ok(text) => match parse_value(text.as_str()) {
            Ok(value) => Ok(value),
            Err(e) => Err(
                RustProviderError::Internal(
                    cat5(step, " parse failed: ", e.as_str(), "; body=", text.as_str()),
                ),
            ),
        },
    }
}

/// What the failure of the second step tells of our first message.
pub open spec fn hash_sent(x: ExchangeView) -> Seq<char> {
    " request_n1="@ + base64(x.n1) + " request_n2="@ + base64(x.n2) + " request_mac="@ + base64(
        x.mac,
    ) + " request_ya_len="@ + decimal(x.ya.len()) + " request_body="@ + json_text(hash_message(x))
}

fn show_hash_sent(x: &Exchange, payload: &serde_json::Value) -> (r: String)
    requires
        json_value(*payload) == hash_message(x.deep_view()),
    ensures
        r@ == hash_sent(x.deep_view()),
{
    let first = cat6(
        " request_n1=",
        b64(x.n1.as_slice()).as_str(),
        " request_n2=",
        b64(x.n2.as_slice()).as_str(),
        " request_mac=",
        b64(x.mac.as_slice()).as_str(),
    );
    cat5(
        first.as_str(),
        " request_ya_len=",
        number_text(x.ya.len() as u64).as_str(),
        " request_body=",
        show_json(payload).as_str(),
    )
}

/// How a program that talks to a device goes on.
pub enum PairStep<T> {
    /// Send the request and go on with its outcome.
    Send(HttpRequest),
    Done(T),
    Failed(RustProviderError),
}

/// The content of a [`PairStep`].
pub enum PairStepView<T> {
    Send(HttpRequestView),
    Done(T),
    Failed(ErrorView),
}

impl<T: DeepView> DeepView for PairStep<T> {
    type V = PairStepView<T::V>;

    open spec fn deep_view(&self) -> PairStepView<T::V> {
        match self {
            PairStep::Send(request) => PairStepView::Send(request.deep_view()),
            PairStep::Done(value) => PairStepView::Done(value.deep_view()),
            PairStep::Failed(e) => PairStepView::Failed(e.deep_view()),
        }
    }
}

/// Asking a device to show a PIN, as a function of the replies so far: first
/// whatever an earlier attempt left is cleaned up, whether or not that works,
/// then the device is asked for its first message and given ours.
pub open spec fn begin_step(
    addr: Seq<char>,
    n2: Seq<u8>,
    secret: Seq<u8>,
    replies: Seq<Sent>,
) -> PairStepView<PendingView> {
    if replies.len() == 0 {
        PairStepView::Send(registration_request(Method::Put, addr, "register/cleanup"@, None, 0))
    } else if replies.len() == 1 {
        PairStepView::Send(registration_request(Method::Post, addr, "register/pin"@, None, 1000))
    } else {
        match pin_message(replies[1]) {
            Err(e) => PairStepView::Failed(e),
            Ok(m1) => match exchange_of(m1, n2, secret) {
                Err(e) => PairStepView::Failed(e),
                Ok(x) => if replies.len() == 2 {
                    PairStepView::Send(
                        registration_request(
                            Method::Post,
                            addr,
                            "register/hash"@,
                            Some(hash_message(x)),
                            2000,
                        ),
                    )
                } else {
                    match step_message("register/hash"@, hash_sent(x), replies[2]) {
                        Err(e) => PairStepView::Failed(e),
                        Ok(m3) => match pending_of(addr, x, m3) {
                            Err(e) => PairStepView::Failed(e),
                            Ok(pending) => PairStepView::Done(pending),
                        },
                    }
                },
            },
        }
    }
}

/// The next step of asking a device to show a PIN. The keys of a pairing that has
/// been begun have 32 and 16 bytes.
pub fn begin_pair_for_addr(addr: &str, n2: &[u8], secret: &[u8], replies: &Vec<Sent>) -> (r:
    PairStep<PendingPairing>)
    ensures
        r.deep_view() == begin_step(addr@, n2@, secret@, replies@),
        r matches PairStep::Done(pending) ==> pending.auth_key@.len() == 32
            && pending.key_wrap_key@.len() == 16,
{
    if replies.len() == 0 {
        return PairStep::Send(registration_call(Method::Put, addr, "register/cleanup", 0));
    }
    if replies.len() == 1 {
        return PairStep::Send(registration_call(Method::Post, addr, "register/pin", 1000));
    }
    let m1 = match read_pin_reply(&replies[1]) {
        Ok(m1) => m1,
        Err(e) => {
            return PairStep::Failed(e);
        },
    };
    let x = match make_exchange(&m1, n2, secret) {
        Ok(x) => x,
        Err(e) => {
            return PairStep::Failed(e);
        },
    };
    let payload = hash_payload(&x);
    if replies.len() == 2 {
        return PairStep::Send(registration_post(addr, "register/hash", payload, 2000));
    }
    let sent = show_hash_sent(&x, &payload);
    match read_step("register/hash", sent.as_str(), &replies[2]) {
        Err(e) => PairStep::Failed(e),
        Ok(m3) => match accept_hash(addr, &x, &m3) {
            Err(e) => PairStep::Failed(e),
            Ok(pending) => PairStep::Done(pending),
        },
    }
}

/// The nonce and the secret of a pairing, fresh from the system's random source.
pub fn fresh_pairing_secrets() -> (r: Result<(Vec<u8>, Vec<u8>), RustProviderError>)
    ensures
        r matches Ok(drawn) ==> drawn.0@.len() == 16 && drawn.1@.len() == 32,
        r matches Err(e) ==> is_random_failure(e.deep_view()),
{
    let n2 = fresh_bytes(16)?;
    let secret = fresh_bytes(32)?;
    Ok((n2, secret))
}

/// Whether a failed attempt to begin a pairing is worth another one.
pub open spec fn retryable(e: ErrorView) -> bool {
    match e {
        ErrorView::TransportUnreachable => true,
        ErrorView::Internal(message) => crate::text::occurs(message, "503 Service Unavailable"@)
            || crate::text::occurs(message, "register/hash http error"@) || crate::text::occurs(
            message,
            "Application is closed"@,
        ),
        _ => false,
    }
}

/// Whether a failed attempt to begin a pairing is worth another one.
pub fn pair_begin_retryable(err: &RustProviderError) -> (r: bool)
    ensures
        r == retryable(err.deep_view()),
{
    match err {
        RustProviderError::TransportUnreachable => true,
        RustProviderError::Internal(message) => crate::text::contains(
            message.as_str(),
            "503 Service Unavailable",
        ) || crate::text::contains(message.as_str(), "register/hash http error")
            || crate::text::contains(message.as_str(), "Application is closed"),
        _ => false,
    }
}

/// How beginning a pairing goes on after an attempt.
pub enum Attempt {
    /// Log the message, wait so many milliseconds and try again.
    Again(String, u64),
    Done(PendingPairing),
    Failed(RustProviderError),
}

/// The content of an [`Attempt`].
pub enum AttemptView {
    Again(Seq<char>, u64),
    Done(PendingView),
    Failed(ErrorView),
}

impl DeepView for Attempt {
    type V = AttemptView;

    open spec fn deep_view(&self) -> AttemptView {
        match self {
            Attempt::Again(message, pause) => AttemptView::Again(message@, *pause),
            Attempt::Done(pending) => AttemptView::Done(pending.deep_view()),
            Attempt::Failed(e) => AttemptView::Failed(e.deep_view()),
        }
    }
}

/// Attempts to begin a pairing, counted from one; no more than five are made.
pub open spec fn attempt_step(
    addr: Seq<char>,
    attempt: u64,
    result: Result<PendingView, ErrorView>,
) -> AttemptView {
    match result {
        Ok(pending) => AttemptView::Done(pending),
        Err(e) => if retryable(e) && attempt < 5 {
            AttemptView::Again(
                "pair begin attempt "@ + decimal(attempt as nat) + " failed for "@ + addr + ": "@
                    + e.text() + "; retrying"@,
                2000,
            )
        } else {
            AttemptView::Failed(e)
        },
    }
}

/// Decides on the outcome of the given attempt to begin a pairing.
pub fn begin_pair_with_retry(
    addr: &str,
    attempt: u64,
    result: Result<PendingPairing, RustProviderError>,
) -> (r: Attempt)
    ensures
        r.deep_view() == attempt_step(addr@, attempt, outcome(result)),
{
    match result {
        Ok(pending) => Attempt::Done(pending),
        Err(e) => if pair_begin_retryable(&e) && attempt < 5 {
            let first = cat6(
                "pair begin attempt ",
                number_text(attempt).as_str(),
                " failed for ",
                addr,
                ": ",
                e.text().as_str(),
            );
            Attempt::Again(cat2(first.as_str(), "; retrying"), 2000)
        } else {
            Attempt::Failed(e)
        },
    }
}

/// What we prove to the device that we know the PIN with.
pub struct PinProof {
    pub psk: Vec<u8>,
    pub r_hash: Vec<u8>,
    pub wrapped_rs: Vec<u8>,
    pub m4hmac: Vec<u8>,
}

/// The content of a [`PinProof`].
#[verifier::ext_equal]
pub struct PinProofView {
    pub psk: Seq<u8>,
    pub r_hash: Seq<u8>,
    pub wrapped_rs: Seq<u8>,
    pub m4hmac: Seq<u8>,
}

impl DeepView for PinProof {
    type V = PinProofView;

    open spec fn deep_view(&self) -> PinProofView {
        PinProofView {
            psk: self.psk@,
            r_hash: self.r_hash@,
            wrapped_rs: self.wrapped_rs@,
            m4hmac: self.m4hmac@,
        }
    }
}

/// The proof that follows from the PIN and our random bytes; none where wrapping fails.
pub open spec fn pin_proof(p: PendingView, pin: Seq<char>, rs: Seq<u8>, iv: Seq<u8>) -> Option<
    PinProofView,
> {
    let psk = hmac_value(p.auth_key, concat(seq![encode_utf8(pin)]));
    let r_hash = hmac_value(p.auth_key, concat(seq![rs, psk, p.yb, p.ya]));
    match wrapped(rs, p.auth_key, p.key_wrap_key, iv) {
        None => None,
        Some(wrapped_rs) => Some(
            PinProofView {
                psk,
                r_hash,
                wrapped_rs,
                m4hmac: hmac_value(
                    p.auth_key,
                    concat(seq![p.n2, p.e_hash, p.m3hmac, p.n1, r_hash, wrapped_rs]),
                ),
            },
        ),
    }
}

/// Derives the proof that we know the PIN.
pub fn make_pin_proof(p: &PendingPairing, pin: &str, rs: &[u8], iv: &[u8]) -> (r: Result<
    PinProof,
    RustProviderError,
>)
    requires
        iv@.len() == 16,
    ensures
        match r {
            Ok(proved) => pin_proof(p.deep_view(), pin@, rs@, iv@) == Some(proved.deep_view()),
            Err(e) => pin_proof(p.deep_view(), pin@, rs@, iv@) is None && is_wrap_failure(
                e.deep_view(),
            ),
        },
{
    let pin_parts: Vec<&[u8]> = vec![pin.as_bytes()];
    assert(slices(pin_parts@) =~= seq![encode_utf8(pin@)]);
    let psk = hmac_sha256(p.auth_key.as_slice(), &pin_parts);
    let r_parts: Vec<&[u8]> = vec![rs, psk.as_slice(), p.yb.as_slice(), p.ya.as_slice()];
    assert(slices(r_parts@) =~= seq![rs@, psk@, p.yb@, p.ya@]);
    let r_hash = hmac_sha256(p.auth_key.as_slice(), &r_parts);
    let wrapped_rs = wrap_with_iv(rs, p.auth_key.as_slice(), p.key_wrap_key.as_slice(), iv)?;
    let m4_parts: Vec<&[u8]> = vec![
        p.n2.as_slice(),
        p.e_hash.as_slice(),
        p.m3hmac.as_slice(),
        p.n1.as_slice(),
        r_hash.as_slice(),
        wrapped_rs.as_slice(),
    ];
    assert(slices(m4_parts@) =~= seq![p.n2@, p.e_hash@, p.m3hmac@, p.n1@, r_hash@, wrapped_rs@]);
    let m4hmac = hmac_sha256(p.auth_key.as_slice(), &m4_parts);
    Ok(PinProof { psk, r_hash, wrapped_rs, m4hmac })
}

/// Our second message: the nonce, the hash over the PIN, our wrapped random
/// bytes, and the HMAC over both.
pub open spec fn ca_message(p: PendingView, proved: PinProofView) -> JsonView {
    JsonView::Object(
        no_fields().insert("a"@, JsonView::Text(base64(p.n1))).insert(
            "b"@,
            JsonView::Text(base64(proved.r_hash)),
        ).insert("d"@, JsonView::Text(base64(proved.wrapped_rs))).insert(
            "e"@,
            JsonView::Text(base64(proved.m4hmac)),
        ),
    )
}

/// Our second message.
pub fn ca_payload(p: &PendingPairing, proved: &PinProof) -> (r: serde_json::Value)
    ensures
        json_value(r) == ca_message(p.deep_view(), proved.deep_view()),
{
    let mut m4 = empty_object();
    put_text(&mut m4, "a", b64(p.n1.as_slice()).as_str());
    put_text(&mut m4, "b", b64(proved.r_hash.as_slice()).as_str());
    put_text(&mut m4, "d", b64(proved.wrapped_rs.as_slice()).as_str());
    put_text(&mut m4, "e", b64(proved.m4hmac.as_slice()).as_str());
    m4
}

/// What the failure of the third step tells of our second message.
pub open spec fn ca_sent(p: PendingView, proved: PinProofView) -> Seq<char> {
    " request_n1="@ + base64(p.n1) + " request_r_hash="@ + base64(proved.r_hash)
        + " request_wrapped_rs_len="@ + decimal(proved.wrapped_rs.len())
}

fn show_ca_sent(p: &PendingPairing, proved: &PinProof) -> (r: String)
    ensures
        r@ == ca_sent(p.deep_view(), proved.deep_view()),
{
    cat6(
        " request_n1=",
        b64(p.n1.as_slice()).as_str(),
        " request_r_hash=",
        b64(proved.r_hash.as_slice()).as_str(),
        " request_wrapped_rs_len=",
        number_text(proved.wrapped_rs.len() as u64).as_str(),
    )
}

/// What was taken over of the device's third message.
pub struct CaAccepted {
    pub wrapped_es_cert: Vec<u8>,
    pub m5hmac: Vec<u8>,
}

/// The content of a [`CaAccepted`].
#[verifier::ext_equal]
pub struct CaAcceptedView {
    pub wrapped_es_cert: Seq<u8>,
    pub m5hmac: Seq<u8>,
}

impl DeepView for CaAccepted {
    type V = CaAcceptedView;

    open spec fn deep_view(&self) -> CaAcceptedView {
        CaAcceptedView { wrapped_es_cert: self.wrapped_es_cert@, m5hmac: self.m5hmac@ }
    }
}

/// The HMAC that the device's third message must carry.
pub open spec fn expected_m5hmac(
    p: PendingView,
    proved: PinProofView,
    wrapped_es_cert: Seq<u8>,
) -> Seq<u8> {
    hmac_value(
        p.auth_key,
        concat(
            seq![p.n1, proved.r_hash, proved.wrapped_rs, proved.m4hmac, p.n2, wrapped_es_cert],
        ),
    )
}

/// The hash over the PIN that the device committed to before it saw ours.
pub open spec fn expected_e_hash(p: PendingView, proved: PinProofView, es_cert: Seq<u8>) -> Seq<
    u8,
> {
    hmac_value(p.auth_key, concat(seq![es_cert.take(16), proved.psk, p.yb, p.ya]))
}

/// What is taken over of the device's third message: it must repeat our nonce,
/// carry the right HMAC, unwrap under the pairing keys, and open the commitment
/// over the PIN that the device made in its second message.
pub open spec fn ca_accepted(p: PendingView, proved: PinProofView, m5: JsonView) -> Result<
    CaAcceptedView,
    ErrorView,
> {
    match field_bytes(m5, "a"@) {
        Err(e) => Err(e),
        Ok(nonce) => if nonce != p.n2 {
            Err(
                ErrorView::Internal(
                    "register/ca nonce mismatch: expected_n2="@ + base64(p.n2) + " got_a="@
                        + base64(nonce) + " body="@ + json_text(m5),
                ),
            )
        } else {
            match field_bytes(m5, "d"@) {
                Err(e) => Err(e),
                Ok(wrapped_es_cert) => match field_bytes(m5, "e"@) {
                    Err(e) => Err(e),
                    Ok(m5hmac) => {
                        let expected = expected_m5hmac(p, proved, wrapped_es_cert);
                        if m5hmac != expected {
                            Err(
                                ErrorView::Internal(
                                    "register/ca hmac mismatch: expected="@ + base64(expected)
                                        + " got="@ + base64(m5hmac) + " body="@ + json_text(m5),
                                ),
                            )
                        } else {
                            match unwrapped(wrapped_es_cert, p.auth_key, p.key_wrap_key) {
                                Err(e) => Err(e),
                                Ok(es_cert) => if es_cert.len() < 17 {
                                    Err(ErrorView::AuthFailed)
                                } else if expected_e_hash(p, proved, es_cert) != p.e_hash {
                                    Err(
                                        ErrorView::Internal(
                                            "register/ca e_hash mismatch: expected="@ + base64(
                                                expected_e_hash(p, proved, es_cert),
                                            ) + " got="@ + base64(p.e_hash),
                                        ),
                                    )
                                } else {
                                    Ok(CaAcceptedView { wrapped_es_cert, m5hmac })
                                },
                            }
                        }
                    },
                },
            }
        },
    }
}

/// Checks the device's third message.
pub fn accept_ca(p: &PendingPairing, proved: &PinProof, m5: &serde_json::Value) -> (r: Result<
    CaAccepted,
    RustProviderError,
>)
    ensures
        outcome(r) == ca_accepted(p.deep_view(), proved.deep_view(), json_value(*m5)),
{
    let nonce = read_field(m5, "a")?;
    if !same_bytes(nonce.as_slice(), p.n2.as_slice()) {
        return Err(
            RustProviderError::Internal(
                cat6(
                    "register/ca nonce mismatch: expected_n2=",
                    b64(p.n2.as_slice()).as_str(),
                    " got_a=",
                    b64(nonce.as_slice()).as_str(),
                    " body=",
                    show_json(m5).as_str(),
                ),
            ),
        );
    }
    let wrapped_es_cert = read_field(m5, "d")?;
    let m5hmac = read_field(m5, "e")?;
    let parts: Vec<&[u8]> = vec![
        p.n1.as_slice(),
        proved.r_hash.as_slice(),
        proved.wrapped_rs.as_slice(),
        proved.m4hmac.as_slice(),
        p.n2.as_slice(),
        wrapped_es_cert.as_slice(),
    ];
    assert(slices(parts@) =~= seq![
        p.n1@,
        proved.r_hash@,
        proved.wrapped_rs@,
        proved.m4hmac@,
        p.n2@,
        wrapped_es_cert@,
    ]);
    let expected = hmac_sha256(p.auth_key.as_slice(), &parts);
    if !same_bytes(m5hmac.as_slice(), expected.as_slice()) {
        return Err(
            RustProviderError::Internal(
                cat6(
                    "register/ca hmac mismatch: expected=",
                    b64(expected.as_slice()).as_str(),
                    " got=",
                    b64(m5hmac.as_slice()).as_str(),
                    " body=",
                    show_json(m5).as_str(),
                ),
            ),
        );
    }
    let es_cert = unwrap(
        wrapped_es_cert.as_slice(),
        p.auth_key.as_slice(),
        p.key_wrap_key.as_slice(),
    )?;
    if es_cert.len() < 17 {
        return Err(RustProviderError::AuthFailed);
    }
    let es = slice_bytes(es_cert.as_slice(), 0, 16);
    assert(es@ =~= es_cert@.take(16));
    let e_parts: Vec<&[u8]> = vec![
        es.as_slice(),
        proved.psk.as_slice(),
        p.yb.as_slice(),
        p.ya.as_slice(),
    ];
    assert(slices(e_parts@) =~= seq![es@, proved.psk@, p.yb@, p.ya@]);
    let e_hash = hmac_sha256(p.auth_key.as_slice(), &e_parts);
    if !same_bytes(e_hash.as_slice(), p.e_hash.as_slice()) {
        return Err(
            RustProviderError::Internal(
                cat4(
                    "register/ca e_hash mismatch: expected=",
                    b64(e_hash.as_slice()).as_str(),
                    " got=",
                    b64(p.e_hash.as_slice()).as_str(),
                ),
            ),
        );
    }
    Ok(CaAccepted { wrapped_es_cert, m5hmac })
}

/// Whether a third message repeats our nonce, carries the right HMAC, and opens
/// the device's commitment over the PIN.
pub open spec fn ca_is_proved(p: PendingView, proved: PinProofView, m5: JsonView) -> bool {
    &&& field_bytes(m5, "a"@) == Ok::<Seq<u8>, ErrorView>(p.n2)
    &&& field_bytes(m5, "d"@) is Ok
    &&& field_bytes(m5, "e"@) == Ok::<Seq<u8>, ErrorView>(
        expected_m5hmac(p, proved, field_bytes(m5, "d"@)->Ok_0),
    )
    &&& unwrapped(field_bytes(m5, "d"@)->Ok_0, p.auth_key, p.key_wrap_key) is Ok
    &&& unwrapped(field_bytes(m5, "d"@)->Ok_0, p.auth_key, p.key_wrap_key)->Ok_0.len() >= 17
    &&& expected_e_hash(
        p,
        proved,
        unwrapped(field_bytes(m5, "d"@)->Ok_0, p.auth_key, p.key_wrap_key)->Ok_0,
    ) == p.e_hash
}

/// A third message is accepted exactly when it is proved.
pub proof fn ca_accepted_iff_proved(p: PendingView, proved: PinProofView, m5: JsonView)
    ensures
        ca_accepted(p, proved, m5) is Ok <==> ca_is_proved(p, proved, m5),
{
}

/// New credentials: the client's name and its key pair.
pub struct Credentials {
    pub client_id: String,
    pub private_key: String,
    pub public_key: Vec<u8>,
}

/// The failure that tells which step of making a key pair failed, and why.
pub fn key_failure(failure: KeyFailure) -> (r: RustProviderError)
    ensures
        r.deep_view() == ErrorView::Internal(
            match failure {
                KeyFailure::Generate(e) => "rsa generate failed: "@ + e@,
                KeyFailure::PrivatePem(e) => "pem encode failed: "@ + e@,
                KeyFailure::PublicPem(e) => "pub pem encode failed: "@ + e@,
            },
        ),
        is_key_failure(r.deep_view()),
{
    let message = match failure {
        KeyFailure::Generate(e) => cat2("rsa generate failed: ", e.as_str()),
        KeyFailure::PrivatePem(e) => cat2("pem encode failed: ", e.as_str()),
        KeyFailure::PublicPem(e) => cat2("pub pem encode failed: ", e.as_str()),
    };
    RustProviderError::Internal(message)
}

/// Whether a failure tells that a private key in PEM form is no text.
pub open spec fn is_pem_failure(e: ErrorView) -> bool {
    is_told(e, "pem utf8 failed: "@)
}

/// Whether a failure tells that a step of making a key pair failed.
pub open spec fn is_key_failure(e: ErrorView) -> bool {
    ||| is_told(e, "rsa generate failed: "@)
    ||| is_told(e, "pem encode failed: "@)
    ||| is_told(e, "pub pem encode failed: "@)
}

/// Credentials out of 16 random bytes and a key pair in PEM form.
pub fn credentials_of(id: &[u8; 16], private_pem: Vec<u8>, public_pem: Vec<u8>) -> (r: Result<
    Credentials,
    RustProviderError,
>)
    ensures
        match r {
            Ok(made) => made.client_id@ == uuid_of(id@) && made.public_key@ == public_pem@ && Some(
                made.private_key@,
            ) == crate::bytes::decoded_text(private_pem@),
            Err(e) => crate::bytes::decoded_text(private_pem@) is None && is_pem_failure(
                e.deep_view(),
            ),
        },
{
    match utf8_text(private_pem) {
        Ok(private_key) => Ok(
            Credentials { client_id: uuid_text(id), private_key, public_key: public_pem },
        ),
        Err(e) => {
            assert(is_pem_failure(ErrorView::Internal("pem utf8 failed: "@ + e@)));
            Err(RustProviderError::Internal(cat2("pem utf8 failed: ", e.as_str())))
        },
    }
}

/// The 16 bytes of a client name.
pub fn id_of(drawn: &[u8]) -> (r: [u8; 16])
    requires
        drawn@.len() == 16,
    ensures
        r@ == drawn@,
{
    let mut id: [u8; 16] = [0u8;16];
    for i in 0..16usize
        invariant
            drawn@.len() == 16,
            forall|k: int| 0 <= k < i ==> id@[k] == drawn@[k],
    {
        id[i] = drawn[i];
    }
    assert(id@ =~= drawn@);
    id
}

/// Makes new credentials: a random client name and a fresh 2048 bit RSA key, of
/// which the private part is kept as text and the public part as bytes.
pub fn fresh_credentials() -> (r: Result<Credentials, RustProviderError>)
    ensures
        r matches Ok(made) ==> exists|id: Seq<u8>|
            id.len() == 16 && made.client_id@ == #[trigger] uuid_of(id),
        r matches Ok(made) ==> exists|private: Seq<u8>| #[trigger]
            key_pair(2048, private, made.public_key@) && crate::bytes::decoded_text(private) == Some(
                made.private_key@,
            ),
        r matches Err(e) ==> is_key_failure(e.deep_view()) || is_random_failure(e.deep_view())
            || is_pem_failure(e.deep_view()),
{
    match generate_key(2048) {
        Err(failure) => Err(key_failure(failure)),
        Ok((private_pem, public_pem)) => {
            let drawn = fresh_bytes(16)?;
            credentials_of(&id_of(drawn.as_slice()), private_pem, public_pem)
        },
    }
}

/// Our third message: the nonce, the wrapped client name and public key, and the
/// HMAC over them; none where wrapping fails.
pub open spec fn register_message(
    p: PendingView,
    accepted: CaAcceptedView,
    client_id: Seq<char>,
    public_key: Seq<u8>,
    iv: Seq<u8>,
) -> Option<JsonView> {
    match wrapped(encode_utf8(client_id) + public_key, p.auth_key, p.key_wrap_key, iv) {
        None => None,
        Some(wrapped_did) => {
            let m6hmac = hmac_value(
                p.auth_key,
                concat(seq![p.n2, accepted.wrapped_es_cert, accepted.m5hmac, p.n1, wrapped_did]),
            );
            Some(
                JsonView::Object(
                    no_fields().insert("a"@, JsonView::Text(base64(p.n1))).insert(
                        "d"@,
                        JsonView::Text(base64(wrapped_did)),
                    ).insert("e"@, JsonView::Text(base64(m6hmac))),
                ),
            )
        },
    }
}

/// What the failure of the last step tells of our third message.
pub open spec fn register_sent(
    p: PendingView,
    client_id: Seq<char>,
    public_key: Seq<u8>,
    iv: Seq<u8>,
) -> Seq<char> {
    " request_n1="@ + base64(p.n1) + " request_wrapped_did_len="@ + decimal(
        wrapped(
            encode_utf8(client_id) + public_key,
            p.auth_key,
            p.key_wrap_key,
            iv,
        )->Some_0.len(),
    )
}

/// Our third message, and what its failure would tell of it. The device that sent
/// what was taken over takes it.
pub fn register_payload(
    p: &PendingPairing,
    accepted: &CaAccepted,
    client_id: &str,
    public_key: &[u8],
    iv: &[u8],
) -> (r: Result<(serde_json::Value, String), RustProviderError>)
    requires
        iv@.len() == 16,
    ensures
        match r {
            Ok(made) => register_message(
                p.deep_view(),
                accepted.deep_view(),
                client_id@,
                public_key@,
                iv@,
            ) == Some(json_value(made.0)) && made.1@ == register_sent(
                p.deep_view(),
                client_id@,
                public_key@,
                iv@,
            ) && takes_registration(
                p.deep_view(),
                accepted.wrapped_es_cert@,
                accepted.m5hmac@,
                json_value(made.0),
                client_id@,
                public_key@,
            ),
            Err(e) => register_message(
                p.deep_view(),
                accepted.deep_view(),
                client_id@,
                public_key@,
                iv@,
            ) is None && is_wrap_failure(e.deep_view()),
        },
{
    let mut payload = copy_bytes(client_id.as_bytes());
    crate::bytes::append(&mut payload, public_key);
    let wrapped_did = wrap_with_iv(
        payload.as_slice(),
        p.auth_key.as_slice(),
        p.key_wrap_key.as_slice(),
        iv,
    )?;
    let parts: Vec<&[u8]> = vec![
        p.n2.as_slice(),
        accepted.wrapped_es_cert.as_slice(),
        accepted.m5hmac.as_slice(),
        p.n1.as_slice(),
        wrapped_did.as_slice(),
    ];
    assert(slices(parts@) =~= seq![
        p.n2@,
        accepted.wrapped_es_cert@,
        accepted.m5hmac@,
        p.n1@,
        wrapped_did@,
    ]);
    let m6hmac = hmac_sha256(p.auth_key.as_slice(), &parts);
    let mut m6 = empty_object();
    put_text(&mut m6, "a", b64(p.n1.as_slice()).as_str());
    put_text(&mut m6, "d", b64(wrapped_did.as_slice()).as_str());
    put_text(&mut m6, "e", b64(m6hmac.as_slice()).as_str());
    let sent = cat4(
        " request_n1=",
        b64(p.n1.as_slice()).as_str(),
        " request_wrapped_did_len=",
        number_text(wrapped_did.len() as u64).as_str(),
    );
    proof {
        letters_differ();
        row_of_5(p.n2@, accepted.wrapped_es_cert@, accepted.m5hmac@, p.n1@, wrapped_did@);
        assert(payload@ =~= encode_utf8(client_id@) + public_key@);
    }
    Ok((m6, sent))
}

/// The random values of the second half of a pairing. The key pair is made only
/// once the device has proved that it knows the PIN.
pub struct FinishDraws {
    pub rs: Vec<u8>,
    pub iv: Vec<u8>,
    pub key_iv: Vec<u8>,
    pub key: Option<Credentials>,
}

impl FinishDraws {
    /// Whether the initial vectors have the cipher's block length.
    pub open spec fn valid(&self) -> bool {
        self.iv@.len() == 16 && self.key_iv@.len() == 16
    }

    /// Random values without a key pair yet.
    pub fn fresh() -> (r: Result<FinishDraws, RustProviderError>)
        ensures
            r matches Ok(drawn) ==> drawn.valid() && drawn.rs@.len() == 16 && drawn.key is None,
            r matches Err(e) ==> is_random_failure(e.deep_view()),
    {
        let rs = fresh_bytes(16)?;
        let iv = fresh_bytes(16)?;
        let key_iv = fresh_bytes(16)?;
        Ok(FinishDraws { rs, iv, key_iv, key: None })
    }
}

/// How the second half of a pairing goes on.
pub enum FinishStep {
    Send(HttpRequest),
    /// Make credentials and go on with them.
    NeedKey,
    /// The client name and its private key.
    Done(String, String),
    Failed(RustProviderError),
}

/// The content of a [`FinishStep`].
pub enum FinishStepView {
    Send(HttpRequestView),
    NeedKey,
    Done(Seq<char>, Seq<char>),
    Failed(ErrorView),
    /// Wrapping failed; its failure tells so.
    WrapFailed,
}

impl FinishStep {
    /// Whether the step is the given one.
    pub open spec fn meets(&self, step: FinishStepView) -> bool {
        match self {
            FinishStep::Send(request) => step == FinishStepView::Send(request.deep_view()),
            FinishStep::NeedKey => step == FinishStepView::NeedKey,
            FinishStep::Done(client_id, key) => step == FinishStepView::Done(client_id@, key@),
            FinishStep::Failed(e) => step == FinishStepView::Failed(e.deep_view()) || (step
                == FinishStepView::WrapFailed && is_wrap_failure(e.deep_view())),
        }
    }
}

/// The second half of a pairing, as a function of the replies so far: we prove
/// that we know the PIN, check that the device does, and hand it the public key.
/// In the end whatever the registration left is cleaned up, whether or not that
/// works.
pub open spec fn finish_step(
    p: PendingView,
    pin: Seq<char>,
    draws: FinishDraws,
    replies: Seq<Sent>,
) -> FinishStepView {
    match pin_proof(p, pin, draws.rs@, draws.iv@) {
        None => FinishStepView::WrapFailed,
        Some(proved) => if replies.len() == 0 {
            FinishStepView::Send(
                registration_request(
                    Method::Post,
                    p.addr,
                    "register/ca"@,
                    Some(ca_message(p, proved)),
                    1000,
                ),
            )
        } else {
            match step_message("register/ca"@, ca_sent(p, proved), replies[0]) {
                Err(e) => FinishStepView::Failed(e),
                Ok(m5) => match ca_accepted(p, proved, m5) {
                    Err(e) => FinishStepView::Failed(e),
                    Ok(accepted) => match draws.key {
                        None => FinishStepView::NeedKey,
                        Some(key) => register_step(p, accepted, key, draws.key_iv@, replies),
                    },
                },
            }
        },
    }
}

/// The last part of a pairing: the device is handed the client name and the public key.
pub open spec fn register_step(
    p: PendingView,
    accepted: CaAcceptedView,
    key: Credentials,
    iv: Seq<u8>,
    replies: Seq<Sent>,
) -> FinishStepView {
    match register_message(p, accepted, key.client_id@, key.public_key@, iv) {
        None => FinishStepView::WrapFailed,
        Some(m6) => if replies.len() == 1 {
            FinishStepView::Send(
                registration_request(Method::Post, p.addr, "register"@, Some(m6), 1000),
            )
        } else {
            match step_text(
                "register"@,
                register_sent(p, key.client_id@, key.public_key@, iv),
                replies[1],
            ) {
                Err(e) => FinishStepView::Failed(e),
                Ok(_) => if replies.len() == 2 {
                    FinishStepView::Send(
                        registration_request(Method::Put, p.addr, "register/cleanup"@, None, 0),
                    )
                } else {
                    FinishStepView::Done(key.client_id@, key.private_key@)
                },
            }
        },
    }
}

/// Whether a request hands the device the credentials that were made, in a
/// message that it takes after its reply to the proof of the PIN.
pub open spec fn registers_with(
    p: PendingView,
    pin: Seq<char>,
    draws: FinishDraws,
    reply: Sent,
    request: HttpRequestView,
) -> bool {
    let proved = pin_proof(p, pin, draws.rs@, draws.iv@)->Some_0;
    let m5 = step_message("register/ca"@, ca_sent(p, proved), reply);
    &&& m5 is Ok
    &&& field_bytes(m5->Ok_0, "d"@) is Ok
    &&& field_bytes(m5->Ok_0, "e"@) is Ok
    &&& request.body matches RequestBodyView::Json(message) && (draws.key matches Some(key)
        && takes_registration(
        p,
        field_bytes(m5->Ok_0, "d"@)->Ok_0,
        field_bytes(m5->Ok_0, "e"@)->Ok_0,
        message,
        key.client_id@,
        key.public_key@,
    ))
}

/// The next step of the second half of a pairing.
pub fn finish_pairing(
    p: &PendingPairing,
    pin: &str,
    draws: &FinishDraws,
    replies: &Vec<Sent>,
) -> (r: FinishStep)
    requires
        draws.valid(),
    ensures
        r.meets(finish_step(p.deep_view(), pin@, *draws, replies@)),
        replies@.len() == 1 ==> (r matches FinishStep::Send(request) ==> registers_with(
            p.deep_view(),
            pin@,
            *draws,
            replies@[0],
            request.deep_view(),
        )),
{
    let proved = match make_pin_proof(p, pin, draws.rs.as_slice(), draws.iv.as_slice()) {
        Ok(proved) => proved,
        Err(e) => {
            return FinishStep::Failed(e);
        },
    };
    let addr = p.addr.as_str();
    if replies.len() == 0 {
        return FinishStep::Send(
            registration_post(addr, "register/ca", ca_payload(p, &proved), 1000),
        );
    }
    let sent = show_ca_sent(p, &proved);
    let m5 = match read_step("register/ca", sent.as_str(), &replies[0]) {
        Ok(m5) => m5,
        Err(e) => {
            return FinishStep::Failed(e);
        },
    };
    let accepted = match accept_ca(p, &proved, &m5) {
        Ok(accepted) => accepted,
        Err(e) => {
            return FinishStep::Failed(e);
        },
    };
    let key = match &draws.key {
        Some(key) => key,
        None => {
            return FinishStep::NeedKey;
        },
    };
    let (m6, sent) = match register_payload(
        p,
        &accepted,
        key.client_id.as_str(),
        key.public_key.as_slice(),
        draws.key_iv.as_slice(),
    ) {
        Ok(made) => made,
        Err(e) => {
            return FinishStep::Failed(e);
        },
    };
    if replies.len() == 1 {
        return FinishStep::Send(registration_post(addr, "register", m6, 1000));
    }
    match read_step_text("register", sent.as_str(), &replies[1]) {
        Err(e) => FinishStep::Failed(e),
        Ok(_) => if replies.len() == 2 {
            FinishStep::Send(registration_call(Method::Put, addr, "register/cleanup", 0))
        } else {
            FinishStep::Done(
                key.client_id.as_str().to_owned(),
                key.private_key.as_str().to_owned(),
            )
        },
    }
}

/// Whether a PIN is eight digits.
pub open spec fn is_pin(pin: Seq<char>) -> bool {
    pin.len() == 8 && crate::numbers::all_digits(pin)
}

/// Whether a PIN is eight digits.
pub fn valid_pin(pin: &str) -> (r: bool)
    ensures
        r == is_pin(pin@),
{
    let chars = crate::text::chars_of(pin);
    if chars.len() != 8 {
        return false;
    }
    for i in 0..chars.len()
        invariant
            chars@ == pin@,
            forall|k: int| 0 <= k < i ==> crate::numbers::is_digit(#[trigger] pin@[k]),
    {
        let c = chars[i];
        if !('0' <= c && c <= '9') {
            assert(!crate::numbers::is_digit(pin@[i as int]));
            return false;
        }
    }
    true
}

/// A device that drew the secret `theirs` derives, from what we send, the keys
/// that we derive from what it sends.
pub proof fn both_sides_hold_the_keys(
    n1: Seq<u8>,
    mac: Seq<u8>,
    n2: Seq<u8>,
    ours: Seq<u8>,
    theirs: Seq<u8>,
)
    ensures
        ({
            let x = exchange_with(n1, mac, dh_public_bytes(theirs), n2, ours);
            x.auth_key + x.key_wrap_key == pairing_keys(
                dh_shared_bytes(x.ya, theirs),
                concat(seq![n1, mac, n2]),
            ).take(32) + pairing_keys(
                dh_shared_bytes(x.ya, theirs),
                concat(seq![n1, mac, n2]),
            ).skip(32)
        }),
{
    crate::crypto::dh_bytes_agreement(ours, theirs);
}

/// Credentials are given out only after the device has proved that it knows the
/// PIN, and are those that were made for this pairing.
pub proof fn credentials_only_for_the_pin(
    p: PendingView,
    pin: Seq<char>,
    draws: FinishDraws,
    replies: Seq<Sent>,
    client_id: Seq<char>,
    private_key: Seq<char>,
)
    requires
        finish_step(p, pin, draws, replies) == FinishStepView::Done(client_id, private_key),
    ensures
        ({
            let proved = pin_proof(p, pin, draws.rs@, draws.iv@)->Some_0;
            let m5 = step_message("register/ca"@, ca_sent(p, proved), replies[0]);
            &&& pin_proof(p, pin, draws.rs@, draws.iv@) is Some
            &&& m5 is Ok
            &&& ca_is_proved(p, proved, m5->Ok_0)
            &&& draws.key matches Some(key) && key.client_id@ == client_id && key.private_key@
                == private_key
        }),
{
    let proved = pin_proof(p, pin, draws.rs@, draws.iv@)->Some_0;
    ca_accepted_iff_proved(
        p,
        proved,
        step_message("register/ca"@, ca_sent(p, proved), replies[0])->Ok_0,
    );
}

/// Asking for a PIN takes three requests, and the second half of a pairing takes
/// three more; once they are answered, each has ended, whatever the answers are.
pub proof fn pairing_ends(
    addr: Seq<char>,
    n2: Seq<u8>,
    secret: Seq<u8>,
    p: PendingView,
    pin: Seq<char>,
    draws: FinishDraws,
    replies: Seq<Sent>,
)
    requires
        replies.len() >= 3,
        draws.key is Some,
    ensures
        begin_step(addr, n2, secret, replies) !is Send,
        finish_step(p, pin, draws, replies) !is Send,
        finish_step(p, pin, draws, replies) !is NeedKey,
{
}

/// No more than five attempts are made to begin a pairing, and another one is
/// made only after a failure that is worth it.
pub proof fn attempts_end(addr: Seq<char>, attempt: u64, result: Result<PendingView, ErrorView>)
    ensures
        attempt_step(addr, attempt, result) is Again ==> attempt < 5 && result is Err && retryable(
            result->Err_0,
        ),
{
}

/// A pairing with a device that cannot be reached, or is busy, is begun five times
/// in all; one that the device refuses is not begun again.
pub proof fn pairing_is_begun_five_times(
    addr: Seq<char>,
    attempt: u64,
    before: Seq<char>,
    after: Seq<char>,
)
    ensures
        attempt_step(addr, attempt, Err(ErrorView::TransportUnreachable)) is Again <==> attempt < 5,
        attempt_step(
            addr,
            attempt,
            Err(ErrorView::Internal(before + "503 Service Unavailable"@ + after)),
        ) is Again <==> attempt < 5,
        attempt_step(addr, attempt, Err(ErrorView::AuthFailed)) is Failed,
        attempt_step(addr, attempt, Err(ErrorView::PairingRequired)) is Failed,
{
    let busy = "503 Service Unavailable"@;
    let message = before + busy + after;
    assert(message.subrange(before.len() as int, (before.len() + busy.len()) as int) =~= busy);
    assert(crate::text::stands_at(message, busy, before.len() as int));
}

} // verus!
