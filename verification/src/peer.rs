//! What a device at the other end of a pairing makes of what it is sent, and what
//! it must send to be believed.
use crate::bytes::{base64, concat};
use crate::crypto::{dh_shared_bytes, hmac_value, pbkdf2_value, unwrapped, wrapped};
use crate::errors::ErrorView;
use crate::http::{HttpRequestView, Method, RequestBodyView, Sent};
use crate::json::JsonView;
use crate::pairing::{
    begin_step, ca_accepted, ca_message, ca_sent, exchange_of, exchange_with, field_bytes,
    finish_step, hash_message, hash_sent, pending_of, pin_message, pin_proof, register_message,
    step_message, CaAcceptedView, Credentials, ExchangeView, FinishDraws, FinishStepView,
    PairStepView, PendingView, PinProofView,
};
use vstd::prelude::*;
use vstd::utf8::encode_utf8;

verus! {

/// Whether member `key` of a message carries the bytes, as base64 text.
pub open spec fn carries(message: JsonView, key: Seq<char>, data: Seq<u8>) -> bool {
    message.text_at(key) == Some(base64(data))
}

/// Whether a registration is one that a device takes: it repeats the device's
/// nonce, and its authenticator is the HMAC over our nonce, the certificate and
/// the authenticator that the device sent, its nonce, and what is registered.
pub open spec fn registers(
    auth_key: Seq<u8>,
    n1: Seq<u8>,
    n2: Seq<u8>,
    wrapped_cert: Seq<u8>,
    m5hmac: Seq<u8>,
    message: JsonView,
    wrapped_did: Seq<u8>,
) -> bool {
    &&& carries(message, "a"@, n1)
    &&& carries(message, "d"@, wrapped_did)
    &&& carries(message, "e"@, hmac_value(auth_key, n2 + wrapped_cert + m5hmac + n1 + wrapped_did))
}

/// What a device reads out of a registration: its nonce, what is registered, and
/// an authenticator that is right; what is registered unwraps to the client's name
/// and public key.
pub open spec fn takes_registration(
    p: PendingView,
    wrapped_cert: Seq<u8>,
    m5hmac: Seq<u8>,
    message: JsonView,
    client_id: Seq<char>,
    public_key: Seq<u8>,
) -> bool {
    &&& field_bytes(message, "a"@) == Ok::<Seq<u8>, ErrorView>(p.n1)
    &&& field_bytes(message, "d"@) matches Ok(did) && field_bytes(message, "e"@) == Ok::<
        Seq<u8>,
        ErrorView,
    >(hmac_value(p.auth_key, p.n2 + wrapped_cert + m5hmac + p.n1 + did)) && (
    encode_utf8(client_id).len() + public_key.len() <= 0x1000_0000 ==> unwrapped(
        did,
        p.auth_key,
        p.key_wrap_key,
    ) == Ok::<Seq<u8>, ErrorView>(encode_utf8(client_id) + public_key))
}

pub(crate) proof fn letters_differ()
    ensures
        "a"@ != "b"@,
        "a"@ != "c"@,
        "a"@ != "d"@,
        "a"@ != "e"@,
        "b"@ != "c"@,
        "b"@ != "d"@,
        "b"@ != "e"@,
        "c"@ != "d"@,
        "c"@ != "e"@,
        "d"@ != "e"@,
{
    reveal_strlit("a");
    reveal_strlit("b");
    reveal_strlit("c");
    reveal_strlit("d");
    reveal_strlit("e");
    assert("a"@[0] == 'a' && "b"@[0] == 'b' && "c"@[0] == 'c' && "d"@[0] == 'd' && "e"@[0] == 'e');
}

pub(crate) proof fn row_of_3(a: Seq<u8>, b: Seq<u8>, c: Seq<u8>)
    ensures
        concat(seq![a]) == a,
        concat(seq![a, b]) == a + b,
        concat(seq![a, b, c]) == a + b + c,
{
    let none = Seq::<Seq<u8>>::empty();
    assert(seq![a].drop_last() =~= none);
    assert(seq![a, b].drop_last() =~= seq![a]);
    assert(seq![a, b, c].drop_last() =~= seq![a, b]);
    assert(concat(none) =~= Seq::<u8>::empty());
    assert(concat(seq![a]) =~= a);
    assert(seq![a, b].last() == b && seq![a, b, c].last() == c);
    assert(concat(seq![a, b]) == a + b);
}

pub(crate) proof fn row_of_5(a: Seq<u8>, b: Seq<u8>, c: Seq<u8>, d: Seq<u8>, e: Seq<u8>)
    ensures
        concat(seq![a, b, c, d]) == a + b + c + d,
        concat(seq![a, b, c, d, e]) == a + b + c + d + e,
{
    row_of_3(a, b, c);
    assert(seq![a, b, c, d].drop_last() =~= seq![a, b, c]);
    assert(seq![a, b, c, d, e].drop_last() =~= seq![a, b, c, d]);
    assert(seq![a, b, c, d].last() == d && seq![a, b, c, d, e].last() == e);
    assert(concat(seq![a, b, c, d]) == a + b + c + d);
}

pub(crate) proof fn row_of_7(
    a: Seq<u8>,
    b: Seq<u8>,
    c: Seq<u8>,
    d: Seq<u8>,
    e: Seq<u8>,
    f: Seq<u8>,
    g: Seq<u8>,
)
    ensures
        concat(seq![a, b, c, d, e, f]) == a + b + c + d + e + f,
        concat(seq![a, b, c, d, e, f, g]) == a + b + c + d + e + f + g,
{
    row_of_5(a, b, c, d, e);
    assert(seq![a, b, c, d, e, f].drop_last() =~= seq![a, b, c, d, e]);
    assert(seq![a, b, c, d, e, f, g].drop_last() =~= seq![a, b, c, d, e, f]);
    assert(seq![a, b, c, d, e, f].last() == f && seq![a, b, c, d, e, f, g].last() == g);
    assert(concat(seq![a, b, c, d, e, f]) == a + b + c + d + e + f);
}

/// The two keys of a pairing are the first 32 and the next 16 of 48 bytes that
/// 10000 rounds derive from the shared secret, salted with the device's nonce, its
/// hardware address and our nonce.
pub proof fn keys_come_from_the_exchange(
    n1: Seq<u8>,
    mac: Seq<u8>,
    yb_wire: Seq<u8>,
    n2: Seq<u8>,
    secret: Seq<u8>,
)
    ensures
        ({
            let x = exchange_with(n1, mac, yb_wire, n2, secret);
            let derived = pbkdf2_value(
                dh_shared_bytes(yb_wire, secret),
                n1 + mac + n2,
                10_000,
                48,
            );
            &&& x.auth_key == derived.take(32)
            &&& x.key_wrap_key == derived.skip(32)
            &&& x.n1 == n1 && x.mac == mac && x.n2 == n2
        }),
{
    row_of_3(n1, mac, n2);
}

/// Our first message names both nonces, the hardware address and our key exchange
/// value, and its authenticator is the HMAC over the device's nonce, its address
/// and its value, then both nonces, the address and our value.
pub proof fn first_message_is_authentic(
    n1: Seq<u8>,
    mac: Seq<u8>,
    yb_wire: Seq<u8>,
    n2: Seq<u8>,
    secret: Seq<u8>,
)
    ensures
        ({
            let x = exchange_with(n1, mac, yb_wire, n2, secret);
            let message = hash_message(x);
            &&& carries(message, "a"@, n1)
            &&& carries(message, "b"@, n2)
            &&& carries(message, "c"@, mac)
            &&& carries(message, "d"@, x.ya)
            &&& carries(
                message,
                "e"@,
                hmac_value(x.auth_key, n1 + mac + x.yb + n1 + n2 + mac + x.ya),
            )
        }),
{
    let x = exchange_with(n1, mac, yb_wire, n2, secret);
    letters_differ();
    row_of_7(n1, mac, x.yb, n1, n2, mac, x.ya);
}

/// A device's second message is believed exactly where it repeats our nonce and
/// its authenticator is the HMAC over both nonces, its address, our value, our
/// authenticator, our nonce and its commitment; the commitment is kept.
pub proof fn second_message_is_believed_when_authentic(
    addr: Seq<char>,
    x: ExchangeView,
    message: JsonView,
)
    ensures
        pending_of(addr, x, message) is Ok <==> {
            &&& field_bytes(message, "a"@) == Ok::<Seq<u8>, ErrorView>(x.n2)
            &&& field_bytes(message, "b"@) matches Ok(e_hash) && field_bytes(message, "e"@) == Ok::<
                Seq<u8>,
                ErrorView,
            >(hmac_value(x.auth_key, x.n1 + x.n2 + x.mac + x.ya + x.m2hmac + x.n2 + e_hash))
        },
        pending_of(addr, x, message) matches Ok(p) ==> p.e_hash == field_bytes(
            message,
            "b"@,
        )->Ok_0 && p.m3hmac == field_bytes(message, "e"@)->Ok_0 && p.addr == addr && p.n1 == x.n1
            && p.n2 == x.n2 && p.auth_key == x.auth_key && p.key_wrap_key == x.key_wrap_key && p.yb
            == x.yb && p.ya == x.ya,
{
    if let Ok(e_hash) = field_bytes(message, "b"@) {
        row_of_7(x.n1, x.n2, x.mac, x.ya, x.m2hmac, x.n2, e_hash);
    }
}

/// Our second message repeats the device's nonce; its hash is the HMAC over our
/// random bytes, the HMAC of the PIN and both key exchange values; it wraps those
/// random bytes; and its authenticator is the HMAC over our nonce, the device's
/// commitment and authenticator, its nonce, the hash and the wrapped bytes.
pub proof fn pin_message_is_authentic(
    p: PendingView,
    pin: Seq<char>,
    rs: Seq<u8>,
    iv: Seq<u8>,
    proved: PinProofView,
)
    requires
        pin_proof(p, pin, rs, iv) == Some(proved),
    ensures
        ({
            let message = ca_message(p, proved);
            let r_hash = hmac_value(
                p.auth_key,
                rs + hmac_value(p.auth_key, encode_utf8(pin)) + p.yb + p.ya,
            );
            &&& carries(message, "a"@, p.n1)
            &&& carries(message, "b"@, r_hash)
            &&& wrapped(rs, p.auth_key, p.key_wrap_key, iv) matches Some(sealed) && carries(
                message,
                "d"@,
                sealed,
            ) && carries(
                message,
                "e"@,
                hmac_value(p.auth_key, p.n2 + p.e_hash + p.m3hmac + p.n1 + r_hash + sealed),
            )
        }),
{
    let psk = hmac_value(p.auth_key, encode_utf8(pin));
    letters_differ();
    row_of_3(encode_utf8(pin), rs, rs);
    row_of_5(rs, psk, p.yb, p.ya, rs);
    row_of_7(p.n2, p.e_hash, p.m3hmac, p.n1, proved.r_hash, proved.wrapped_rs, rs);
}

/// A device's third message is believed exactly where it repeats our nonce, its
/// authenticator is the HMAC over its nonce, what we sent, our nonce and its wrapped
/// certificate, and the certificate starts with the 16 bytes that, with the HMAC
/// of the same PIN and both key exchange values, make its earlier commitment.
pub proof fn third_message_is_believed_when_it_knows_the_pin(
    p: PendingView,
    pin: Seq<char>,
    rs: Seq<u8>,
    iv: Seq<u8>,
    proved: PinProofView,
    message: JsonView,
)
    requires
        pin_proof(p, pin, rs, iv) == Some(proved),
    ensures
        ca_accepted(p, proved, message) is Ok <==> {
            &&& field_bytes(message, "a"@) == Ok::<Seq<u8>, ErrorView>(p.n2)
            &&& field_bytes(message, "d"@) matches Ok(sealed) && field_bytes(message, "e"@) == Ok::<
                Seq<u8>,
                ErrorView,
            >(
                hmac_value(
                    p.auth_key,
                    p.n1 + proved.r_hash + proved.wrapped_rs + proved.m4hmac + p.n2 + sealed,
                ),
            ) && (unwrapped(sealed, p.auth_key, p.key_wrap_key) matches Ok(opened) && opened.len()
                >= 17 && hmac_value(
                p.auth_key,
                opened.take(16) + hmac_value(p.auth_key, encode_utf8(pin)) + p.yb + p.ya,
            ) == p.e_hash)
        },
        ca_accepted(p, proved, message) matches Ok(accepted) ==> Ok::<Seq<u8>, ErrorView>(
            accepted.wrapped_es_cert,
        ) == field_bytes(message, "d"@) && Ok::<Seq<u8>, ErrorView>(accepted.m5hmac)
            == field_bytes(message, "e"@),
{
    let psk = hmac_value(p.auth_key, encode_utf8(pin));
    row_of_3(encode_utf8(pin), rs, rs);
    if let Ok(sealed) = field_bytes(message, "d"@) {
        row_of_7(p.n1, proved.r_hash, proved.wrapped_rs, proved.m4hmac, p.n2, sealed, rs);
        if let Ok(opened) = unwrapped(sealed, p.auth_key, p.key_wrap_key) {
            row_of_5(opened.take(16), psk, p.yb, p.ya, rs);
        }
    }
}

/// What we register is the client's name followed by the public key, wrapped, in a
/// message that the device takes.
pub proof fn registration_is_authentic(
    p: PendingView,
    accepted: CaAcceptedView,
    client_id: Seq<char>,
    public_key: Seq<u8>,
    iv: Seq<u8>,
    message: JsonView,
)
    requires
        register_message(p, accepted, client_id, public_key, iv) == Some(message),
    ensures
        wrapped(encode_utf8(client_id) + public_key, p.auth_key, p.key_wrap_key, iv) matches Some(
            did,
        ) && registers(
            p.auth_key,
            p.n1,
            p.n2,
            accepted.wrapped_es_cert,
            accepted.m5hmac,
            message,
            did,
        ),
{
    letters_differ();
    if let Some(did) = wrapped(
        encode_utf8(client_id) + public_key,
        p.auth_key,
        p.key_wrap_key,
        iv,
    ) {
        row_of_5(p.n2, accepted.wrapped_es_cert, accepted.m5hmac, p.n1, did);
    }
}

/// Once the device has proved that it knows the PIN, what is posted to it next, at
/// its registration address, is a registration that it takes: the authenticator
/// covers what the device itself sent last.
pub proof fn pairing_sends_what_the_device_takes(
    p: PendingView,
    pin: Seq<char>,
    draws: FinishDraws,
    reply: Sent,
    request: HttpRequestView,
)
    requires
        finish_step(p, pin, draws, seq![reply]) == FinishStepView::Send(request),
    ensures
        ({
            let proved = pin_proof(p, pin, draws.rs@, draws.iv@)->Some_0;
            let m5 = step_message("register/ca"@, ca_sent(p, proved), reply);
            &&& request.method == Method::Post
            &&& request.url == "http://"@ + p.addr + ":8080/"@ + "register"@
            &&& m5 is Ok
            &&& draws.key matches Some(key) && (wrapped(
                encode_utf8(key.client_id@) + key.public_key@,
                p.auth_key,
                p.key_wrap_key,
                draws.key_iv@,
            ) matches Some(did) && request.body matches RequestBodyView::Json(message) && registers(
                p.auth_key,
                p.n1,
                p.n2,
                field_bytes(m5->Ok_0, "d"@)->Ok_0,
                field_bytes(m5->Ok_0, "e"@)->Ok_0,
                message,
                did,
            ))
        }),
{
    let proved = pin_proof(p, pin, draws.rs@, draws.iv@)->Some_0;
    let m5 = step_message("register/ca"@, ca_sent(p, proved), reply)->Ok_0;
    let accepted = ca_accepted(p, proved, m5)->Ok_0;
    third_message_is_believed_when_it_knows_the_pin(p, pin, draws.rs@, draws.iv@, proved, m5);
    let key = draws.key->Some_0;
    let message = register_message(
        p,
        accepted,
        key.client_id@,
        key.public_key@,
        draws.key_iv@,
    )->Some_0;
    registration_is_authentic(
        p,
        accepted,
        key.client_id@,
        key.public_key@,
        draws.key_iv@,
        message,
    );
}

/// Whether a request goes to one of the device's addresses for pairing.
pub open spec fn goes_to(
    request: HttpRequestView,
    method: Method,
    addr: Seq<char>,
    path: Seq<char>,
) -> bool {
    request.method == method && request.url == "http://"@ + addr + ":8080/"@ + path
}

/// Asking for a PIN: an earlier pairing is cleaned up, whatever comes of it; the
/// PIN is asked for; and the device's first message is answered by our own. The
/// device's second message, where it is authentic, makes the pairing.
pub proof fn pin_is_asked_for_in_order(
    addr: Seq<char>,
    n2: Seq<u8>,
    secret: Seq<u8>,
    cleaned: Sent,
    asked: Sent,
    answered: Sent,
    x: ExchangeView,
    m3: JsonView,
)
    requires
        pin_message(asked) is Ok,
        exchange_of(pin_message(asked)->Ok_0, n2, secret) == Ok::<ExchangeView, ErrorView>(x),
        step_message("register/hash"@, hash_sent(x), answered) == Ok::<JsonView, ErrorView>(m3),
    ensures
        begin_step(addr, n2, secret, Seq::empty()) matches PairStepView::Send(request) && goes_to(
            request,
            Method::Put,
            addr,
            "register/cleanup"@,
        ),
        begin_step(addr, n2, secret, seq![cleaned]) matches PairStepView::Send(request) && goes_to(
            request,
            Method::Post,
            addr,
            "register/pin"@,
        ),
        begin_step(addr, n2, secret, seq![cleaned, asked]) matches PairStepView::Send(request)
            && goes_to(request, Method::Post, addr, "register/hash"@) && request.body
            == RequestBodyView::Json(hash_message(x)),
        pending_of(addr, x, m3) is Ok ==> begin_step(
            addr,
            n2,
            secret,
            seq![cleaned, asked, answered],
        ) == PairStepView::Done(pending_of(addr, x, m3)->Ok_0),
{
}

/// Finishing a pairing: our proof that we know the PIN is posted; once the device
/// has answered with its own and has taken the registration, it is cleaned up
/// after, and whatever comes of that, the credentials are those that were made.
pub proof fn pairing_is_finished_in_order(
    p: PendingView,
    pin: Seq<char>,
    draws: FinishDraws,
    key: Credentials,
    proved: PinProofView,
    proof_taken: Sent,
    registered: crate::http::HttpReply,
    cleaned: Sent,
)
    requires
        pin_proof(p, pin, draws.rs@, draws.iv@) == Some(proved),
        draws.key == Some(key),
        step_message("register/ca"@, ca_sent(p, proved), proof_taken) is Ok,
        ca_accepted(
            p,
            proved,
            step_message("register/ca"@, ca_sent(p, proved), proof_taken)->Ok_0,
        ) is Ok,
        wrapped(
            encode_utf8(key.client_id@) + key.public_key@,
            p.auth_key,
            p.key_wrap_key,
            draws.key_iv@,
        ) is Some,
        200 <= registered.code <= 299,
        registered.body.as_text() is Ok,
    ensures
        finish_step(p, pin, draws, Seq::empty()) matches FinishStepView::Send(request) && goes_to(
            request,
            Method::Post,
            p.addr,
            "register/ca"@,
        ) && request.body == RequestBodyView::Json(ca_message(p, proved)),
        finish_step(p, pin, draws, seq![proof_taken]) matches FinishStepView::Send(request)
            && goes_to(request, Method::Post, p.addr, "register"@),
        finish_step(p, pin, draws, seq![proof_taken, Ok(registered)]) matches FinishStepView::Send(
            request,
        ) && goes_to(request, Method::Put, p.addr, "register/cleanup"@),
        finish_step(p, pin, draws, seq![proof_taken, Ok(registered), cleaned])
            == FinishStepView::Done(key.client_id@, key.private_key@),
{
}

} // verus!
