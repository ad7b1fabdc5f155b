//! Keys, digests and ciphers of the pairing protocol.
use crate::bytes::{
    append, be_value, be_value_at_least_first, concat, concat_bytes, copy_bytes, hex, same_bytes,
    slice_bytes, slices,
};
use crate::errors::{is_told, ErrorView, RustProviderError};
use crate::text::cat2;
use vstd::arithmetic::power::pow;
use vstd::prelude::*;
use vstd::string::*;

verus! {

/// The prime of the 2048 bit key exchange group, most significant byte first.
pub const DH_PRIME: [u8; 256] = [
    0xff, 0xff, 0xff, 0xff, 0xff, 0xff, 0xff, 0xff, 0xc9, 0x0f, 0xda, 0xa2, 0x21, 0x68, 0xc2, 0x34,
    0xc4, 0xc6, 0x62, 0x8b, 0x80, 0xdc, 0x1c, 0xd1, 0x29, 0x02, 0x4e, 0x08, 0x8a, 0x67, 0xcc, 0x74,
    0x02, 0x0b, 0xbe, 0xa6, 0x3b, 0x13, 0x9b, 0x22, 0x51, 0x4a, 0x08, 0x79, 0x8e, 0x34, 0x04, 0xdd,
    0xef, 0x95, 0x19, 0xb3, 0xcd, 0x3a, 0x43, 0x1b, 0x30, 0x2b, 0x0a, 0x6d, 0xf2, 0x5f, 0x14, 0x37,
    0x4f, 0xe1, 0x35, 0x6d, 0x6d, 0x51, 0xc2, 0x45, 0xe4, 0x85, 0xb5, 0x76, 0x62, 0x5e, 0x7e, 0xc6,
    0xf4, 0x4c, 0x42, 0xe9, 0xa6, 0x37, 0xed, 0x6b, 0x0b, 0xff, 0x5c, 0xb6, 0xf4, 0x06, 0xb7, 0xed,
    0xee, 0x38, 0x6b, 0xfb, 0x5a, 0x89, 0x9f, 0xa5, 0xae, 0x9f, 0x24, 0x11, 0x7c, 0x4b, 0x1f, 0xe6,
    0x49, 0x28, 0x66, 0x51, 0xec, 0xe4, 0x5b, 0x3d, 0xc2, 0x00, 0x7c, 0xb8, 0xa1, 0x63, 0xbf, 0x05,
    0x98, 0xda, 0x48, 0x36, 0x1c, 0x55, 0xd3, 0x9a, 0x69, 0x16, 0x3f, 0xa8, 0xfd, 0x24, 0xcf, 0x5f,
    0x83, 0x65, 0x5d, 0x23, 0xdc, 0xa3, 0xad, 0x96, 0x1c, 0x62, 0xf3, 0x56, 0x20, 0x85, 0x52, 0xbb,
    0x9e, 0xd5, 0x29, 0x07, 0x70, 0x96, 0x96, 0x6d, 0x67, 0x0c, 0x35, 0x4e, 0x4a, 0xbc, 0x98, 0x04,
    0xf1, 0x74, 0x6c, 0x08, 0xca, 0x18, 0x21, 0x7c, 0x32, 0x90, 0x5e, 0x46, 0x2e, 0x36, 0xce, 0x3b,
    0xe3, 0x9e, 0x77, 0x2c, 0x18, 0x0e, 0x86, 0x03, 0x9b, 0x27, 0x83, 0xa2, 0xec, 0x07, 0xa2, 0x8f,
    0xb5, 0xc5, 0x5d, 0xf0, 0x6f, 0x4c, 0x52, 0xc9, 0xde, 0x2b, 0xcb, 0xf6, 0x95, 0x58, 0x17, 0x18,
    0x39, 0x95, 0x49, 0x7c, 0xea, 0x95, 0x6a, 0xe5, 0x15, 0xd2, 0x26, 0x18, 0x98, 0xfa, 0x05, 0x10,
    0x15, 0x72, 0x8e, 0x5a, 0x8a, 0xac, 0xaa, 0x68, 0xff, 0xff, 0xff, 0xff, 0xff, 0xff, 0xff, 0xff,
];

/// The longest input, in bytes, that one call of the cipher or of the key reader takes.
pub const CIPHER_LIMIT: usize = 0x7fff_ffff;

/// What HMAC with SHA-256 makes of a key and a message.
pub uninterp spec fn hmac_value(key: Seq<u8>, message: Seq<u8>) -> Seq<u8>;

/// What PBKDF2 with HMAC and SHA-256 derives from a password, a salt, a number
/// of rounds and a length.
pub uninterp spec fn pbkdf2_value(password: Seq<u8>, salt: Seq<u8>, rounds: u32, len: nat) -> Seq<
    u8,
>;

/// What AES-128 in CBC mode with padding makes of a key, an initial vector and
/// a plain text; nothing where it refuses them.
pub uninterp spec fn aes_encrypted(key: Seq<u8>, iv: Seq<u8>, data: Seq<u8>) -> Option<Seq<u8>>;

/// The plain text that AES-128 in CBC mode with padding finds under a key and an
/// initial vector; nothing where it refuses them.
pub uninterp spec fn aes_decrypted(key: Seq<u8>, iv: Seq<u8>, data: Seq<u8>) -> Option<Seq<u8>>;

/// Whether a signature is one that the private key in a PEM text gives for a
/// message under SHA-256.
pub uninterp spec fn signature_of(pem: Seq<char>, message: Seq<u8>, signature: Seq<u8>) -> bool;

/// Whether PEM bytes hold the private and the public part of one generated RSA
/// key of so many bits.
pub uninterp spec fn key_pair(bits: u32, private_pem: Seq<u8>, public_pem: Seq<u8>) -> bool;

/// `hmac::Hmac<sha2::Sha256>`: keyed (with a key of any length), fed the message
/// and finished; 32 bytes that depend on the key and the message alone.
#[verifier::external_body]
fn hmac_once(key: &[u8], message: &[u8]) -> (r: Vec<u8>)
    ensures
        r@ == hmac_value(key@, message@),
        r@.len() == 32,
{
    let mut mac = <hmac::Hmac<sha2::Sha256> as hmac::Mac>::new_from_slice(key).expect("any key");
    hmac::Mac::update(&mut mac, message);
    hmac::Mac::finalize(mac).into_bytes().to_vec()
}

/// `pbkdf2::pbkdf2_hmac` with SHA-256: as many bytes as asked for, which depend
/// on the arguments alone. (Its blocks are counted in 32 bits.)
#[verifier::external_body]
fn derive_key(password: &[u8], salt: &[u8], rounds: u32, len: usize) -> (r: Vec<u8>)
    requires
        len <= 0x7fff_ffff,
    ensures
        r@ == pbkdf2_value(password@, salt@, rounds, len as nat),
        r@.len() == len,
{
    let mut derived = vec![0_u8; len];
    pbkdf2::pbkdf2_hmac::<sha2::Sha256>(password, salt, rounds, &mut derived);
    derived
}

/// `num_bigint::BigUint::modpow` on numbers given and returned by their bytes,
/// without needless zeros at the front of what is returned.
/// (It panics on a modulus of zero, and does not reduce by one.)
#[verifier::external_body]
fn mod_pow(base: &[u8], exponent: &[u8], modulus: &[u8]) -> (r: Vec<u8>)
    requires
        be_value(modulus@) > 1,
    ensures
        be_value(r@) == pow(be_value(base@) as int, be_value(exponent@)) % be_value(modulus@) as int,
        r@.len() > 0,
        r@.len() > 1 ==> r@[0] != 0,
{
    let exponent = num_bigint::BigUint::from_bytes_be(exponent);
    let modulus = num_bigint::BigUint::from_bytes_be(modulus);
    num_bigint::BigUint::from_bytes_be(base).modpow(&exponent, &modulus).to_bytes_be()
}

/// `openssl::symm::encrypt` with AES-128 in CBC mode: the cipher text, which
/// depends on the arguments alone and which the same key and initial vector
/// decrypt to the data, padded from the data's length to the next multiple of a
/// block of 16 bytes; or the text of the error, of which nothing is said.
/// (It panics on an input beyond 31 bits of length.)
#[verifier::external_body]
fn aes_encrypt(key: &[u8], iv: &[u8], data: &[u8]) -> (r: Result<Vec<u8>, String>)
    requires
        key@.len() <= CIPHER_LIMIT,
        iv@.len() == 16,
        data@.len() <= CIPHER_LIMIT,
    ensures
        match r {
            Ok(sealed) => aes_encrypted(key@, iv@, data@) == Some(sealed@)
                && aes_decrypted(key@, iv@, sealed@) == Some(data@) && sealed@.len() == 16 * (
            data@.len() / 16 + 1),
            Err(_) => aes_encrypted(key@, iv@, data@) is None,
        },
{
    openssl::symm::encrypt(openssl::symm::Cipher::aes_128_cbc(), key, Some(iv), data).map_err(
        |e| e.to_string(),
    )
}

/// `openssl::symm::decrypt` with AES-128 in CBC mode: the plain text, or nothing
/// where it reports an error; both depend on the arguments alone. (It panics on
/// an input beyond 31 bits of length.)
#[verifier::external_body]
fn aes_decrypt(key: &[u8], iv: &[u8], data: &[u8]) -> (r: Option<Vec<u8>>)
    requires
        key@.len() <= CIPHER_LIMIT,
        iv@.len() == 16,
        data@.len() <= CIPHER_LIMIT,
    ensures
        aes_decrypted(key@, iv@, data@) == match r {
            Some(opened) => Some(opened@),
            None => None,
        },
{
    openssl::symm::decrypt(openssl::symm::Cipher::aes_128_cbc(), key, Some(iv), data).ok()
}

/// `rand::rngs::OsRng`: bytes from the system's random source, or the text of
/// its error. Only their number is known. (A `Vec` of more bytes panics.)
#[verifier::external_body]
pub(crate) fn random_bytes(len: usize) -> (r: Result<Vec<u8>, String>)
    requires
        len <= isize::MAX,
    ensures
        r matches Ok(data) ==> data@.len() == len,
{
    let mut data = vec![0_u8; len];
    rand::RngCore::try_fill_bytes(&mut rand::rngs::OsRng, &mut data).map_err(|e| e.to_string())?;
    Ok(data)
}

/// A version 4 UUID made of 16 bytes: six of their bits are fixed.
pub open spec fn uuid_of(data: Seq<u8>) -> Seq<char> {
    let b = data.update(6, (data[6] % 16 + 64) as u8).update(8, (data[8] % 64 + 128) as u8);
    hex(b.subrange(0, 4)).push('-') + hex(b.subrange(4, 6)).push('-') + hex(b.subrange(6, 8)).push(
        '-',
    ) + hex(b.subrange(8, 10)).push('-') + hex(b.subrange(10, 16))
}

/// `uuid::Builder::from_random_bytes`: the bytes as a version 4 UUID, written in
/// lower case hexadecimal with hyphens.
#[verifier::external_body]
pub(crate) fn uuid_text(data: &[u8; 16]) -> (r: String)
    ensures
        r@ == uuid_of(data@),
{
    uuid::Builder::from_random_bytes(*data).into_uuid().to_string()
}

/// Why no key pair could be made.
pub enum KeyFailure {
    Generate(String),
    PrivatePem(String),
    PublicPem(String),
}

/// `openssl::rsa::Rsa::generate`, written by `private_key_to_pem` and
/// `public_key_to_pem`: a fresh key pair as PEM bytes, private part first, or
/// the text of the error of the step that failed. Which key it is rests on chance.
#[verifier::external_body]
pub(crate) fn generate_key(bits: u32) -> (r: Result<(Vec<u8>, Vec<u8>), KeyFailure>)
    requires
        512 <= bits <= 16384,
    ensures
        r matches Ok(made) ==> key_pair(bits, made.0@, made.1@),
{
    let rsa = openssl::rsa::Rsa::generate(bits).map_err(|e| KeyFailure::Generate(e.to_string()))?;
    let private = rsa.private_key_to_pem().map_err(|e| KeyFailure::PrivatePem(e.to_string()))?;
    let public = rsa.public_key_to_pem().map_err(|e| KeyFailure::PublicPem(e.to_string()))?;
    Ok((private, public))
}

/// Why a message could not be signed.
pub enum SignFailure {
    Key(String),
    Init(String),
    Update(String),
    Sign(String),
}

/// `openssl::sign::Signer` with SHA-256 and the private key of a PEM text: a
/// signature of the message, or the text of the error of the step that failed.
/// A key may give different signatures of one message. (It panics on a PEM text
/// beyond 31 bits of length, and asks at the terminal for the passphrase of a
/// protected key.)
#[verifier::external_body]
fn sign_message(pem: &str, message: &[u8]) -> (r: Result<Vec<u8>, SignFailure>)
    requires
        vstd::utf8::encode_utf8(pem@).len() <= CIPHER_LIMIT,
    ensures
        r matches Ok(signature) ==> signature_of(pem@, message@, signature@),
{
    let key = openssl::pkey::PKey::private_key_from_pem(pem.as_bytes()).map_err(
        |e| SignFailure::Key(e.to_string()),
    )?;
    let mut signer = openssl::sign::Signer::new(openssl::hash::MessageDigest::sha256(), &key).map_err(
        |e| SignFailure::Init(e.to_string()),
    )?;
    signer.update(message).map_err(|e| SignFailure::Update(e.to_string()))?;
    signer.sign_to_vec().map_err(|e| SignFailure::Sign(e.to_string()))
}

/// HMAC with SHA-256 of several byte strings in a row.
pub fn hmac_sha256(key: &[u8], parts: &Vec<&[u8]>) -> (r: Vec<u8>)
    ensures
        r@ == hmac_value(key@, concat(slices(parts@))),
        r@.len() == 32,
{
    let message = concat_bytes(parts);
    hmac_once(key, message.as_slice())
}

/// A message followed by the first bytes of its HMAC.
pub open spec fn tagged(data: Seq<u8>, auth_key: Seq<u8>) -> Seq<u8> {
    data + hmac_value(auth_key, data).take(8)
}

/// A message under both pairing keys: tagged, encrypted, and followed by the
/// initial vector. Nothing where it is too long or the cipher refuses the key.
pub open spec fn wrapped(
    data: Seq<u8>,
    auth_key: Seq<u8>,
    key_wrap_key: Seq<u8>,
    iv: Seq<u8>,
) -> Option<Seq<u8>> {
    if data.len() + 8 > CIPHER_LIMIT || key_wrap_key.len() > CIPHER_LIMIT {
        None
    } else {
        match aes_encrypted(key_wrap_key, iv, tagged(data, auth_key)) {
            Some(sealed) => Some(sealed + iv),
            None => None,
        }
    }
}

/// The message inside wrapped bytes; refused where they are too short or too
/// long, do not decrypt, or carry a tag that is not the message's.
pub open spec fn unwrapped(data: Seq<u8>, auth_key: Seq<u8>, key_wrap_key: Seq<u8>) -> Result<
    Seq<u8>,
    ErrorView,
> {
    let cut = data.len() - 16;
    if cut < 0 || cut > CIPHER_LIMIT || key_wrap_key.len() > CIPHER_LIMIT {
        Err(ErrorView::AuthFailed)
    } else {
        match aes_decrypted(key_wrap_key, data.skip(cut), data.take(cut)) {
            None => Err(ErrorView::AuthFailed),
            Some(opened) => {
                let end = opened.len() - 8;
                if end < 0 || opened != tagged(opened.take(end), auth_key) {
                    Err(ErrorView::AuthFailed)
                } else {
                    Ok(opened.take(end))
                }
            },
        }
    }
}

/// Whether a failure of wrapping is told as such.
pub open spec fn is_wrap_failure(e: ErrorView) -> bool {
    is_told(e, "wrap encrypt failed: "@)
}

/// Whether a failure of the system's random source is told as such.
pub open spec fn is_random_failure(e: ErrorView) -> bool {
    is_told(e, "random source failed: "@)
}

/// How many bytes a wrapped message of `len` bytes has: the message and its tag
/// in whole blocks with padding, and the initial vector.
pub open spec fn wrapped_len(len: nat) -> nat {
    16 * ((len + 8) / 16 + 1) + 16
}

/// Wraps a message under both pairing keys with the given initial vector. What
/// is wrapped can be unwrapped with the same keys, and its length depends on the
/// message's length alone.
pub fn wrap_with_iv(data: &[u8], auth_key: &[u8], key_wrap_key: &[u8], iv: &[u8]) -> (r: Result<
    Vec<u8>,
    RustProviderError,
>)
    requires
        iv@.len() == 16,
    ensures
        match r {
            Ok(out) => wrapped(data@, auth_key@, key_wrap_key@, iv@) == Some(out@) && out@.len()
                == wrapped_len(data@.len()) && (data@.len() + 24 <= CIPHER_LIMIT ==> unwrapped(
                out@,
                auth_key@,
                key_wrap_key@,
            ) == Ok::<Seq<u8>, ErrorView>(data@)),
            Err(e) => wrapped(data@, auth_key@, key_wrap_key@, iv@) is None && is_wrap_failure(
                e.deep_view(),
            ),
        },
{
    if data.len() > CIPHER_LIMIT - 8 || key_wrap_key.len() > CIPHER_LIMIT {
        assert(is_wrap_failure(ErrorView::Internal("wrap encrypt failed: "@ + "input too long"@)));
        return Err(RustProviderError::Internal(cat2("wrap encrypt failed: ", "input too long")));
    }
    let tag = hmac_once(auth_key, data);
    let mut payload = copy_bytes(data);
    append(&mut payload, slice_bytes(tag.as_slice(), 0, 8).as_slice());
    proof {
        assert(tag@.subrange(0, 8) =~= tag@.take(8));
        assert(payload@ == tagged(data@, auth_key@));
    }
    match aes_encrypt(key_wrap_key, iv, payload.as_slice()) {
        Ok(sealed) => {
            let mut out = copy_bytes(sealed.as_slice());
            append(&mut out, iv);
            proof {
                let cut = out@.len() - 16;
                assert(out@.take(cut) =~= sealed@);
                assert(out@.skip(cut) =~= iv@);
                assert(payload@.take(payload@.len() - 8) =~= data@);
            }
            Ok(out)
        },
        Err(e) => {
            assert(is_wrap_failure(ErrorView::Internal("wrap encrypt failed: "@ + e@)));
            Err(RustProviderError::Internal(cat2("wrap encrypt failed: ", e.as_str())))
        },
    }
}

/// Wraps a message under both pairing keys with a fresh initial vector.
pub fn wrap(data: &[u8], auth_key: &[u8], key_wrap_key: &[u8]) -> (r: Result<
    Vec<u8>,
    RustProviderError,
>)
    ensures
        r matches Ok(out) ==> exists|iv: Seq<u8>|
            iv.len() == 16 && #[trigger] wrapped(data@, auth_key@, key_wrap_key@, iv) == Some(out@),
        r matches Ok(out) ==> (data@.len() + 24 <= CIPHER_LIMIT ==> unwrapped(
            out@,
            auth_key@,
            key_wrap_key@,
        ) == Ok::<Seq<u8>, ErrorView>(data@)),
        r matches Ok(out) ==> out@.len() == wrapped_len(data@.len()),
        r matches Err(e) ==> is_random_failure(e.deep_view()) || is_wrap_failure(e.deep_view()),
{
    let iv = fresh_bytes(16)?;
    wrap_with_iv(data, auth_key, key_wrap_key, iv.as_slice())
}

/// Bytes from the system's random source.
pub fn fresh_bytes(len: usize) -> (r: Result<Vec<u8>, RustProviderError>)
    requires
        len <= isize::MAX,
    ensures
        r matches Ok(data) ==> data@.len() == len,
        r matches Err(e) ==> is_random_failure(e.deep_view()),
{
    match random_bytes(len) {
        Ok(data) => Ok(data),
        Err(e) => {
            assert(is_random_failure(ErrorView::Internal("random source failed: "@ + e@)));
            Err(RustProviderError::Internal(cat2("random source failed: ", e.as_str())))
        },
    }
}

/// The message inside wrapped bytes.
pub fn unwrap(data: &[u8], auth_key: &[u8], key_wrap_key: &[u8]) -> (r: Result<
    Vec<u8>,
    RustProviderError,
>)
    ensures
        crate::bytes::bytes_outcome(r) == unwrapped(data@, auth_key@, key_wrap_key@),
{
    if data.len() < 16 {
        return Err(RustProviderError::AuthFailed);
    }
    let cut: usize = data.len() - 16;
    if cut > CIPHER_LIMIT || key_wrap_key.len() > CIPHER_LIMIT {
        return Err(RustProviderError::AuthFailed);
    }
    let sealed = slice_bytes(data, 0, cut);
    let iv = slice_bytes(data, cut, data.len());
    proof {
        assert(sealed@ =~= data@.take(cut as int));
        assert(iv@ =~= data@.skip(cut as int));
    }
    let opened = match aes_decrypt(key_wrap_key, iv.as_slice(), sealed.as_slice()) {
        Some(opened) => opened,
        None => {
            return Err(RustProviderError::AuthFailed);
        },
    };
    if opened.len() < 8 {
        return Err(RustProviderError::AuthFailed);
    }
    let end: usize = opened.len() - 8;
    let body = slice_bytes(opened.as_slice(), 0, end);
    let tag = slice_bytes(opened.as_slice(), end, opened.len());
    let expected = slice_bytes(hmac_once(auth_key, body.as_slice()).as_slice(), 0, 8);
    proof {
        assert(body@ =~= opened@.take(end as int));
        let full = hmac_value(auth_key@, body@);
        assert(expected@ =~= full.take(8));
        assert(opened@ =~= body@ + tag@);
        if opened@ == tagged(body@, auth_key@) {
            assert(tag@ =~= expected@) by {
                assert(tagged(body@, auth_key@).skip(end as int) =~= expected@);
                assert(opened@.skip(end as int) =~= tag@);
            }
        }
    }
    if !same_bytes(tag.as_slice(), expected.as_slice()) {
        return Err(RustProviderError::AuthFailed);
    }
    Ok(body)
}

/// The modulus of the key exchange.
pub open spec fn dh_prime() -> nat {
    be_value(DH_PRIME@)
}

/// The value that a secret gives to the other side: two to the secret, reduced.
pub open spec fn dh_public_value(secret: nat) -> nat {
    (pow(2, secret) % (dh_prime() as int)) as nat
}

/// The value that both sides get: the other side's value to the secret, reduced.
pub open spec fn dh_shared_value(public: nat, secret: nat) -> nat {
    (pow(public as int, secret) % (dh_prime() as int)) as nat
}

/// The modulus is more than one.
pub proof fn dh_prime_is_large()
    ensures
        dh_prime() > 1,
{
    assert(DH_PRIME@[0] == 0xff);
    be_value_at_least_first(DH_PRIME@);
}

/// Both sides of a key exchange get the same value.
pub proof fn dh_agreement(a: nat, b: nat)
    ensures
        dh_shared_value(dh_public_value(a), b) == dh_shared_value(dh_public_value(b), a),
{
    dh_prime_is_large();
    let p = dh_prime() as int;
    vstd::arithmetic::power::lemma_pow_positive(2, a);
    vstd::arithmetic::power::lemma_pow_positive(2, b);
    vstd::arithmetic::power::lemma_pow_mod_noop(pow(2, a), b, p);
    vstd::arithmetic::power::lemma_pow_mod_noop(pow(2, b), a, p);
    vstd::arithmetic::power::lemma_pow_multiplies(2, a, b);
    vstd::arithmetic::power::lemma_pow_multiplies(2, b, a);
    assert(a * b == b * a) by (nonlinear_arith);
}

/// The bytes that a secret gives to the other side: a zero byte and the value.
pub open spec fn dh_public_bytes(secret: Seq<u8>) -> Seq<u8> {
    seq![0u8] + crate::bytes::be_bytes(dh_public_value(be_value(secret)), 256)
}

/// The bytes that both sides get.
pub open spec fn dh_shared_bytes(public: Seq<u8>, secret: Seq<u8>) -> Seq<u8> {
    crate::bytes::be_bytes(dh_shared_value(be_value(public), be_value(secret)), 256)
}

/// Both sides of a key exchange get the same bytes out of the bytes they exchange.
pub proof fn dh_bytes_agreement(a: Seq<u8>, b: Seq<u8>)
    ensures
        dh_shared_bytes(dh_public_bytes(a), b) == dh_shared_bytes(dh_public_bytes(b), a),
{
    dh_public_roundtrip(a);
    dh_public_roundtrip(b);
    dh_agreement(be_value(a), be_value(b));
}

proof fn dh_public_roundtrip(a: Seq<u8>)
    ensures
        be_value(dh_public_bytes(a)) == dh_public_value(be_value(a)),
{
    let n = dh_public_value(be_value(a));
    dh_prime_is_large();
    crate::bytes::be_value_bound(DH_PRIME@);
    vstd::arithmetic::power::lemma_pow_positive(2, be_value(a));
    crate::bytes::be_roundtrip(n, 256);
    assert(n < dh_prime());
    vstd::arithmetic::div_mod::lemma_small_mod(n, pow(256, 256) as nat);
    crate::bytes::be_value_zero_front(crate::bytes::be_bytes(n, 256));
}

/// The bytes that a secret gives to the other side.
pub fn dh_public(secret: &[u8]) -> (r: Vec<u8>)
    ensures
        r@ == dh_public_bytes(secret@),
        r@.len() == 257,
{
    proof {
        dh_prime_is_large();
        two_as_bytes();
    }
    let two: Vec<u8> = vec![2u8];
    assert(two@ =~= seq![2u8]);
    let raised = mod_pow(two.as_slice(), secret, DH_PRIME.as_slice());
    let mut out: Vec<u8> = vec![0u8];
    assert(out@ =~= seq![0u8]);
    append(&mut out, crate::bytes::to_fixed_len(raised.as_slice(), 256).as_slice());
    out
}

proof fn two_as_bytes()
    ensures
        be_value(seq![2u8]) == 2,
{
    assert(seq![2u8].drop_last() =~= Seq::<u8>::empty());
    assert(be_value(Seq::<u8>::empty()) == 0);
}

/// The bytes that both sides of a key exchange get.
pub fn dh_shared(public: &[u8], secret: &[u8]) -> (r: Vec<u8>)
    ensures
        r@ == dh_shared_bytes(public@, secret@),
        r@.len() == 256,
{
    proof {
        dh_prime_is_large();
    }
    let raised = mod_pow(public, secret, DH_PRIME.as_slice());
    crate::bytes::to_fixed_len(raised.as_slice(), 256)
}

/// The two keys of a pairing, one after the other: 32 bytes that authenticate
/// and 16 that encrypt.
pub open spec fn pairing_keys(shared: Seq<u8>, salt: Seq<u8>) -> Seq<u8> {
    pbkdf2_value(shared, salt, 10_000, 48)
}

/// Derives the two keys of a pairing.
pub fn derive_pairing_keys(shared: &[u8], salt: &[u8]) -> (r: (Vec<u8>, Vec<u8>))
    ensures
        r.0@ == pairing_keys(shared@, salt@).take(32),
        r.1@ == pairing_keys(shared@, salt@).skip(32),
        r.0@.len() == 32,
        r.1@.len() == 16,
{
    let derived = derive_key(shared, salt, 10_000, 48);
    let auth_key = slice_bytes(derived.as_slice(), 0, 32);
    let key_wrap_key = slice_bytes(derived.as_slice(), 32, 48);
    assert(auth_key@ =~= derived@.take(32));
    assert(key_wrap_key@ =~= derived@.skip(32));
    (auth_key, key_wrap_key)
}

/// Whether an answer is the base64 text of a signature of `nonce`.
pub open spec fn is_signed_nonce(pem: Seq<char>, nonce: Seq<char>, answer: Seq<char>) -> bool {
    exists|signature: Seq<u8>|
        #[trigger] signature_of(pem, vstd::utf8::encode_utf8(nonce), signature) && answer
            == crate::bytes::base64(signature)
}

/// Whether a failure tells that a step of signing failed.
pub open spec fn is_sign_failure(e: ErrorView) -> bool {
    ||| is_told(e, "private key parse failed: "@)
    ||| is_told(e, "signer init failed: "@)
    ||| is_told(e, "signer update failed: "@)
    ||| is_told(e, "sign failed: "@)
}

/// The failure that tells which step of signing failed, and why.
pub fn sign_failure(failure: SignFailure) -> (r: RustProviderError)
    ensures
        r.deep_view() == ErrorView::Internal(
            match failure {
                SignFailure::Key(e) => "private key parse failed: "@ + e@,
                SignFailure::Init(e) => "signer init failed: "@ + e@,
                SignFailure::Update(e) => "signer update failed: "@ + e@,
                SignFailure::Sign(e) => "sign failed: "@ + e@,
            },
        ),
        is_sign_failure(r.deep_view()),
{
    let message = match failure {
        SignFailure::Key(e) => cat2("private key parse failed: ", e.as_str()),
        SignFailure::Init(e) => cat2("signer init failed: ", e.as_str()),
        SignFailure::Update(e) => cat2("signer update failed: ", e.as_str()),
        SignFailure::Sign(e) => cat2("sign failed: ", e.as_str()),
    };
    RustProviderError::Internal(message)
}

/// Signs a nonce with the private key of a PEM text; the signature in base64. A
/// text that is too long for the key reader is refused as one that holds no key.
pub fn sign_nonce_rsa_sha256_base64(private_key_pem: &str, nonce: &str) -> (r: Result<
    String,
    RustProviderError,
>)
    ensures
        r matches Ok(answer) ==> is_signed_nonce(private_key_pem@, nonce@, answer@),
        r matches Err(e) ==> is_sign_failure(e.deep_view()),
        vstd::utf8::encode_utf8(private_key_pem@).len() > CIPHER_LIMIT ==> (r matches Err(e)
            && e.deep_view() == ErrorView::Internal("private key parse failed: "@ + "input too long"@)),
{
    if private_key_pem.as_bytes().len() > CIPHER_LIMIT {
        return Err(sign_failure(SignFailure::Key("input too long".to_owned())));
    }
    match sign_message(private_key_pem, nonce.as_bytes()) {
        Ok(signature) => Ok(crate::bytes::b64(signature.as_slice())),
        Err(failure) => Err(sign_failure(failure)),
    }
}

/// What is unwrapped was sealed with its own tag under the key that authenticates:
/// nothing else opens.
pub proof fn opened_message_is_authentic(data: Seq<u8>, auth_key: Seq<u8>, key_wrap_key: Seq<u8>)
    requires
        unwrapped(data, auth_key, key_wrap_key) is Ok,
    ensures
        ({
            let message = unwrapped(data, auth_key, key_wrap_key)->Ok_0;
            let cut = data.len() - 16;
            &&& cut >= 0
            &&& aes_decrypted(key_wrap_key, data.skip(cut), data.take(cut)) == Some(
                message + hmac_value(auth_key, message).take(8),
            )
        }),
{
}

} // verus!
