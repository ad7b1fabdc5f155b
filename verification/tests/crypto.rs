use digital_paper::bytes::{b64, decode_base64_bytes, decode_base64_text, quote_plus, to_fixed_len};
use digital_paper::crypto::{
    derive_pairing_keys, dh_public, dh_shared, fresh_bytes, hmac_sha256,
    sign_nonce_rsa_sha256_base64, unwrap, wrap, wrap_with_iv, DH_PRIME,
};
use digital_paper::errors::RustProviderError;
use digital_paper::pairing::{credentials_of, fresh_credentials, id_of};

fn hex(data: &[u8]) -> String {
    data.iter().map(|b| format!("{:02x}", b)).collect()
}

#[test]
fn base64_is_the_standard_alphabet_with_padding() {
    assert_eq!(b64(b""), "");
    assert_eq!(b64(b"f"), "Zg==");
    assert_eq!(b64(b"fo"), "Zm8=");
    assert_eq!(b64(b"foo"), "Zm9v");
    assert_eq!(b64(b"foobar"), "Zm9vYmFy");
    assert_eq!(b64(&[0xfb, 0xff, 0xfe]), "+//+");
}

#[test]
fn base64_reads_back_what_it_wrote() {
    for n in 0..70usize {
        let data: Vec<u8> = (0..n).map(|i| (i * 37 + n) as u8).collect();
        assert_eq!(decode_base64_bytes(&b64(&data)).unwrap(), data);
    }
    assert_eq!(decode_base64_text(&b64("Wöhnung".as_bytes())), Some("Wöhnung".to_string()));
}

#[test]
fn base64_failures_are_told() {
    match decode_base64_bytes("!!") {
        Err(RustProviderError::Internal(message)) => {
            assert_eq!(message, "base64 decode failed: Invalid symbol 33, offset 0.");
        }
        other => panic!("{:?}", other),
    }
    assert_eq!(decode_base64_text("!!"), None);
    assert_eq!(decode_base64_text(&b64(&[0xff, 0xfe])), None);
}

#[test]
fn paths_are_quoted() {
    assert_eq!(
        quote_plus("Document/Meeting Notes.pdf"),
        "Document%2FMeeting+Notes%2Epdf"
    );
    assert_eq!(quote_plus("a+b%20c"), "a%2Bb%2520c");
    assert_eq!(quote_plus("é"), "%C3%A9");
    assert_ne!(quote_plus("a b"), quote_plus("a+b"));
    let path = "Document/ a + b/100% é 日本.pdf ";
    let quoted = quote_plus(path);
    assert_eq!(
        quoted.chars().filter(|c| *c == '+').count(),
        path.chars().filter(|c| *c == ' ').count()
    );
    let spaced = quoted.replace('+', " ");
    assert_eq!(
        percent_encoding::percent_decode_str(&spaced).decode_utf8().unwrap(),
        path
    );
    assert!(quote_plus("x/y z?&#").chars().all(|c| c.is_ascii_alphanumeric() || c == '%' || c == '+'));
}

#[test]
fn fixed_length_numbers() {
    assert_eq!(to_fixed_len(&[1, 2], 4), vec![0, 0, 1, 2]);
    assert_eq!(to_fixed_len(&[1, 2, 3], 2), vec![2, 3]);
    assert_eq!(to_fixed_len(&[], 2), vec![0, 0]);
    assert_eq!(to_fixed_len(&[9], 0), Vec::<u8>::new());
}

#[test]
fn hmac_is_over_all_parts_in_a_row() {
    let whole: Vec<&[u8]> = vec![b"The quick brown fox jumps over the lazy dog"];
    let parts: Vec<&[u8]> = vec![b"The quick brown fox ", b"", b"jumps over the lazy dog"];
    let expected = "f7bc83f430538424b13298e6aa6fb143ef4d59a14946175997479dbc2d1a3cd8";
    assert_eq!(hex(&hmac_sha256(b"key", &whole)), expected);
    assert_eq!(hex(&hmac_sha256(b"key", &parts)), expected);
}

#[test]
fn pairing_keys_are_derived_in_ten_thousand_rounds() {
    let (auth_key, key_wrap_key) = derive_pairing_keys(b"shared", b"salt");
    let mut expected = [0_u8; 48];
    pbkdf2::pbkdf2_hmac::<sha2::Sha256>(b"shared", b"salt", 10_000, &mut expected);
    assert_eq!(auth_key, expected[..32].to_vec());
    assert_eq!(key_wrap_key, expected[32..].to_vec());
    assert_ne!(auth_key, b"shared".to_vec());
}

#[test]
fn the_prime_is_that_of_the_2048_bit_group() {
    let text = "FFFFFFFFFFFFFFFFC90FDAA22168C234C4C6628B80DC1CD129024E088A67CC74020BBEA63B139B22514A08798E3404DDEF9519B3CD3A431B302B0A6DF25F14374FE1356D6D51C245E485B576625E7EC6F44C42E9A637ED6B0BFF5CB6F406B7EDEE386BFB5A899FA5AE9F24117C4B1FE649286651ECE45B3DC2007CB8A163BF0598DA48361C55D39A69163FA8FD24CF5F83655D23DCA3AD961C62F356208552BB9ED529077096966D670C354E4ABC9804F1746C08CA18217C32905E462E36CE3BE39E772C180E86039B2783A2EC07A28FB5C55DF06F4C52C9DE2BCBF6955817183995497CEA956AE515D2261898FA051015728E5A8AACAA68FFFFFFFFFFFFFFFF";
    assert_eq!(hex(&DH_PRIME).to_uppercase(), text);
}

#[test]
fn key_exchange_values() {
    let mut expected = vec![0_u8; 257];
    expected[256] = 8;
    assert_eq!(dh_public(&[3]), expected);
    let mut shared = vec![0_u8; 256];
    shared[255] = 125;
    assert_eq!(dh_shared(&[5], &[0, 3]), shared);
}

#[test]
fn both_sides_of_a_key_exchange_agree() {
    let ours: Vec<u8> = (0..32).map(|i| (i * 7 + 1) as u8).collect();
    let theirs: Vec<u8> = (0..32).map(|i| (200 - i) as u8).collect();
    let a = dh_shared(&dh_public(&theirs), &ours);
    let b = dh_shared(&dh_public(&ours), &theirs);
    assert_eq!(a, b);
    assert_eq!(a.len(), 256);
}

#[test]
fn wrapped_bytes_are_cipher_text_and_initial_vector() {
    let auth_key = [7_u8; 32];
    let key = [9_u8; 16];
    let iv = [3_u8; 16];
    let wrapped = wrap_with_iv(b"payload", &auth_key, &key, &iv).unwrap();
    let parts: Vec<&[u8]> = vec![b"payload"];
    let mut plain = b"payload".to_vec();
    plain.extend_from_slice(&hmac_sha256(&auth_key, &parts)[..8]);
    let mut expected = openssl::symm::encrypt(
        openssl::symm::Cipher::aes_128_cbc(),
        &key,
        Some(&iv),
        &plain,
    )
    .unwrap();
    expected.extend_from_slice(&iv);
    assert_eq!(wrapped, expected);
}

#[test]
fn unwrapping_undoes_wrapping() {
    let auth_key = [1_u8; 32];
    let key = [2_u8; 16];
    for n in [0_usize, 1, 8, 15, 16, 17, 300] {
        let data: Vec<u8> = (0..n).map(|i| i as u8).collect();
        let wrapped = wrap(&data, &auth_key, &key).unwrap();
        assert_ne!(wrapped, data);
        assert_eq!(wrapped.len(), 16 * ((n + 8) / 16 + 1) + 16);
        assert_eq!(unwrap(&wrapped, &auth_key, &key).unwrap(), data);
    }
}

#[test]
fn tampered_bytes_are_refused() {
    let auth_key = [1_u8; 32];
    let key = [2_u8; 16];
    let wrapped = wrap(b"some secret text", &auth_key, &key).unwrap();
    for i in 0..wrapped.len() {
        let mut bad = wrapped.clone();
        bad[i] ^= 1;
        assert!(matches!(
            unwrap(&bad, &auth_key, &key),
            Err(RustProviderError::AuthFailed)
        ));
    }
    assert!(matches!(
        unwrap(&wrapped[..15], &auth_key, &key),
        Err(RustProviderError::AuthFailed)
    ));
    assert!(matches!(
        unwrap(&wrapped[..16], &auth_key, &key),
        Err(RustProviderError::AuthFailed)
    ));
    assert!(matches!(
        unwrap(&wrapped, &[5_u8; 32], &key),
        Err(RustProviderError::AuthFailed)
    ));
}

#[test]
fn keys_of_a_wrong_length_are_refused() {
    match wrap_with_iv(b"x", &[1], &[1, 2, 3], &[0_u8; 16]) {
        Err(RustProviderError::Internal(message)) => {
            assert!(message.starts_with("wrap encrypt failed: "), "{}", message);
        }
        other => panic!("{:?}", other),
    }
    assert!(matches!(
        unwrap(&[0_u8; 48], &[1], &[1, 2, 3]),
        Err(RustProviderError::AuthFailed)
    ));
}

#[test]
fn random_bytes_come_in_the_length_asked_for() {
    let a = fresh_bytes(32).unwrap();
    let b = fresh_bytes(32).unwrap();
    assert_eq!(a.len(), 32);
    assert_eq!(b.len(), 32);
    assert_ne!(a, b);
    assert_eq!(fresh_bytes(0).unwrap(), Vec::<u8>::new());
}

#[test]
fn client_names_are_random_uuids() {
    let id: [u8; 16] = [
        0x00, 0x11, 0x22, 0x33, 0x44, 0x55, 0xf6, 0x77, 0xff, 0x99, 0xaa, 0xbb, 0xcc, 0xdd, 0xee,
        0x0f,
    ];
    assert_eq!(id_of(&id), id);
    let made = credentials_of(&id, b"PEM".to_vec(), b"PUB".to_vec()).unwrap();
    assert_eq!(made.client_id, "00112233-4455-4677-bf99-aabbccddee0f");
    assert_eq!(made.private_key, "PEM");
    assert_eq!(made.public_key, b"PUB".to_vec());
    match credentials_of(&id, vec![0xff], Vec::new()) {
        Err(RustProviderError::Internal(message)) => {
            assert_eq!(
                message,
                "pem utf8 failed: invalid utf-8 sequence of 1 bytes from index 0"
            );
        }
        _ => panic!("not text"),
    }
}

#[test]
fn fresh_credentials_hold_a_key_pair() {
    let made = fresh_credentials().unwrap();
    assert_eq!(made.client_id.len(), 36);
    assert_ne!(made.client_id, fresh_credentials().unwrap().client_id);
    let key = openssl::pkey::PKey::private_key_from_pem(made.private_key.as_bytes()).unwrap();
    assert_eq!(key.bits(), 2048);
    assert_eq!(key.public_key_to_pem().unwrap(), made.public_key);
}

#[test]
fn nonces_are_signed_with_the_private_key() {
    let rsa = openssl::rsa::Rsa::generate(1024).unwrap();
    let key = openssl::pkey::PKey::from_rsa(rsa).unwrap();
    let pem = String::from_utf8(key.private_key_to_pem_pkcs8().unwrap()).unwrap();
    let answer = sign_nonce_rsa_sha256_base64(&pem, "nonce").unwrap();
    let signature = decode_base64_bytes(&answer).unwrap();
    let mut verifier =
        openssl::sign::Verifier::new(openssl::hash::MessageDigest::sha256(), &key).unwrap();
    verifier.update(b"nonce").unwrap();
    assert!(verifier.verify(&signature).unwrap());
}

#[test]
fn a_key_that_is_no_key_cannot_sign() {
    match sign_nonce_rsa_sha256_base64("not a key", "nonce") {
        Err(RustProviderError::Internal(message)) => {
            assert!(message.starts_with("private key parse failed: "), "{}", message);
        }
        other => panic!("{:?}", other),
    }
}
