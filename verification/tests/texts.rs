use digital_paper::domain::{BridgeError, BridgeErrorCode, DEFAULT_DEVICE_HOST, USB_FALLBACK_ADDR};
use digital_paper::errors::{map_rust_error, RustProviderError};
use digital_paper::numbers::{number_text, parse_number};
use digital_paper::order::{comes_before, insert_ordered};
use digital_paper::paths::{basename, parent_path, path_inside};
use digital_paper::text::{
    contains, has_char, is_blank, join, replace_char, same, split, starts_with, strip_prefix,
    to_lower, trim, trim_both_of, trim_end_of,
};
use digital_paper::tui::state::control;

#[test]
fn trimming_agrees_with_the_unicode_white_space_of_every_character() {
    for c in '\u{0}'..=char::MAX {
        let text = c.to_string();
        assert_eq!(trim(&text).is_empty(), c.is_whitespace(), "{:?}", c);
    }
}

#[test]
fn control_agrees_with_every_character() {
    for c in '\u{0}'..=char::MAX {
        assert_eq!(control(c), c.is_control());
    }
}

#[test]
fn trimming_keeps_what_is_inside() {
    assert_eq!(trim("  a b\t\n"), "a b");
    assert_eq!(trim("\u{3000}x\u{a0}"), "x");
    assert_eq!(trim(" \n"), "");
    assert_eq!(trim_end_of("Document//", '/'), "Document");
    assert_eq!(trim_end_of("///", '/'), "");
    assert_eq!(trim_end_of("/a", '/'), "/a");
    assert_eq!(trim_both_of("\"\"quoted\"", '"'), "quoted");
}

#[test]
fn splitting_and_joining_are_inverse() {
    for text in ["", "a", ",", "a,b", ",a,,b,", "é,ü"] {
        let parts = split(text, ',');
        let expected: Vec<String> = text.split(',').map(|s| s.to_string()).collect();
        assert_eq!(parts, expected);
        assert_eq!(join(&parts, ","), text);
    }
    assert_eq!(join(&vec![], ", "), "");
}

#[test]
fn searching_in_texts() {
    assert!(contains("error: 503 Service Unavailable", "503 Service"));
    assert!(contains("abc", ""));
    assert!(!contains("ab", "abc"));
    assert!(contains("aab", "ab"));
    assert!(starts_with("172.25.47.9", "172.25.47."));
    assert!(!starts_with("172.25.4", "172.25.47."));
    assert_eq!(strip_prefix("Credentials=x", "Credentials="), Some("x".to_string()));
    assert_eq!(strip_prefix("credentials=x", "Credentials="), None);
    assert!(has_char("a:b", ':'));
    assert!(!has_char("ab", ':'));
    assert!(is_blank(""));
    assert!(!is_blank(" "));
    assert!(same("ü", "ü"));
    assert_eq!(replace_char("a\\b\\c", '\\', '/'), "a/b/c");
    assert_eq!(to_lower("DPT-RP1 ÄÖ"), "dpt-rp1 ÄÖ");
}

#[test]
fn numbers_agree_with_the_standard_library() {
    for text in [
        "", "+", "-", "0", "00", "7", "+7", "-7", "255", "256", "18446744073709551615",
        "18446744073709551616", "99999999999999999999", "1a", " 1", "12.5", "٣",
    ] {
        assert_eq!(parse_number(text, u64::MAX), text.parse::<u64>().ok(), "{:?}", text);
        assert_eq!(
            parse_number(text, 255),
            text.parse::<u8>().ok().map(u64::from),
            "{:?}",
            text
        );
    }
    for n in [0, 9, 10, 65535, 1234567890, u64::MAX] {
        assert_eq!(number_text(n), n.to_string());
        assert_eq!(parse_number(&number_text(n), u64::MAX), Some(n));
    }
}

#[test]
fn ordered_lists_have_no_repeats() {
    let mut list = Vec::new();
    for item in ["b", "a", "é", "b", "", "ab"] {
        insert_ordered(&mut list, item.to_string());
    }
    assert_eq!(list, vec!["", "a", "ab", "b", "é"]);
    for a in &list {
        for b in &list {
            assert_eq!(comes_before(a, b), a < b);
        }
    }
}

#[test]
fn paths_are_cut_at_the_last_slash() {
    assert_eq!(parent_path("a/b/"), "a/b");
    assert_eq!(basename("a/b/"), "");
    assert_eq!(basename("a/b"), "b");
    assert_eq!(basename("b"), "b");
    assert_eq!(parent_path("/x"), "");
    assert_eq!(path_inside("Document/", "x.pdf"), "Document/x.pdf");
    assert_eq!(path_inside("", "x.pdf"), "/x.pdf");
    let put = path_inside("Document/Daily//", "n.pdf");
    assert_eq!(parent_path(&put), "Document/Daily");
    assert_eq!(basename(&put), "n.pdf");
}

#[test]
fn error_codes_are_read_from_the_wire() {
    let all = [
        ("device_not_found", BridgeErrorCode::DeviceNotFound),
        ("pairing_required", BridgeErrorCode::PairingRequired),
        ("pin_invalid", BridgeErrorCode::PinInvalid),
        ("auth_failed", BridgeErrorCode::AuthFailed),
        ("transport_unreachable", BridgeErrorCode::TransportUnreachable),
        ("conflict_detected", BridgeErrorCode::ConflictDetected),
        ("unsupported_over_usb", BridgeErrorCode::UnsupportedOverUsb),
        ("internal_error", BridgeErrorCode::InternalError),
        ("anything else", BridgeErrorCode::InternalError),
    ];
    for (name, code) in all {
        assert_eq!(BridgeErrorCode::from_wire(name), code);
    }
}

#[test]
fn bridge_errors_show_their_message() {
    let error = BridgeError::new(BridgeErrorCode::AuthFailed, "no", Some("why".to_string()));
    assert_eq!(error.code, BridgeErrorCode::AuthFailed);
    assert_eq!(error.text(), "no");
    assert_eq!(error.details, Some("why".to_string()));
}

#[test]
fn provider_errors_are_told_with_code_and_message() {
    let all = [
        (RustProviderError::DeviceNotFound, "device not found", BridgeErrorCode::DeviceNotFound),
        (RustProviderError::PairingRequired, "pairing required", BridgeErrorCode::PairingRequired),
        (RustProviderError::PinInvalid, "invalid pairing pin", BridgeErrorCode::PinInvalid),
        (RustProviderError::AuthFailed, "authentication failed", BridgeErrorCode::AuthFailed),
        (
            RustProviderError::TransportUnreachable,
            "transport unreachable",
            BridgeErrorCode::TransportUnreachable,
        ),
        (
            RustProviderError::ConflictDetected,
            "conflict detected",
            BridgeErrorCode::ConflictDetected,
        ),
        (
            RustProviderError::UnsupportedOverUsb,
            "unsupported over usb",
            BridgeErrorCode::UnsupportedOverUsb,
        ),
    ];
    for (error, text, code) in all {
        assert_eq!(error.text(), text);
        let told = map_rust_error(error.clone());
        assert_eq!(told.code, code);
        assert_eq!(told.message, text);
        assert_eq!(told.details, None);
    }
    let missing = RustProviderError::NotImplemented("usb_status");
    assert_eq!(missing.text(), "operation not implemented in rust provider: usb_status");
    assert_eq!(
        map_rust_error(missing).message,
        "rust provider method not implemented: usb_status"
    );
    let internal = RustProviderError::Internal("boom".to_string());
    assert_eq!(internal.text(), "internal error: boom");
    let told = map_rust_error(internal);
    assert_eq!(told.message, "boom");
    assert_eq!(told.code, BridgeErrorCode::InternalError);
}

#[test]
fn well_known_addresses() {
    assert_eq!(DEFAULT_DEVICE_HOST, "digitalpaper.local");
    assert_eq!(USB_FALLBACK_ADDR, "172.25.47.1");
}
