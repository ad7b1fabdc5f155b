use digital_paper::discovery::{fallback_device_addrs, merge_known_addrs};
use digital_paper::domain::{BridgeErrorCode, RemoteEntry, RemoteEntryType};
use digital_paper::errors::{map_rust_error, RustProviderError};
use digital_paper::json::parse_json_or_string;
use digital_paper::listing::{find_entries_by_name, stat_entry, stat_folder, EntryWalk};
use digital_paper::paths::parent_path;
use digital_paper::session::parse_credentials_cookie;
use digital_paper::bytes::quote_plus;
use serde_json::Value;
use std::collections::HashMap;

struct Library {
    entries: HashMap<String, Vec<RemoteEntry>>,
}

impl Library {
    fn with_entries(entries: &[(&str, Vec<RemoteEntry>)]) -> Library {
        Library {
            entries: entries
                .iter()
                .map(|(path, items)| ((*path).to_string(), items.clone()))
                .collect(),
        }
    }

    fn list(&self, path: &str) -> Vec<RemoteEntry> {
        self.entries.get(path).cloned().unwrap_or_default()
    }
}

fn folder(path: &str) -> RemoteEntry {
    RemoteEntry {
        path: path.into(),
        name: path.rsplit('/').next().unwrap_or(path).into(),
        entry_type: RemoteEntryType::Folder,
        size: None,
        modified_at: None,
    }
}

fn document(path: &str) -> RemoteEntry {
    RemoteEntry {
        path: path.into(),
        name: path.rsplit('/').next().unwrap_or(path).into(),
        entry_type: RemoteEntryType::Document,
        size: Some(1),
        modified_at: Some("2026-03-13T00:00:00Z".into()),
    }
}

fn list_entries_recursive(library: &Library, root: &str) -> Vec<RemoteEntry> {
    let mut walk = EntryWalk::new(root);
    while let Some(path) = walk.next() {
        walk.feed(library.list(&path));
    }
    walk.finish()
}

#[test]
fn parent_path_handles_root_and_nested_paths() {
    assert_eq!(parent_path("Document"), "");
    assert_eq!(parent_path("Document/Daily"), "Document");
    assert_eq!(
        parent_path("Document/Daily/2026-03-13.pdf"),
        "Document/Daily"
    );
}

#[test]
fn parse_json_or_string_preserves_plain_strings() {
    assert_eq!(parse_json_or_string("plain"), Value::String("plain".into()));
    assert_eq!(parse_json_or_string("true"), Value::Bool(true));
    assert_eq!(parse_json_or_string("42"), Value::from(42));
    let mut object = serde_json::Map::new();
    object.insert("a".to_string(), Value::from(1));
    assert_eq!(parse_json_or_string("{\"a\":1}"), Value::Object(object));
}

#[test]
fn list_entries_recursive_returns_sorted_nested_entries() {
    let library = Library::with_entries(&[
        (
            "Document",
            vec![folder("Document/Daily"), document("Document/index.pdf")],
        ),
        (
            "Document/Daily",
            vec![document("Document/Daily/2026-03-13.pdf")],
        ),
    ]);

    let entries = list_entries_recursive(&library, "Document");

    let paths: Vec<_> = entries.into_iter().map(|entry| entry.path).collect();
    assert_eq!(
        paths,
        vec![
            "Document/Daily",
            "Document/Daily/2026-03-13.pdf",
            "Document/index.pdf",
        ]
    );
}

#[test]
fn stat_entry_finds_direct_child_in_parent_listing() {
    let library = Library::with_entries(&[(
        "Document/Daily",
        vec![document("Document/Daily/2026-03-13.pdf")],
    )]);

    let path = "Document/Daily/2026-03-13.pdf";
    let entry = stat_entry(path, &library.list(&stat_folder(path))).unwrap();

    assert_eq!(entry.path, "Document/Daily/2026-03-13.pdf");
}

#[test]
fn stat_entry_errors_for_missing_path() {
    let library = Library::with_entries(&[("Document", vec![])]);
    let path = "Document/missing.pdf";
    let err = stat_entry(path, &library.list(&stat_folder(path))).unwrap_err();
    assert!(err.to_string().contains("remote path not found"));
}

#[test]
fn find_entries_by_name_is_case_insensitive() {
    let library = Library::with_entries(&[
        (
            "Document",
            vec![
                folder("Document/Daily"),
                document("Document/Other.pdf"),
                document("Document/summary.PDF"),
            ],
        ),
        (
            "Document/Daily",
            vec![document("Document/Daily/Meeting Notes.pdf")],
        ),
    ]);

    let entries = find_entries_by_name(&list_entries_recursive(&library, "Document"), "meeting");
    let paths: Vec<_> = entries.into_iter().map(|entry| entry.path).collect();

    assert_eq!(paths, vec!["Document/Daily/Meeting Notes.pdf"]);
}

#[test]
fn rust_error_maps_to_bridge_error_code() {
    let mapped = map_rust_error(RustProviderError::PinInvalid);
    assert_eq!(mapped.code, BridgeErrorCode::PinInvalid);
}

#[test]
fn parse_credentials_cookie_works() {
    let raw = "Credentials=abc123; Path=/; HttpOnly";
    assert_eq!(parse_credentials_cookie(raw), Some("abc123".to_string()));
}

#[test]
fn quote_plus_encodes_like_python() {
    let encoded = quote_plus("Document/Meeting Notes.pdf");
    assert!(encoded.contains("%2F"));
    assert!(encoded.contains("+"));
}

#[test]
fn known_addr_persistence_roundtrip() {
    let saved = merge_known_addrs(
        &Vec::new(),
        &vec!["192.168.1.92".to_string(), "digitalpaper.local".to_string()],
    );
    let known = merge_known_addrs(&saved, &Vec::new());
    assert!(known.iter().any(|a| a == "192.168.1.92"));
    assert!(known.iter().any(|a| a == "digitalpaper.local"));
    assert_eq!(known, saved);
}

#[test]
fn fallback_addrs_include_python_usb_target() {
    assert!(fallback_device_addrs().contains(&"172.25.47.1".to_string()));
}
